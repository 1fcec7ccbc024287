//! A small HTTP routing toolkit: path patterns with named parameters, an
//! ordered route table, standard error responses, and the decisions that turn
//! a request and its handler's outcome into a response.

pub mod strmap;
pub mod path;
pub mod router;
pub mod response;
pub mod dispatch;
pub mod server;
pub mod bridge;

pub use strmap::StrMap;
