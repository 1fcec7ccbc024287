//! The registration surface: one method per request method, and the server
//! state that holds the routes until it starts listening.

use vstd::prelude::*;
use crate::router::{Method, Router};

verus! {

/// Collects routes, one registration method per request method.
pub struct App<H> {
    router: Router<H>,
}

impl<H> View for App<H> {
    type V = Seq<(Method, Seq<char>)>;

    closed spec fn view(&self) -> Seq<(Method, Seq<char>)> {
        self.router@
    }
}

impl<H> App<H> {
    /// The handlers, in registration order.
    pub closed spec fn handlers(&self) -> Seq<H> {
        self.router.handlers()
    }

    pub fn new() -> (r: App<H>)
        ensures
            r@ == Seq::<(Method, Seq<char>)>::empty(),
            r.handlers() == Seq::<H>::empty(),
    {
        App { router: Router::new() }
    }

    /// Registers `handler` for GET requests on `path`.
    pub fn get(&mut self, path: &str, handler: H)
        ensures
            final(self)@ == old(self)@.push((Method::Get, path@)),
            final(self).handlers() == old(self).handlers().push(handler),
    {
        self.add_route(Method::Get, path, handler);
    }

    /// Registers `handler` for POST requests on `path`.
    pub fn post(&mut self, path: &str, handler: H)
        ensures
            final(self)@ == old(self)@.push((Method::Post, path@)),
            final(self).handlers() == old(self).handlers().push(handler),
    {
        self.add_route(Method::Post, path, handler);
    }

    /// Registers `handler` for PUT requests on `path`.
    pub fn put(&mut self, path: &str, handler: H)
        ensures
            final(self)@ == old(self)@.push((Method::Put, path@)),
            final(self).handlers() == old(self).handlers().push(handler),
    {
        self.add_route(Method::Put, path, handler);
    }

    /// Registers `handler` for DELETE requests on `path`.
    pub fn delete(&mut self, path: &str, handler: H)
        ensures
            final(self)@ == old(self)@.push((Method::Delete, path@)),
            final(self).handlers() == old(self).handlers().push(handler),
    {
        self.add_route(Method::Delete, path, handler);
    }

    /// Registers `handler` for PATCH requests on `path`.
    pub fn patch(&mut self, path: &str, handler: H)
        ensures
            final(self)@ == old(self)@.push((Method::Patch, path@)),
            final(self).handlers() == old(self).handlers().push(handler),
    {
        self.add_route(Method::Patch, path, handler);
    }

    fn add_route(&mut self, method: Method, path: &str, handler: H)
        ensures
            final(self)@ == old(self)@.push((method, path@)),
            final(self).handlers() == old(self).handlers().push(handler),
    {
        self.router.add_route(method, path, handler);
    }

    /// The route table built so far.
    pub fn router(&self) -> (r: &Router<H>)
        ensures
            r@ == self@,
            r.handlers() == self.handlers(),
    {
        &self.router
    }
}

/// The port a server listens on until told otherwise.
pub const DEFAULT_PORT: u16 = 3000;

/// A server before it listens: its port and the routes registered so far.
pub struct RexprsServer<H> {
    port: u16,
    router: Option<Router<H>>,
}

impl<H> RexprsServer<H> {
    /// The routes registered so far.
    pub closed spec fn routes(&self) -> Seq<(Method, Seq<char>)> {
        match self.router {
            Some(r) => r@,
            None => Seq::empty(),
        }
    }

    /// Their handlers, in registration order.
    pub closed spec fn handlers(&self) -> Seq<H> {
        match self.router {
            Some(r) => r.handlers(),
            None => Seq::empty(),
        }
    }

    pub closed spec fn port_spec(&self) -> u16 {
        self.port
    }

    pub fn new() -> (r: RexprsServer<H>)
        ensures
            r.port_spec() == DEFAULT_PORT,
            r.routes() == Seq::<(Method, Seq<char>)>::empty(),
            r.handlers() == Seq::<H>::empty(),
    {
        RexprsServer { port: DEFAULT_PORT, router: None }
    }

    /// The port to listen on.
    pub fn port(&self) -> (r: u16)
        ensures
            r == self.port_spec(),
    {
        self.port
    }

    /// Appends a route.
    pub fn add_route(&mut self, method: Method, path: &str, handler: H)
        ensures
            final(self).routes() == old(self).routes().push((method, path@)),
            final(self).handlers() == old(self).handlers().push(handler),
            final(self).port_spec() == old(self).port_spec(),
    {
        let mut router = match self.router.take() {
            Some(r) => r,
            None => Router::new(),
        };
        router.add_route(method, path, handler);
        self.router = Some(router);
    }

    /// Sets the port and hands over the route table, which from then on is
    /// shared read-only; the server is left with none.
    pub fn start(&mut self, port: u16) -> (r: Router<H>)
        ensures
            r@ == old(self).routes(),
            r.handlers() == old(self).handlers(),
            final(self).port_spec() == port,
            final(self).routes() == Seq::<(Method, Seq<char>)>::empty(),
            final(self).handlers() == Seq::<H>::empty(),
    {
        self.port = port;
        match self.router.take() {
            Some(r) => r,
            None => Router::new(),
        }
    }
}

} // verus!
