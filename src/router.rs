//! The route table: routes kept in registration order and looked up by
//! method and path, first match first.

use vstd::prelude::*;
use crate::strmap::{StrMap, str_eq};
use crate::path::{match_route, match_spec, params_view};

verus! {

/// The request methods that routes can be registered for.
#[derive(Clone, Copy, Debug, PartialEq, Eq, Structural)]
pub enum Method {
    Get,
    Post,
    Put,
    Delete,
    Patch,
    Head,
    Options,
    Connect,
    Trace,
}

pub open spec fn method_name(m: Method) -> Seq<char> {
    match m {
        Method::Get => "GET"@,
        Method::Post => "POST"@,
        Method::Put => "PUT"@,
        Method::Delete => "DELETE"@,
        Method::Patch => "PATCH"@,
        Method::Head => "HEAD"@,
        Method::Options => "OPTIONS"@,
        Method::Connect => "CONNECT"@,
        Method::Trace => "TRACE"@,
    }
}

/// Distinct methods have distinct names.
pub proof fn lemma_method_name_injective(a: Method, b: Method)
    ensures
        method_name(a) == method_name(b) ==> a == b,
{
    reveal_strlit("GET");
    reveal_strlit("POST");
    reveal_strlit("PUT");
    reveal_strlit("DELETE");
    reveal_strlit("PATCH");
    reveal_strlit("HEAD");
    reveal_strlit("OPTIONS");
    reveal_strlit("CONNECT");
    reveal_strlit("TRACE");
    if method_name(a) == method_name(b) {
        assert(method_name(a).len() == method_name(b).len());
        assert(method_name(a)[0] == method_name(b)[0]);
    }
}

impl Method {
    /// The method's name as it appears on the request line.
    pub fn as_str(&self) -> (r: &'static str)
        ensures
            r@ == method_name(*self),
    {
        match self {
            Method::Get => "GET",
            Method::Post => "POST",
            Method::Put => "PUT",
            Method::Delete => "DELETE",
            Method::Patch => "PATCH",
            Method::Head => "HEAD",
            Method::Options => "OPTIONS",
            Method::Connect => "CONNECT",
            Method::Trace => "TRACE",
        }
    }

    /// The method named `name` (case-sensitive), if it is one of these.
    pub fn from_name(name: &str) -> (r: Option<Method>)
        ensures
            match r {
                Some(m) => method_name(m) == name@,
                None => forall|m: Method| method_name(m) != name@,
            },
    {
        let all = [
            Method::Get,
            Method::Post,
            Method::Put,
            Method::Delete,
            Method::Patch,
            Method::Head,
            Method::Options,
            Method::Connect,
            Method::Trace,
        ];
        let mut i: usize = 0;
        while i < 9
            invariant
                i <= 9,
                all@ == seq![
                    Method::Get,
                    Method::Post,
                    Method::Put,
                    Method::Delete,
                    Method::Patch,
                    Method::Head,
                    Method::Options,
                    Method::Connect,
                    Method::Trace,
                ],
                forall|j: int| 0 <= j < i ==> method_name(all@[j]) != name@,
            decreases 9 - i,
        {
            let m = all[i];
            if str_eq(m.as_str(), name) {
                return Some(m);
            }
            i = i + 1;
        }
        proof {
            assert forall|m: Method| method_name(m) != name@ by {
                match m {
                    Method::Get => assert(method_name(all@[0]) != name@),
                    Method::Post => assert(method_name(all@[1]) != name@),
                    Method::Put => assert(method_name(all@[2]) != name@),
                    Method::Delete => assert(method_name(all@[3]) != name@),
                    Method::Patch => assert(method_name(all@[4]) != name@),
                    Method::Head => assert(method_name(all@[5]) != name@),
                    Method::Options => assert(method_name(all@[6]) != name@),
                    Method::Connect => assert(method_name(all@[7]) != name@),
                    Method::Trace => assert(method_name(all@[8]) != name@),
                }
            }
        }
        None
    }
}

/// One registration: a method, a path pattern, and what handles it.
pub struct Route<H> {
    pub method: Method,
    pub path: String,
    pub handler: H,
}

/// Whether a route registered as (method, pattern) serves `m` on `path`.
pub open spec fn route_matches(rt: (Method, Seq<char>), m: Method, path: Seq<char>) -> bool {
    rt.0 == m && match_spec(rt.1, path) is Some
}

/// The index of the first of the first `n` routes that serves `m` on `path`.
pub open spec fn first_match(rs: Seq<(Method, Seq<char>)>, m: Method, path: Seq<char>, n: nat) -> Option<int>
    decreases n,
{
    if n == 0 {
        None
    } else {
        match first_match(rs, m, path, (n - 1) as nat) {
            Some(i) => Some(i),
            None => if route_matches(rs[n - 1], m, path) {
                Some(n - 1)
            } else {
                None
            },
        }
    }
}

/// The index of the route that a lookup of `m` on `path` selects.
pub open spec fn lookup(rs: Seq<(Method, Seq<char>)>, m: Method, path: Seq<char>) -> Option<int> {
    first_match(rs, m, path, rs.len())
}

/// An ordered table of routes.
pub struct Router<H> {
    routes: Vec<Route<H>>,
}

impl<H> View for Router<H> {
    type V = Seq<(Method, Seq<char>)>;

    closed spec fn view(&self) -> Seq<(Method, Seq<char>)> {
        self.routes@.map_values(|r: Route<H>| (r.method, r.path@))
    }
}

impl<H> Router<H> {
    /// The handlers, in registration order.
    pub closed spec fn handlers(&self) -> Seq<H> {
        self.routes@.map_values(|r: Route<H>| r.handler)
    }

    pub fn new() -> (r: Router<H>)
        ensures
            r@ == Seq::<(Method, Seq<char>)>::empty(),
            r.handlers() == Seq::<H>::empty(),
    {
        let r = Router { routes: Vec::new() };
        assert(r@ =~= Seq::<(Method, Seq<char>)>::empty());
        assert(r.handlers() =~= Seq::<H>::empty());
        r
    }

    /// Number of routes.
    pub fn len(&self) -> (r: usize)
        ensures
            r == self@.len(),
    {
        self.routes.len()
    }

    /// Appends a route; earlier routes keep their places and precedence.
    pub fn add_route(&mut self, method: Method, path: &str, handler: H)
        ensures
            final(self)@ == old(self)@.push((method, path@)),
            final(self).handlers() == old(self).handlers().push(handler),
    {
        let ghost v = self@;
        let ghost hs = self.handlers();
        self.routes.push(Route { method, path: String::from_str(path), handler });
        assert(self@ =~= v.push((method, path@)));
        assert(self.handlers() =~= hs.push(handler));
    }

    /// The first registered route for `method` whose pattern matches
    /// `req_path`: its index and the parameters it binds.
    pub fn find_route(&self, method: &Method, req_path: &str) -> (r: Option<(usize, StrMap)>)
        ensures
            match lookup(self@, *method, req_path@) {
                Some(i) => r matches Some((j, p)) && j == i && p.wf()
                    && match_spec(self@[i].1, req_path@) == Some(p@),
                None => r is None,
            },
    {
        let mut i: usize = 0;
        while i < self.routes.len()
            invariant
                i <= self@.len(),
                self@.len() == self.routes@.len(),
                first_match(self@, *method, req_path@, i as nat) is None,
            decreases self@.len() - i,
        {
            let route = &self.routes[i];
            assert(self@[i as int] == (route.method, route.path@));
            if route.method == *method {
                let found = match_route(route.path.as_str(), req_path);
                match found {
                    Some(params) => {
                        proof {
                            assert(first_match(self@, *method, req_path@, (i + 1) as nat) == Some(i as int));
                            lemma_first_match_stable(self@, *method, req_path@, (i + 1) as nat, self@.len());
                        }
                        return Some((i, params));
                    },
                    None => {},
                }
            }
            i = i + 1;
        }
        None
    }

    /// The handler of the first registered route for `method` whose pattern
    /// matches `req_path`, with the parameters it binds.
    pub fn find_handler(&self, method: &Method, req_path: &str) -> (r: Option<(&H, StrMap)>)
        ensures
            match lookup(self@, *method, req_path@) {
                Some(i) => r matches Some((h, p)) && 0 <= i < self@.len() && *h == self.handlers()[i] && p.wf()
                    && match_spec(self@[i].1, req_path@) == Some(p@),
                None => r is None,
            },
    {
        match self.find_route(method, req_path) {
            Some((i, params)) => {
                proof {
                    lemma_first_match_bound(self@, *method, req_path@, self@.len());
                }
                Some((&self.routes[i].handler, params))
            },
            None => None,
        }
    }
}

proof fn lemma_first_match_stable(rs: Seq<(Method, Seq<char>)>, m: Method, path: Seq<char>, a: nat, b: nat)
    requires
        a <= b,
    ensures
        first_match(rs, m, path, a) is Some ==> first_match(rs, m, path, b) == first_match(rs, m, path, a),
    decreases b - a,
{
    if a < b {
        lemma_first_match_stable(rs, m, path, a, (b - 1) as nat);
    }
}

proof fn lemma_first_match_bound(rs: Seq<(Method, Seq<char>)>, m: Method, path: Seq<char>, n: nat)
    ensures
        first_match(rs, m, path, n) matches Some(i) ==> 0 <= i < n,
    decreases n,
{
    if n > 0 {
        lemma_first_match_bound(rs, m, path, (n - 1) as nat);
    }
}

proof fn lemma_first_match_char(rs: Seq<(Method, Seq<char>)>, m: Method, path: Seq<char>, n: nat, i: int)
    requires
        n <= rs.len(),
    ensures
        first_match(rs, m, path, n) == Some(i) <==> (0 <= i < n && route_matches(rs[i], m, path)
            && forall|j: int| 0 <= j < i ==> !route_matches(rs[j], m, path)),
        first_match(rs, m, path, n) is None <==> forall|j: int| 0 <= j < n ==> !route_matches(rs[j], m, path),
    decreases n,
{
    if n > 0 {
        lemma_first_match_char(rs, m, path, (n - 1) as nat, i);
        if first_match(rs, m, path, (n - 1) as nat) is None {
            assert forall|j: int| 0 <= j < n - 1 implies !route_matches(rs[j], m, path) by {
            }
        } else {
            let k = first_match(rs, m, path, (n - 1) as nat)->Some_0;
            lemma_first_match_char(rs, m, path, (n - 1) as nat, k);
        }
    }
}

/// A lookup selects a route that serves the method and path, and no route
/// registered before it does: the earliest registration wins, however
/// specific a later pattern is. It selects none only when no route serves them.
pub proof fn law_first_registered_wins(rs: Seq<(Method, Seq<char>)>, m: Method, path: Seq<char>)
    ensures
        match lookup(rs, m, path) {
            Some(i) => 0 <= i < rs.len() && route_matches(rs[i], m, path)
                && forall|j: int| 0 <= j < i ==> !route_matches(rs[j], m, path),
            None => forall|j: int| 0 <= j < rs.len() ==> !route_matches(rs[j], m, path),
        },
{
    match lookup(rs, m, path) {
        Some(i) => lemma_first_match_char(rs, m, path, rs.len(), i),
        None => lemma_first_match_char(rs, m, path, rs.len(), 0),
    }
}

} // verus!
