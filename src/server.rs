use vstd::prelude::*;
use vstd::slice::slice_to_vec;
use vstd::string::StringSliceAdditionalSpecFns;
use crate::method::{Method, method_bytes};
use crate::path::{join_paths, joined_path};

verus! {

/// What a route is: the method and path it answers, and its handler.
pub ghost struct RouteSpec<H> {
    pub method: Method,
    pub path: Seq<u8>,
    pub handler: H,
}

/// The protocol token that closes a request line: ` HTTP/1.1\r\n`.
pub open spec fn version_suffix() -> Seq<u8> {
    seq![32u8, 72, 84, 84, 80, 47, 49, 46, 49, 13, 10]
}

/// The request line a route answers: `<METHOD> <PATH> HTTP/1.1\r\n`.
pub open spec fn request_line(method: Method, path: Seq<u8>) -> Seq<u8> {
    method_bytes(method) + seq![32u8] + path + version_suffix()
}

/// A request buffer is taken by a route when the route's request line is a
/// byte-for-byte prefix of it.
pub open spec fn route_matches<H>(route: RouteSpec<H>, buf: Seq<u8>) -> bool {
    let line = request_line(route.method, route.path);
    line.len() <= buf.len() && buf.take(line.len() as int) == line
}

/// The routes of a sub-router once it is mounted under `prefix`.
pub open spec fn mounted<H>(prefix: Seq<u8>, routes: Seq<RouteSpec<H>>) -> Seq<RouteSpec<H>> {
    routes.map_values(
        |r: RouteSpec<H>|
            RouteSpec { method: r.method, path: joined_path(prefix, r.path), handler: r.handler },
    )
}

struct Route<H> {
    method: Method,
    path: Vec<u8>,
    handler: H,
}

impl<H> Route<H> {
    closed spec fn spec(&self) -> RouteSpec<H> {
        RouteSpec { method: self.method, path: self.path@, handler: self.handler }
    }

    fn new(path: &str, method: Method, handler: H) -> (r: Route<H>)
        ensures
            r.spec() == (RouteSpec { method, path: path.spec_bytes(), handler }),
    {
        Route { method, path: slice_to_vec(path.as_bytes()), handler }
    }

    /// The request line this route answers.
    fn http_line(&self) -> (r: Vec<u8>)
        ensures
            r@ == request_line(self.method, self.path@),
    {
        let mut line = self.method.token();
        line.push(32u8);
        let mut i: usize = 0;
        while i < self.path.len()
            invariant
                i <= self.path@.len(),
                line@ == method_bytes(self.method) + seq![32u8] + self.path@.take(i as int),
            decreases self.path@.len() - i,
        {
            line.push(self.path[i]);
            assert(self.path@.take(i as int + 1) =~= self.path@.take(i as int).push(
                self.path@[i as int],
            ));
            i = i + 1;
        }
        assert(self.path@.take(self.path@.len() as int) =~= self.path@);
        let suffix: Vec<u8> = vec![32u8, 72, 84, 84, 80, 47, 49, 46, 49, 13, 10];
        let mut j: usize = 0;
        while j < suffix.len()
            invariant
                j <= suffix@.len(),
                suffix@ == version_suffix(),
                line@ == method_bytes(self.method) + seq![32u8] + self.path@ + suffix@.take(
                    j as int,
                ),
            decreases suffix@.len() - j,
        {
            line.push(suffix[j]);
            assert(suffix@.take(j as int + 1) =~= suffix@.take(j as int).push(suffix@[j as int]));
            j = j + 1;
        }
        assert(suffix@.take(suffix@.len() as int) =~= suffix@);
        line
    }

    /// Whether `buf` starts with this route's request line.
    fn check(&self, buf: &[u8]) -> (r: bool)
        ensures
            r == route_matches(self.spec(), buf@),
    {
        let line = self.http_line();
        if line.len() > buf.len() {
            return false;
        }
        let mut i: usize = 0;
        while i < line.len()
            invariant
                i <= line@.len() <= buf@.len(),
                line@ == request_line(self.method, self.path@),
                buf@.take(i as int) == line@.take(i as int),
            decreases line@.len() - i,
        {
            if buf[i] != line[i] {
                assert(buf@.take(line@.len() as int)[i as int] != line@[i as int]);
                assert(buf@.take(line@.len() as int) != line@);
                return false;
            }
            assert(buf@.take(i as int + 1) =~= buf@.take(i as int).push(buf@[i as int]));
            assert(line@.take(i as int + 1) =~= line@.take(i as int).push(line@[i as int]));
            i = i + 1;
        }
        assert(line@.take(line@.len() as int) =~= line@);
        true
    }
}

/// The routes in `v`, in order.
closed spec fn specs<H>(v: Seq<Route<H>>) -> Seq<RouteSpec<H>> {
    v.map_values(|r: Route<H>| r.spec())
}

/// `i` is the route that a request buffer goes to: the first, in registration
/// order, whose request line the buffer starts with.
pub open spec fn is_first_match<H>(routes: Seq<RouteSpec<H>>, buf: Seq<u8>, i: int) -> bool {
    &&& 0 <= i < routes.len()
    &&& route_matches(routes[i], buf)
    &&& forall|j: int| 0 <= j < i ==> !route_matches(#[trigger] routes[j], buf)
}

/// No route takes the request buffer.
pub open spec fn no_match<H>(routes: Seq<RouteSpec<H>>, buf: Seq<u8>) -> bool {
    forall|j: int| 0 <= j < routes.len() ==> !route_matches(#[trigger] routes[j], buf)
}

/// Registration of routes, shared by the server and by detachable sub-routers.
pub trait RequestHandler<H>: Sized {
    /// The registered routes, in registration order.
    spec fn routes(&self) -> Seq<RouteSpec<H>>;

    fn get(&mut self, path: &str, h: H) -> (r: &mut Self)
        ensures
            r.routes() == old(self).routes().push(
                (RouteSpec { method: Method::Get, path: path.spec_bytes(), handler: h }),
            ),
            *final(self) == *final(r),
    ;

    fn post(&mut self, path: &str, h: H) -> (r: &mut Self)
        ensures
            r.routes() == old(self).routes().push(
                (RouteSpec { method: Method::Post, path: path.spec_bytes(), handler: h }),
            ),
            *final(self) == *final(r),
    ;

    fn put(&mut self, path: &str, h: H) -> (r: &mut Self)
        ensures
            r.routes() == old(self).routes().push(
                (RouteSpec { method: Method::Put, path: path.spec_bytes(), handler: h }),
            ),
            *final(self) == *final(r),
    ;

    fn delete(&mut self, path: &str, h: H) -> (r: &mut Self)
        ensures
            r.routes() == old(self).routes().push(
                (RouteSpec { method: Method::Delete, path: path.spec_bytes(), handler: h }),
            ),
            *final(self) == *final(r),
    ;
}

/// Appends a route to `v`.
fn push_route<H>(v: &mut Vec<Route<H>>, path: &str, method: Method, h: H)
    ensures
        specs(final(v)@) == specs(old(v)@).push(
            (RouteSpec { method, path: path.spec_bytes(), handler: h }),
        ),
{
    let route = Route::new(path, method, h);
    let ghost before = v@;
    v.push(route);
    assert(specs(v@) =~= specs(before).push(route.spec()));
}

/// A set of routes that can be mounted on a server under a prefix.
pub struct Router<H> {
    end_points: Vec<Route<H>>,
}

impl<H> View for Router<H> {
    type V = Seq<RouteSpec<H>>;

    closed spec fn view(&self) -> Seq<RouteSpec<H>> {
        specs(self.end_points@)
    }
}

impl<H> Router<H> {
    pub fn new() -> (r: Router<H>)
        ensures
            r@ == Seq::<RouteSpec<H>>::empty(),
    {
        let r = Router { end_points: Vec::new() };
        assert(r@ =~= Seq::<RouteSpec<H>>::empty());
        r
    }
}

impl<H> RequestHandler<H> for Router<H> {
    open spec fn routes(&self) -> Seq<RouteSpec<H>> {
        self@
    }

    fn get(&mut self, path: &str, h: H) -> (r: &mut Self) {
        push_route(&mut self.end_points, path, Method::Get, h);
        self
    }

    fn post(&mut self, path: &str, h: H) -> (r: &mut Self) {
        push_route(&mut self.end_points, path, Method::Post, h);
        self
    }

    fn put(&mut self, path: &str, h: H) -> (r: &mut Self) {
        push_route(&mut self.end_points, path, Method::Put, h);
        self
    }

    fn delete(&mut self, path: &str, h: H) -> (r: &mut Self) {
        push_route(&mut self.end_points, path, Method::Delete, h);
        self
    }
}

/// An HTTP server: where it listens, its routes in registration order, and the
/// number of workers that handle matched requests.
pub struct Server<H> {
    addr: String,
    end_points: Vec<Route<H>>,
    pool_size: usize,
}

impl<H> View for Server<H> {
    type V = Seq<RouteSpec<H>>;

    closed spec fn view(&self) -> Seq<RouteSpec<H>> {
        specs(self.end_points@)
    }
}

impl<H> RequestHandler<H> for Server<H> {
    open spec fn routes(&self) -> Seq<RouteSpec<H>> {
        self@
    }

    fn get(&mut self, path: &str, h: H) -> (r: &mut Self) {
        push_route(&mut self.end_points, path, Method::Get, h);
        self
    }

    fn post(&mut self, path: &str, h: H) -> (r: &mut Self) {
        push_route(&mut self.end_points, path, Method::Post, h);
        self
    }

    fn delete(&mut self, path: &str, h: H) -> (r: &mut Self) {
        push_route(&mut self.end_points, path, Method::Delete, h);
        self
    }

    fn put(&mut self, path: &str, h: H) -> (r: &mut Self) {
        push_route(&mut self.end_points, path, Method::Put, h);
        self
    }
}

/// The fewest workers a server runs with, so that one slow handler cannot
/// hold every worker.
pub const MIN_POOL_SIZE: usize = 2;

impl<H> Server<H> {
    /// The address the server listens on.
    pub closed spec fn spec_addr(&self) -> Seq<char> {
        self.addr@
    }

    /// The number of workers the server runs.
    pub closed spec fn spec_pool_size(&self) -> usize {
        self.pool_size
    }

    /// A server for `addr` with no routes; the pool size is raised to at least
    /// two.
    pub fn new(addr: &str, pool_size: usize) -> (r: Server<H>)
        ensures
            r@ == Seq::<RouteSpec<H>>::empty(),
            r.spec_addr() == addr@,
            r.spec_pool_size() == if pool_size < MIN_POOL_SIZE {
                MIN_POOL_SIZE
            } else {
                pool_size
            },
    {
        let size = if pool_size < MIN_POOL_SIZE {
            MIN_POOL_SIZE
        } else {
            pool_size
        };
        let r = Server { addr: addr.to_owned(), end_points: Vec::new(), pool_size: size };
        assert(r@ =~= Seq::<RouteSpec<H>>::empty());
        r
    }

    /// Adds every route of `router`, in order, with its path joined under the
    /// prefix `path`.
    pub fn mount(&mut self, path: &str, router: Router<H>) -> (r: &mut Self)
        ensures
            r@ == old(self)@ + mounted(path.spec_bytes(), router@),
            r.spec_addr() == old(self).spec_addr(),
            r.spec_pool_size() == old(self).spec_pool_size(),
            *final(self) == *final(r),
    {
        let prefix = path.as_bytes();
        let mut eps = router.end_points;
        let ghost subs = eps@;
        let ghost start = self.end_points@;
        let ghost added = mounted(prefix@, specs(subs));
        let n = eps.len();
        let mut k: usize = 0;
        while k < n
            invariant
                n == subs.len(),
                k <= n,
                eps@ == subs.subrange(k as int, n as int),
                prefix@ == path.spec_bytes(),
                added == mounted(prefix@, specs(subs)),
                router@ == specs(subs),
                specs(self.end_points@) == specs(start) + added.take(k as int),
                self.addr == old(self).addr,
                self.pool_size == old(self).pool_size,
                start == old(self).end_points@,
            decreases n - k,
        {
            let route = eps.remove(0);
            assert(route == subs[k as int]);
            assert(router@[k as int] == route.spec());
            let joined = join_paths(prefix, route.path.as_slice());
            let m = Route { method: route.method, path: joined, handler: route.handler };
            let ghost before = self.end_points@;
            self.end_points.push(m);
            assert(specs(self.end_points@) =~= specs(before).push(m.spec()));
            assert(added.take(k as int + 1) =~= added.take(k as int).push(added[k as int]));
            k = k + 1;
        }
        assert(added.take(n as int) =~= added);
        self
    }

    /// The route that a request buffer goes to: the first registered route
    /// whose request line the buffer starts with, or none.
    pub fn find_route(&self, buf: &[u8]) -> (r: Option<usize>)
        ensures
            match r {
                Some(i) => is_first_match(self@, buf@, i as int),
                None => no_match(self@, buf@),
            },
    {
        let mut i: usize = 0;
        while i < self.end_points.len()
            invariant
                i <= self@.len(),
                self@.len() == self.end_points@.len(),
                forall|j: int| 0 <= j < i ==> !route_matches(#[trigger] self@[j], buf@),
            decreases self@.len() - i,
        {
            assert(self@[i as int] == self.end_points@[i as int].spec());
            if self.end_points[i].check(buf) {
                return Some(i);
            }
            i = i + 1;
        }
        None
    }

    /// The handler of the route at `i`.
    pub fn handler(&self, i: usize) -> (r: &H)
        requires
            i < self@.len(),
        ensures
            *r == self@[i as int].handler,
    {
        &self.end_points[i].handler
    }

    /// The number of registered routes.
    pub fn route_count(&self) -> (r: usize)
        ensures
            r == self@.len(),
    {
        self.end_points.len()
    }

    /// The method of the route at `i`.
    pub fn route_method(&self, i: usize) -> (r: Method)
        requires
            i < self@.len(),
        ensures
            r == self@[i as int].method,
    {
        self.end_points[i].method
    }

    /// The path of the route at `i`, as bytes.
    pub fn route_path(&self, i: usize) -> (r: &[u8])
        requires
            i < self@.len(),
        ensures
            r@ == self@[i as int].path,
    {
        self.end_points[i].path.as_slice()
    }

    /// The address the server listens on.
    pub fn addr(&self) -> (r: &str)
        ensures
            r@ == self.spec_addr(),
    {
        self.addr.as_str()
    }

    /// The number of workers the server runs.
    pub fn pool_size(&self) -> (r: usize)
        ensures
            r == self.spec_pool_size(),
    {
        self.pool_size
    }
}

/// A request that opens with the request line of a registered route, whatever
/// follows it, is taken by that route or by an earlier one: it never falls
/// through to the fallback, and no later route can take it.
pub proof fn lemma_registered_line_dispatches<H>(
    routes: Seq<RouteSpec<H>>,
    i: int,
    rest: Seq<u8>,
)
    requires
        0 <= i < routes.len(),
    ensures
        route_matches(routes[i], request_line(routes[i].method, routes[i].path) + rest),
        !no_match(routes, request_line(routes[i].method, routes[i].path) + rest),
        forall|j: int|
            is_first_match(routes, request_line(routes[i].method, routes[i].path) + rest, j)
                ==> j <= i,
{
    let line = request_line(routes[i].method, routes[i].path);
    let buf = line + rest;
    assert(buf.take(line.len() as int) =~= line);
    assert forall|j: int| is_first_match(routes, buf, j) implies j <= i by {
        if j > i {
            assert(!route_matches(routes[i], buf));
        }
    }
}

} // verus!