//! Routes: the tables that services are registered in and that incoming
//! channels are switched through. A route maps names to services and to
//! further routes; a path such as `a/b/service` is followed name by name.
//!
//! Services and routes are kept as handles: a service is known by the number
//! it was registered with, a route by its place among the routes. Route 0 is
//! the global route.
use vstd::prelude::*;

use crate::error::{Error, ErrorKindSer};

verus! {

/// What a name in a route leads to.
#[derive(Clone, Copy, Debug, PartialEq, Eq, Structural)]
pub enum Entry {
    /// the service registered under this handle
    Service(u64),
    /// the route at this place
    Route(usize),
}

/// The names and entries that a route's map holds.
pub uninterp spec fn route_map_entries(m: dashmap::DashMap<String, Entry>) -> Map<Seq<char>, Entry>;

/// The components of a path, as `camino::Utf8Path` splits it.
pub uninterp spec fn utf8_path_components(at: Seq<char>) -> Seq<Seq<char>>;

/// The entries of an empty route.
pub open spec fn no_entries() -> Map<Seq<char>, Entry> {
    Map::empty()
}

/// An empty map. Calls `dashmap::DashMap::new`.
#[verifier::external_body]
fn map_new() -> (r: dashmap::DashMap<String, Entry>)
    ensures
        route_map_entries(r) == no_entries(),
{
    dashmap::DashMap::new()
}

/// Inserts an entry under a name. Calls `dashmap::DashMap::insert`, which
/// replaces what the name held and returns it.
#[verifier::external_body]
fn map_insert(m: &mut dashmap::DashMap<String, Entry>, key: String, value: Entry) -> (r: Option<Entry>)
    ensures
        route_map_entries(*final(m)) == route_map_entries(*old(m)).insert(key@, value),
        r == route_map_entries(*old(m)).get(key@),
{
    m.insert(key, value)
}

/// Removes the entry of a name. Calls `dashmap::DashMap::remove` and keeps
/// the entry of the pair it returns.
#[verifier::external_body]
fn map_remove(m: &mut dashmap::DashMap<String, Entry>, key: &str) -> (r: Option<Entry>)
    ensures
        route_map_entries(*final(m)) == route_map_entries(*old(m)).remove(key@),
        r == route_map_entries(*old(m)).get(key@),
{
    m.remove(key).map(|(_, v)| v)
}

/// The entry of a name. Calls `dashmap::DashMap::get` and copies the entry.
#[verifier::external_body]
fn map_get(m: &dashmap::DashMap<String, Entry>, key: &str) -> (r: Option<Entry>)
    ensures
        r == route_map_entries(*m).get(key@),
{
    m.get(key).map(|e| *e.value())
}

/// The names in a map, in the order the map is walked. Calls
/// `dashmap::DashMap::iter` and clones each key. The order depends on the
/// map's hasher and is not stated.
#[verifier::external_body]
fn map_keys(m: &dashmap::DashMap<String, Entry>) -> (r: Vec<String>)
    ensures
        forall|i: int| 0 <= i < r@.len() ==> route_map_entries(*m).contains_key(#[trigger] r@[i]@),
        forall|k: Seq<char>| route_map_entries(*m).contains_key(k) ==> exists|i: int|
            0 <= i < r@.len() && #[trigger] r@[i]@ == k,
{
    m.iter().map(|e| e.key().clone()).collect()
}

/// The components of a path. Calls `camino::Utf8Path::iter` and converts each
/// component into a `String`.
#[verifier::external_body]
fn path_components(at: &str) -> (r: Vec<String>)
    ensures
        r@.map_values(|s: String| s@) == utf8_path_components(at@),
{
    camino::Utf8Path::new(at).iter().map(String::from).collect()
}

/// One route: a concurrent map from names to entries.
pub struct RouteTable {
    map: dashmap::DashMap<String, Entry>,
}

impl RouteTable {
    /// The names of this route and what they lead to.
    pub closed spec fn entries(&self) -> Map<Seq<char>, Entry> {
        route_map_entries(self.map)
    }
}

/// What switching a channel along a path gives.
#[derive(Clone, Copy, Debug, PartialEq, Eq, Structural)]
pub enum Switch {
    /// the path led to this service; its context is the route it was found in
    Delivered { service: u64, context: usize },
    /// a name on the path is not in its route: the channel is handed back
    NotFound,
    /// the path ended on a route (or was empty): the channel is dropped
    Dropped,
}

/// Following the names `segs` from route `at`, `ctx` being the route where the
/// walk stands.
pub open spec fn resolve(tables: Seq<Map<Seq<char>, Entry>>, at: int, segs: Seq<Seq<char>>) -> Switch
    decreases segs.len(),
{
    if segs.len() == 0 {
        Switch::Dropped
    } else if !(0 <= at < tables.len()) {
        Switch::NotFound
    } else {
        match tables[at].get(segs[0]) {
            None => Switch::NotFound,
            Some(Entry::Service(s)) => Switch::Delivered { service: s, context: at as usize },
            Some(Entry::Route(r)) => resolve(tables, r as int, segs.drop_first()),
        }
    }
}

/// The message of a name already taken.
pub open spec fn taken_message(at: Seq<char>) -> Seq<char> {
    "service `"@ + at + "` already exists"@
}

/// The message of a name not in a route.
pub open spec fn missing_message(at: Seq<char>) -> Seq<char> {
    "service `"@ + at + "` doesn't exist"@
}

/// The error for a taken name: `AddrInUse`, naming it.
fn taken(at: &str) -> (e: Error)
    ensures
        e.kind == ErrorKindSer::AddrInUse,
        e.message@ == taken_message(at@),
{
    let mut m = "service `".to_string();
    m.append(at);
    m.append("` already exists");
    Error::with_message(ErrorKindSer::AddrInUse, m)
}

/// The error for a missing name: `NotFound`, naming it.
fn missing(at: &str) -> (e: Error)
    ensures
        e.kind == ErrorKindSer::NotFound,
        e.message@ == missing_message(at@),
{
    let mut m = "service `".to_string();
    m.append(at);
    m.append("` doesn't exist");
    Error::with_message(ErrorKindSer::NotFound, m)
}

/// All the routes, the global route first.
pub struct Routes {
    tables: Vec<RouteTable>,
}

impl View for Routes {
    type V = Seq<Map<Seq<char>, Entry>>;

    closed spec fn view(&self) -> Seq<Map<Seq<char>, Entry>> {
        self.tables@.map_values(|t: RouteTable| t.entries())
    }
}

/// The routes that an entry of `routes` leads to are among them.
pub open spec fn routes_wf(routes: Seq<Map<Seq<char>, Entry>>) -> bool {
    &&& routes.len() >= 1
    &&& forall|i: int, k: Seq<char>|
        0 <= i < routes.len() && #[trigger] routes[i].contains_key(k) ==> (routes[i][k] matches Entry::Route(
            r,
        ) ==> r < routes.len())
}

impl Routes {
    /// The routes of a program at its start: the global route, empty.
    pub fn new() -> (r: Routes)
        ensures
            r@ == seq![Map::<Seq<char>, Entry>::empty()],
            routes_wf(r@),
    {
        let mut tables: Vec<RouteTable> = Vec::new();
        tables.push(RouteTable { map: map_new() });
        let r = Routes { tables };
        assert(r@ =~= seq![Map::<Seq<char>, Entry>::empty()]);
        r
    }

    /// The number of routes.
    pub fn len(&self) -> (n: usize)
        ensures
            n == self@.len(),
    {
        self.tables.len()
    }

    fn set_entry(&mut self, route: usize, at: String, e: Entry) -> (r: Option<Entry>)
        requires
            route < old(self)@.len(),
            e matches Entry::Route(c) ==> c < old(self)@.len(),
        ensures
            final(self)@ == old(self)@.update(route as int, old(self)@[route as int].insert(at@, e)),
            r == old(self)@[route as int].get(at@),
    {
        let ghost k = at@;
        let r = map_insert(&mut self.tables[route].map, at, e);
        assert(self@ =~= old(self)@.update(route as int, old(self)@[route as int].insert(k, e)));
        r
    }

    /// Registers the service `service` under the name `at` of a route. The
    /// entry is set even when the name was taken, and then `AddrInUse` is
    /// reported.
    pub fn add_service_at(&mut self, route: usize, at: &str, service: u64) -> (r: core::result::Result<
        (),
        Error,
    >)
        requires
            route < old(self)@.len(),
        ensures
            final(self)@ == old(self)@.update(
                route as int,
                old(self)@[route as int].insert(at@, Entry::Service(service)),
            ),
            r is Err <==> old(self)@[route as int].contains_key(at@),
            r matches Err(e) ==> e.kind == ErrorKindSer::AddrInUse && e.message@ == taken_message(at@),
            routes_wf(old(self)@) ==> routes_wf(final(self)@),
    {
        match self.set_entry(route, at.to_string(), Entry::Service(service)) {
            Some(_) => Err(taken(at)),
            None => Ok(()),
        }
    }

    /// Puts the route `child` under the name `at` of a route. The entry is set
    /// even when the name was taken, and then `AddrInUse` is reported.
    pub fn insert_route_at(&mut self, route: usize, at: &str, child: usize) -> (r: core::result::Result<
        (),
        Error,
    >)
        requires
            route < old(self)@.len(),
            child < old(self)@.len(),
        ensures
            final(self)@ == old(self)@.update(
                route as int,
                old(self)@[route as int].insert(at@, Entry::Route(child)),
            ),
            r is Err <==> old(self)@[route as int].contains_key(at@),
            r matches Err(e) ==> e.kind == ErrorKindSer::AddrInUse && e.message@ == taken_message(at@),
            routes_wf(old(self)@) ==> routes_wf(final(self)@),
    {
        match self.set_entry(route, at.to_string(), Entry::Route(child)) {
            Some(_) => Err(taken(at)),
            None => Ok(()),
        }
    }

    /// Creates a new, empty route and puts it under the name `at` of a route.
    /// Gives the place of the new route, the context that services added to
    /// it run in.
    pub fn add_route_at(&mut self, route: usize, at: &str) -> (r: core::result::Result<usize, Error>)
        requires
            route < old(self)@.len(),
            old(self)@.len() < usize::MAX,
        ensures
            final(self)@ == old(self)@.push(Map::<Seq<char>, Entry>::empty()).update(
                route as int,
                old(self)@[route as int].insert(at@, Entry::Route(old(self)@.len() as usize)),
            ),
            r is Err <==> old(self)@[route as int].contains_key(at@),
            r matches Ok(c) ==> c == old(self)@.len(),
            r matches Err(e) ==> e.kind == ErrorKindSer::AddrInUse && e.message@ == taken_message(at@),
            routes_wf(old(self)@) ==> routes_wf(final(self)@),
    {
        let child = self.tables.len();
        self.tables.push(RouteTable { map: map_new() });
        assert(self@ =~= old(self)@.push(Map::<Seq<char>, Entry>::empty()));
        match self.insert_route_at(route, at, child) {
            Ok(()) => Ok(child),
            Err(e) => Err(e),
        }
    }

    /// Removes the entry of the name `at` of a route; `NotFound` when there is none.
    pub fn remove_at(&mut self, route: usize, at: &str) -> (r: core::result::Result<(), Error>)
        requires
            route < old(self)@.len(),
        ensures
            final(self)@ == old(self)@.update(route as int, old(self)@[route as int].remove(at@)),
            r is Err <==> !old(self)@[route as int].contains_key(at@),
            r matches Err(e) ==> e.kind == ErrorKindSer::NotFound && e.message@ == missing_message(at@),
            routes_wf(old(self)@) ==> routes_wf(final(self)@),
    {
        let r = map_remove(&mut self.tables[route].map, at);
        assert(self@ =~= old(self)@.update(route as int, old(self)@[route as int].remove(at@)));
        match r {
            Some(_) => Ok(()),
            None => Err(missing(at)),
        }
    }

    /// The entry of the name `at` of a route.
    pub fn get(&self, route: usize, at: &str) -> (r: Option<Entry>)
        requires
            route < self@.len(),
        ensures
            r == self@[route as int].get(at@),
    {
        map_get(&self.tables[route].map, at)
    }

    /// The names in a route, in no stated order.
    pub fn keys(&self, route: usize) -> (r: Vec<String>)
        requires
            route < self@.len(),
        ensures
            forall|i: int| 0 <= i < r@.len() ==> self@[route as int].contains_key(#[trigger] r@[i]@),
            forall|k: Seq<char>| self@[route as int].contains_key(k) ==> exists|i: int|
                0 <= i < r@.len() && #[trigger] r@[i]@ == k,
    {
        map_keys(&self.tables[route].map)
    }

    /// Follows the path `at` from a route, name by name through the routes it
    /// leads to: to a service (delivered, in the context of the route it was
    /// found in), to a missing name (not found), or to its end on a route
    /// (dropped).
    pub fn switch_raw(&self, route: usize, at: &str) -> (r: Switch)
        requires
            route < self@.len(),
        ensures
            r == resolve(self@, route as int, utf8_path_components(at@)),
    {
        let segs = path_components(at);
        let ghost all = utf8_path_components(at@);
        let n = segs.len();
        let mut i: usize = 0;
        let mut cur = route;
        assert(all.skip(0) =~= all);
        while i < n
            invariant
                n == segs@.len(),
                segs@.map_values(|s: String| s@) == all,
                all == utf8_path_components(at@),
                i <= n,
                cur < self@.len(),
                resolve(self@, route as int, all) == resolve(self@, cur as int, all.skip(i as int)),
            decreases n - i,
        {
            proof {
                assert(all.skip(i as int)[0] == segs@[i as int]@);
                assert(all.skip(i as int).drop_first() =~= all.skip(i + 1));
                assert(self@[cur as int] == route_map_entries(self.tables@[cur as int].map));
                assert(all.skip(i as int).len() > 0);
            }
            let key = segs[i].as_str();
            let found = map_get(&self.tables[cur].map, key);
            proof {
                assert(key@ == all.skip(i as int)[0]);
                assert(found == self@[cur as int].get(all.skip(i as int)[0]));
                assert(resolve(self@, cur as int, all.skip(i as int)) == match self@[cur as int].get(
                    all.skip(i as int)[0],
                ) {
                    None => Switch::NotFound,
                    Some(Entry::Service(s)) => Switch::Delivered { service: s, context: cur },
                    Some(Entry::Route(r)) => resolve(self@, r as int, all.skip(i as int).drop_first()),
                });
            }
            match found {
                None => {
                    return Switch::NotFound;
                },
                Some(Entry::Service(s)) => {
                    return Switch::Delivered { service: s, context: cur };
                },
                Some(Entry::Route(r)) => {
                    if r >= self.tables.len() {
                        proof {
                            assert(resolve(self@, r as int, all.skip(i + 1)) == Switch::NotFound || all.skip(i + 1).len() == 0);
                        }
                        if i + 1 == n {
                            assert(all.skip(i + 1).len() == 0);
                            return Switch::Dropped;
                        }
                        return Switch::NotFound;
                    }
                    cur = r;
                },
            }
            i = i + 1;
        }
        assert(all.skip(n as int).len() == 0);
        Switch::Dropped
    }
}

/// A service registered under a name of a route is where a path starting
/// with that name leads from that route, whatever the path goes on with.
pub proof fn lemma_switch_after_add(
    routes: Seq<Map<Seq<char>, Entry>>,
    route: int,
    name: Seq<char>,
    service: u64,
    rest: Seq<Seq<char>>,
)
    requires
        0 <= route < routes.len(),
    ensures
        resolve(
            routes.update(route, routes[route].insert(name, Entry::Service(service))),
            route,
            seq![name] + rest,
        ) == (Switch::Delivered { service, context: route as usize }),
{
    let t = routes.update(route, routes[route].insert(name, Entry::Service(service)));
    assert((seq![name] + rest)[0] == name);
    assert(t[route].get(name) == Some(Entry::Service(service)));
}

/// A name removed from a route leads nowhere: a path starting with it is
/// not found.
pub proof fn lemma_switch_after_remove(
    routes: Seq<Map<Seq<char>, Entry>>,
    route: int,
    name: Seq<char>,
    rest: Seq<Seq<char>>,
)
    requires
        0 <= route < routes.len(),
    ensures
        resolve(routes.update(route, routes[route].remove(name)), route, seq![name] + rest)
            == Switch::NotFound,
{
    let t = routes.update(route, routes[route].remove(name));
    assert((seq![name] + rest)[0] == name);
    assert(t[route].get(name) is None);
}

/// A path through a nested route: when the name `outer` of a route leads to
/// route `child`, and the name `inner` of `child` to a service, the path
/// `outer/inner` leads to that service, in the context of `child`.
pub proof fn lemma_switch_nested(
    routes: Seq<Map<Seq<char>, Entry>>,
    route: int,
    child: usize,
    outer: Seq<char>,
    inner: Seq<char>,
    service: u64,
)
    requires
        0 <= route < routes.len(),
        child < routes.len(),
        routes[route].get(outer) == Some(Entry::Route(child)),
        routes[child as int].get(inner) == Some(Entry::Service(service)),
    ensures
        resolve(routes, route, seq![outer, inner]) == (Switch::Delivered {
            service,
            context: child,
        }),
{
    assert(seq![outer, inner].drop_first() =~= seq![inner]);
    assert(resolve(routes, child as int, seq![inner]) == (Switch::Delivered {
        service,
        context: child,
    }));
}

/// Adding a service under a name that is already taken is refused: after one
/// `add_service_at`, the name is taken in that route.
pub proof fn lemma_add_takes_name(
    routes: Seq<Map<Seq<char>, Entry>>,
    route: int,
    name: Seq<char>,
    e: Entry,
)
    requires
        0 <= route < routes.len(),
    ensures
        routes.update(route, routes[route].insert(name, e))[route].contains_key(name),
{
}

/// Entering a route is the same at any depth: a path whose first name leads
/// to a route goes on from that route with the rest of the path.
pub proof fn lemma_switch_enters_route(
    routes: Seq<Map<Seq<char>, Entry>>,
    route: int,
    name: Seq<char>,
    child: usize,
    rest: Seq<Seq<char>>,
)
    requires
        0 <= route < routes.len(),
        routes[route].get(name) == Some(Entry::Route(child)),
    ensures
        resolve(routes, route, seq![name] + rest) == resolve(routes, child as int, rest),
{
    assert((seq![name] + rest)[0] == name);
    assert((seq![name] + rest).drop_first() =~= rest);
}

/// A service at the end of a chain of routes, however long: when route
/// `chain[j]` holds route `chain[j + 1]` under `names[j]`, and the last route
/// of the chain holds the service under `last`, the path of those names
/// followed by `last` leads to the service, in the context of the last route,
/// whatever comes after it.
pub proof fn lemma_switch_chain(
    routes: Seq<Map<Seq<char>, Entry>>,
    chain: Seq<usize>,
    names: Seq<Seq<char>>,
    last: Seq<char>,
    service: u64,
    rest: Seq<Seq<char>>,
)
    requires
        chain.len() == names.len() + 1,
        forall|j: int| 0 <= j < chain.len() ==> #[trigger] chain[j] < routes.len(),
        forall|j: int|
            0 <= j < names.len() ==> routes[chain[j] as int].get(#[trigger] names[j]) == Some(
                Entry::Route(chain[j + 1]),
            ),
        routes[chain[names.len() as int] as int].get(last) == Some(Entry::Service(service)),
    ensures
        resolve(routes, chain[0] as int, names + seq![last] + rest) == (Switch::Delivered {
            service,
            context: chain[names.len() as int],
        }),
    decreases names.len(),
{
    let path = names + seq![last] + rest;
    if names.len() == 0 {
        assert(path =~= seq![last] + rest);
        assert(path[0] == last);
    } else {
        let tail_chain = chain.drop_first();
        let tail_names = names.drop_first();
        assert forall|j: int| 0 <= j < tail_chain.len() implies #[trigger] tail_chain[j] < routes.len() by {
            assert(tail_chain[j] == chain[j + 1]);
        }
        assert forall|j: int| 0 <= j < tail_names.len() implies routes[tail_chain[j] as int].get(
            #[trigger] tail_names[j],
        ) == Some(Entry::Route(tail_chain[j + 1])) by {
            assert(tail_names[j] == names[j + 1]);
            assert(tail_chain[j] == chain[j + 1]);
            assert(tail_chain[j + 1] == chain[j + 2]);
        }
        assert(tail_chain[tail_names.len() as int] == chain[names.len() as int]);
        lemma_switch_chain(routes, tail_chain, tail_names, last, service, rest);
        assert(names[0] == names[0]);
        assert(chain[0] < routes.len());
        assert(path =~= seq![names[0]] + (tail_names + seq![last] + rest));
        lemma_switch_enters_route(routes, chain[0] as int, names[0], chain[1], tail_names + seq![last] + rest);
        assert(tail_chain[0] == chain[1]);
    }
}

} // verus!
