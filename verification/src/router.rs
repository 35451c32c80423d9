//! The routing table: a mapping from full path to handler, built once by
//! repeated `add_route` calls during startup, then only queried. Lookup
//! normalizes the inbound path the way the collector normalized the
//! registered ones, so registration-time and request-time paths agree.

use vstd::prelude::*;
use crate::paths::{strip_trailing_slash, without_trailing_slash};
use crate::response::ApiResponse;

verus! {

/// A zero-argument handler producing a fixed-shape response. The table is
/// built single-threaded and then shared read-only across request
/// threads, so implementations must be callable from any thread and from
/// several threads at once.
pub trait Handler: Sized {
    /// The message of the response this handler produces.
    spec fn response_message(&self) -> Seq<char>;

    /// The path the response reports.
    spec fn response_path(&self) -> Seq<char>;

    /// Produce the response.
    fn invoke(&self) -> (r: ApiResponse)
        ensures
            r.message@ == self.response_message(),
            r.path@ == self.response_path(),
    ;
}

/// The per-request failure: no handler is registered for the requested
/// path. It carries the path exactly as requested, before normalization.
#[derive(Debug)]
pub struct NotFound {
    pub path: String,
}

/// The registered paths of a list of routes, in registration order.
spec fn keys_of<H>(rs: Seq<(String, H)>) -> Seq<Seq<char>> {
    rs.map_values(|p: (String, H)| p.0@)
}

/// No path registered twice.
spec fn keys_unique<H>(rs: Seq<(String, H)>) -> bool {
    forall|i: int, j: int| 0 <= i < j < rs.len() ==> keys_of(rs)[i] != keys_of(rs)[j]
}

/// The mapping a list of routes denotes: later pairs overwrite earlier
/// ones with the same path.
spec fn map_of<H>(rs: Seq<(String, H)>) -> Map<Seq<char>, H>
    decreases rs.len(),
{
    if rs.len() == 0 {
        Map::empty()
    } else {
        map_of(rs.drop_last()).insert(rs.last().0@, rs.last().1)
    }
}

/// A path is in the mapping exactly when some pair registered it.
proof fn lemma_map_of_dom<H>(rs: Seq<(String, H)>, k: Seq<char>)
    ensures
        map_of(rs).dom().contains(k) <==> exists|i: int| 0 <= i < rs.len() && rs[i].0@ == k,
    decreases rs.len(),
{
    if rs.len() > 0 {
        lemma_map_of_dom(rs.drop_last(), k);
        if map_of(rs).dom().contains(k) {
            if rs.last().0@ != k {
                let i = choose|i: int| 0 <= i < rs.drop_last().len() && rs.drop_last()[i].0@ == k;
                assert(rs[i].0@ == k);
            } else {
                assert(rs[rs.len() - 1].0@ == k);
            }
        }
        if exists|i: int| 0 <= i < rs.len() && rs[i].0@ == k {
            let i = choose|i: int| 0 <= i < rs.len() && rs[i].0@ == k;
            if i < rs.len() - 1 {
                assert(rs.drop_last()[i].0@ == k);
            }
        }
    }
}

/// With unique paths, the mapping sends each registered path to the
/// handler of the one pair that registered it.
proof fn lemma_map_of_at<H>(rs: Seq<(String, H)>, i: int)
    requires
        keys_unique(rs),
        0 <= i < rs.len(),
    ensures
        map_of(rs).dom().contains(rs[i].0@),
        map_of(rs)[rs[i].0@] == rs[i].1,
    decreases rs.len(),
{
    if i == rs.len() - 1 {
    } else {
        assert(keys_of(rs)[i] != keys_of(rs)[rs.len() - 1]);
        assert(rs.drop_last()[i] == rs[i]);
        assert forall|a: int, b: int|
            0 <= a < b < rs.drop_last().len() implies keys_of(rs.drop_last())[a] != keys_of(
            rs.drop_last(),
        )[b] by {
            assert(rs.drop_last()[a] == rs[a]);
            assert(rs.drop_last()[b] == rs[b]);
            assert(keys_of(rs)[a] != keys_of(rs)[b]);
        }
        lemma_map_of_at(rs.drop_last(), i);
    }
}

/// Replacing the handler of the pair that registered a path is, at the
/// mapping level, an insertion for that path.
proof fn lemma_map_of_update<H>(rs: Seq<(String, H)>, i: int, p: String, h: H)
    requires
        keys_unique(rs),
        0 <= i < rs.len(),
        p@ == rs[i].0@,
    ensures
        map_of(rs.update(i, (p, h))) == map_of(rs).insert(p@, h),
    decreases rs.len(),
{
    let updated = rs.update(i, (p, h));
    if i == rs.len() - 1 {
        assert(updated.drop_last() =~= rs.drop_last());
        assert(map_of(updated) == map_of(rs.drop_last()).insert(p@, h));
        assert(map_of(rs.drop_last()).insert(p@, h) =~= map_of(rs).insert(p@, h));
    } else {
        assert(keys_of(rs)[i] != keys_of(rs)[rs.len() - 1]);
        assert(rs.drop_last()[i] == rs[i]);
        assert forall|a: int, b: int|
            0 <= a < b < rs.drop_last().len() implies keys_of(rs.drop_last())[a] != keys_of(
            rs.drop_last(),
        )[b] by {
            assert(rs.drop_last()[a] == rs[a]);
            assert(rs.drop_last()[b] == rs[b]);
            assert(keys_of(rs)[a] != keys_of(rs)[b]);
        }
        lemma_map_of_update(rs.drop_last(), i, p, h);
        assert(updated.drop_last() =~= rs.drop_last().update(i, (p, h)));
        assert(updated.last() == rs.last());
        assert(map_of(updated) == map_of(rs.drop_last()).insert(p@, h).insert(
            rs.last().0@,
            rs.last().1,
        ));
        assert(map_of(rs.drop_last()).insert(p@, h).insert(rs.last().0@, rs.last().1)
            =~= map_of(rs).insert(p@, h));
    }
}

/// The routing table. Invariant: at most one handler is reachable per
/// full path; adding a path that is already present replaces its handler
/// (last write wins), never stacks a second one.
pub struct Router<H> {
    routes: Vec<(String, H)>,
}

impl<H> Router<H> {
    /// The registered full paths, in first-registration order.
    pub closed spec fn route_keys(&self) -> Seq<Seq<char>> {
        keys_of(self.routes@)
    }

    /// Well-formed: no full path is registered twice.
    pub closed spec fn wf(&self) -> bool {
        keys_unique(self.routes@)
    }

    /// The table as a mapping from full path to handler.
    pub closed spec fn route_map(&self) -> Map<Seq<char>, H> {
        map_of(self.routes@)
    }

    /// The mapping's domain is exactly the set of listed paths.
    pub proof fn lemma_keys_are_dom(&self)
        ensures
            forall|k: Seq<char>| #[trigger]
                self.route_map().dom().contains(k) <==> self.route_keys().contains(k),
    {
        assert forall|k: Seq<char>| #[trigger]
            self.route_map().dom().contains(k) <==> self.route_keys().contains(k) by {
            lemma_map_of_dom(self.routes@, k);
            if exists|i: int| 0 <= i < self.routes@.len() && self.routes@[i].0@ == k {
                let i = choose|i: int| 0 <= i < self.routes@.len() && self.routes@[i].0@ == k;
                assert(self.route_keys()[i] == k);
            }
            if self.route_keys().contains(k) {
                let i = choose|i: int| 0 <= i < self.route_keys().len() && self.route_keys()[i]
                    == k;
                assert(self.routes@[i].0@ == k);
            }
        }
    }

    /// In a well-formed table a path appears in the listing at most once.
    pub proof fn lemma_listing_unique(&self)
        requires
            self.wf(),
        ensures
            forall|i: int, j: int|
                0 <= i < j < self.route_keys().len() ==> self.route_keys()[i]
                    != self.route_keys()[j],
    {
    }

    /// An empty table: nothing is registered.
    pub fn new() -> (r: Router<H>)
        ensures
            r.wf(),
            r.route_map() == Map::<Seq<char>, H>::empty(),
            r.route_keys() == Seq::<Seq<char>>::empty(),
    {
        let r = Router { routes: Vec::new() };
        proof {
            assert(r.route_keys() =~= Seq::<Seq<char>>::empty());
        }
        r
    }

    /// The position of the pair registered for `path`, if any.
    fn find_route_index(&self, path: &String) -> (r: Option<usize>)
        ensures
            match r {
                Option::Some(i) => i < self.routes@.len() && self.routes@[i as int].0@ == path@,
                Option::None => forall|i: int|
                    0 <= i < self.routes@.len() ==> self.routes@[i].0@ != path@,
            },
    {
        let n = self.routes.len();
        let mut i: usize = 0;
        while i < n
            invariant
                i <= n,
                n == self.routes@.len(),
                forall|j: int| 0 <= j < i ==> self.routes@[j].0@ != path@,
            decreases n - i,
        {
            if self.routes[i].0 == *path {
                return Some(i);
            }
            i = i + 1;
        }
        None
    }

    /// Insert or replace: after the call `path` maps to `handler`. The
    /// result reports a replacement — `true` means a prior handler for
    /// the same path was overwritten, which a caller may surface as a
    /// warning; registration itself never fails, and the path is not
    /// re-validated (validation happened in the collector).
    pub fn add_route(&mut self, path: String, handler: H) -> (overwrote: bool)
        requires
            old(self).wf(),
        ensures
            final(self).wf(),
            final(self).route_map() == old(self).route_map().insert(path@, handler),
            overwrote == old(self).route_map().dom().contains(path@),
            final(self).route_keys() == if old(self).route_map().dom().contains(path@) {
                old(self).route_keys()
            } else {
                old(self).route_keys().push(path@)
            },
    {
        proof {
            lemma_map_of_dom(self.routes@, path@);
        }
        match self.find_route_index(&path) {
            Option::Some(i) => {
                let ghost rs = self.routes@;
                proof {
                    lemma_map_of_update(rs, i as int, path, handler);
                }
                self.routes.remove(i);
                self.routes.insert(i, (path, handler));
                proof {
                    assert(self.routes@ =~= rs.update(i as int, (path, handler)));
                    assert(final(self).route_keys() =~= old(self).route_keys());
                }
                true
            },
            Option::None => {
                let ghost rs = self.routes@;
                self.routes.push((path, handler));
                proof {
                    assert(self.routes@.drop_last() =~= rs);
                    assert(final(self).route_keys() =~= old(self).route_keys().push(path@));
                    assert(final(self).wf()) by {
                        assert(forall|j: int|
                            0 <= j < rs.len() ==> keys_of(rs)[j] == final(self).route_keys()[j]);
                    }
                }
                false
            },
        }
    }

    /// All registered full paths, one element per route, in
    /// first-registration order.
    pub fn list_routes(&self) -> (r: Vec<String>)
        ensures
            r@.map_values(|s: String| s@) == self.route_keys(),
    {
        let n = self.routes.len();
        let mut r: Vec<String> = Vec::new();
        let mut i: usize = 0;
        while i < n
            invariant
                i <= n,
                n == self.routes@.len(),
                r@.len() == i,
                forall|j: int| 0 <= j < i ==> #[trigger] r@[j]@ == self.route_keys()[j],
            decreases n - i,
        {
            let elem = self.routes[i].0.clone();
            proof {
                assert(elem@ == self.route_keys()[i as int]);
            }
            r.push(elem);
            i = i + 1;
        }
        proof {
            assert forall|j: int| #![trigger r@[j]]
                0 <= j < r@.len() implies r@.map_values(|s: String| s@)[j]
                == self.route_keys()[j] by {
                assert(r@[j]@ == self.route_keys()[j]);
            }
            assert(r@.map_values(|s: String| s@) =~= self.route_keys());
        }
        r
    }
}

/// Last write wins: when the same path is registered twice in a row —
/// `r0` grew into `r1` and then into `r2` by one `add_route` for `path`
/// each, which is exactly what `add_route` ensures — the table ends up
/// holding the handler registered second alone, and the second
/// registration adds no entry beyond the first.
pub proof fn lemma_last_registration_wins<H>(
    r0: &Router<H>,
    r1: &Router<H>,
    r2: &Router<H>,
    path: Seq<char>,
    h1: H,
    h2: H,
)
    requires
        r1.route_map() == r0.route_map().insert(path, h1),
        r2.route_map() == r1.route_map().insert(path, h2),
    ensures
        r2.route_map()[path] == h2,
        r2.route_map().dom() == r1.route_map().dom(),
{
    assert(r2.route_map().dom() =~= r1.route_map().dom());
}

/// Trailing-slash invariance of dispatch: under any table, a request
/// for `path` with one `/` appended consults exactly the entry that a
/// request for `path` consults — `handle_request` reads the table only
/// through the stripped path. (A path already ending in `/` is left
/// out: stripping is single, so `/a//` and `/a/` resolve differently.)
pub proof fn lemma_request_trailing_slash_invariance<H>(r: &Router<H>, path: Seq<char>)
    requires
        path.len() == 0 || path[path.len() - 1] != '/',
    ensures
        strip_trailing_slash(path.push('/')) == strip_trailing_slash(path),
        r.route_map().dom().contains(strip_trailing_slash(path.push('/')))
            == r.route_map().dom().contains(strip_trailing_slash(path)),
        r.route_map().dom().contains(strip_trailing_slash(path)) ==> r.route_map()[
            strip_trailing_slash(path.push('/'))
        ] == r.route_map()[strip_trailing_slash(path)],
{
    crate::paths::lemma_strip_push_slash(path);
    crate::paths::lemma_strip_no_slash(path);
}

impl<H: Handler> Router<H> {
    /// Dispatch. The inbound path loses one trailing `/`, mirroring the
    /// collector's normalization, and the normalized path is looked up:
    /// on a hit the registered handler — exactly the one the mapping
    /// holds for that path — is invoked and its response returned; on a
    /// miss a `NotFound` carrying the path exactly as requested (before
    /// normalization) is returned, and no handler runs.
    pub fn handle_request(&self, path: &str) -> (r: Result<ApiResponse, NotFound>)
        requires
            self.wf(),
        ensures
            ({
                let norm = strip_trailing_slash(path@);
                match r {
                    Result::Ok(resp) => self.route_map().dom().contains(norm)
                        && resp.message@ == self.route_map()[norm].response_message()
                        && resp.path@ == self.route_map()[norm].response_path(),
                    Result::Err(e) => !self.route_map().dom().contains(norm) && e.path@ == path@,
                }
            }),
    {
        let norm = without_trailing_slash(path).to_owned();
        match self.find_route_index(&norm) {
            Option::Some(i) => {
                proof {
                    lemma_map_of_at(self.routes@, i as int);
                }
                Ok(self.routes[i].1.invoke())
            },
            Option::None => {
                proof {
                    lemma_map_of_dom(self.routes@, norm@);
                }
                Err(NotFound { path: path.to_owned() })
            },
        }
    }
}

} // verus!
