//! Startup wiring: the declared example surface is compiled once and
//! its entries are fed, in order, into a fresh routing table. This runs
//! single-threaded before the table is shared; afterwards the table is
//! only queried.

use vstd::prelude::*;
use crate::collector::{
    compile, entry_pair, OperationDeclaration, RouteAnnotation, RouteEntry,
};
use crate::response::ApiResponse;
use crate::router::{Handler, Router};

verus! {

/// A handler that answers with a fixed message for a fixed path, cloned
/// into a fresh response at each call. A value owns its strings and
/// shares nothing mutable, so it is safe to invoke from any thread.
pub struct StaticHandler {
    pub message: String,
    pub path: String,
}

impl Handler for StaticHandler {
    open spec fn response_message(&self) -> Seq<char> {
        self.message@
    }

    open spec fn response_path(&self) -> Seq<char> {
        self.path@
    }

    fn invoke(&self) -> (r: ApiResponse) {
        ApiResponse { message: self.message.clone(), path: self.path.clone() }
    }
}

/// The mapping after a list of path–handler pairs is added in order:
/// a later pair with the same path overwrites an earlier one.
pub open spec fn map_after_adds<H>(m: Map<Seq<char>, H>, entries: Seq<(Seq<char>, H)>) -> Map<
    Seq<char>,
    H,
>
    decreases entries.len(),
{
    if entries.len() == 0 {
        m
    } else {
        map_after_adds(m.insert(entries[0].0, entries[0].1), entries.drop_first())
    }
}

/// Every entry added to the table, in order, by one `add_route` call
/// each; a duplicated path resolves to the last entry that carries it.
pub fn add_entries<H>(router: &mut Router<H>, entries: Vec<RouteEntry<H>>)
    requires
        old(router).wf(),
    ensures
        final(router).wf(),
        final(router).route_map() == map_after_adds(
            old(router).route_map(),
            entries@.map_values(|e: RouteEntry<H>| entry_pair(e)),
        ),
{
    let ghost target = map_after_adds(
        router.route_map(),
        entries@.map_values(|e: RouteEntry<H>| entry_pair(e)),
    );
    let mut es = entries;
    while es.len() > 0
        invariant
            router.wf(),
            map_after_adds(
                router.route_map(),
                es@.map_values(|e: RouteEntry<H>| entry_pair(e)),
            ) == target,
        decreases es.len(),
    {
        let ghost before = es@;
        let e = es.remove(0);
        proof {
            assert(es@ =~= before.drop_first());
            assert(es@.map_values(|e: RouteEntry<H>| entry_pair(e)) =~= before.map_values(
                |e: RouteEntry<H>| entry_pair(e),
            ).drop_first());
        }
        let RouteEntry { full_path, handler } = e;
        router.add_route(full_path, handler);
    }
    proof {
        assert(es@.map_values(|e: RouteEntry<H>| entry_pair(e)).len() == 0);
    }
}

/// The declared example surface compiled and loaded: under base `/api`,
/// an `example` operation tagged with suffix `/example` and an `index`
/// operation tagged with no suffix, so the table serves exactly
/// `/api/example` and `/api`.
pub fn setup_router() -> (r: Router<StaticHandler>)
    ensures
        r.wf(),
        r.route_map().dom() =~= set!["/api/example"@, "/api"@],
        r.route_map()["/api/example"@].response_message() == "Hello from example"@,
        r.route_map()["/api/example"@].response_path() == "/api/example"@,
        r.route_map()["/api"@].response_message() == "Hello from index"@,
        r.route_map()["/api"@].response_path() == "/api"@,
{
    let mut declarations: Vec<OperationDeclaration<StaticHandler>> = Vec::new();
    declarations.push(
        OperationDeclaration {
            name: String::from_str("example"),
            annotation: Some(RouteAnnotation { suffix: Some(String::from_str("/example")) }),
            handler: StaticHandler {
                message: String::from_str("Hello from example"),
                path: String::from_str("/api/example"),
            },
        },
    );
    declarations.push(
        OperationDeclaration {
            name: String::from_str("index"),
            annotation: Some(RouteAnnotation { suffix: None }),
            handler: StaticHandler {
                message: String::from_str("Hello from index"),
                path: String::from_str("/api"),
            },
        },
    );
    let ghost gdecls = declarations@;
    let compiled = compile("/api", declarations);
    proof {
        reveal_strlit("/api");
    }
    let mut router = Router::<StaticHandler>::new();
    match compiled {
        Ok(entries) => {
            proof {
                reveal_strlit("/example");
                reveal_strlit("/api/example");
                let h0 = gdecls[0].handler;
                let h1 = gdecls[1].handler;
                let base = "/api"@;
                let d1 = gdecls.drop_first();
                let d2 = d1.drop_first();
                assert(crate::paths::strip_trailing_slash(base) == base);
                assert(crate::paths::normalize_suffix("/example"@) == "/example"@);
                assert(d2 =~= Seq::<OperationDeclaration<StaticHandler>>::empty());
                assert(crate::collector::compiled_entries(base, d2) =~= Seq::<
                    (Seq<char>, StaticHandler),
                >::empty());
                assert(d1[0] == gdecls[1]);
                assert(crate::collector::compiled_entries(base, d1) =~= seq![
                    (base + Seq::<char>::empty(), h1),
                ]);
                assert(crate::collector::compiled_entries(base, gdecls) =~= seq![
                    (base + "/example"@, h0),
                    (base + Seq::<char>::empty(), h1),
                ]);
                assert(base + "/example"@ =~= "/api/example"@);
                assert(base + Seq::<char>::empty() =~= base);
                assert(entries@.map_values(|e: RouteEntry<StaticHandler>| entry_pair(e)) =~= seq![
                    ("/api/example"@, h0),
                    ("/api"@, h1),
                ]);
            }
            add_entries(&mut router, entries);
            proof {
                let h0 = gdecls[0].handler;
                let h1 = gdecls[1].handler;
                let pairs = seq![("/api/example"@, h0), ("/api"@, h1)];
                let m0 = Map::<Seq<char>, StaticHandler>::empty();
                let m1 = m0.insert("/api/example"@, h0);
                let m2 = m1.insert("/api"@, h1);
                assert(pairs.drop_first() =~= seq![("/api"@, h1)]);
                assert(pairs.drop_first().drop_first() =~= Seq::<
                    (Seq<char>, StaticHandler),
                >::empty());
                assert(map_after_adds(m1, pairs.drop_first()) == map_after_adds(
                    m2,
                    pairs.drop_first().drop_first(),
                ));
                assert(map_after_adds(m0, pairs) == m2);
                assert("/api/example"@.len() != "/api"@.len());
                assert(router.route_map() == m2);
                assert(router.route_map().dom() =~= set!["/api/example"@, "/api"@]);
            }
            router
        },
        Err(_) => {
            proof {
                assert(false);
            }
            router
        },
    }
}

} // verus!
