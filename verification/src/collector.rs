//! The route collector: a one-time pass that turns a base path and an
//! ordered list of operation declarations into normalized, fully
//! qualified route entries, or fails with the single fatal validation
//! error, an invalid base path.

use vstd::prelude::*;
use crate::paths::{
    starts_with_slash, strip_trailing_slash, normalize_suffix, has_leading_slash,
    without_trailing_slash, normalized_suffix, lemma_strip_push_slash, lemma_strip_no_slash,
};

verus! {

/// The one fatal condition of compilation: a base path that does not
/// begin with `/`. Nothing else in the collector can fail.
#[derive(Debug, PartialEq, Eq, Structural)]
pub enum ValidationError {
    InvalidBasePath,
}

/// The routing annotation on one operation declaration. A declaration
/// that carries one takes part in routing; the optional argument is its
/// path suffix, and an absent argument means "exactly the base path".
pub struct RouteAnnotation {
    pub suffix: Option<String>,
}

/// One named, zero-argument operation in a group that shares a base
/// path. Only declarations that carry an annotation are registered;
/// the rest are skipped without error.
pub struct OperationDeclaration<H> {
    pub name: String,
    pub annotation: Option<RouteAnnotation>,
    pub handler: H,
}

/// A resolved route: a fully qualified path paired with the handler
/// captured from its declaration.
pub struct RouteEntry<H> {
    pub full_path: String,
    pub handler: H,
}

/// The normalized suffix contributed by a present annotation: empty when
/// the annotation carries no argument, else the argument with a leading
/// `/` guaranteed and one trailing `/` removed.
pub open spec fn annotation_suffix(a: RouteAnnotation) -> Seq<char> {
    match a.suffix {
        Option::None => Seq::<char>::empty(),
        Option::Some(s) => normalize_suffix(s@),
    }
}

/// The full path of one tagged declaration: the normalized base followed
/// by the normalized suffix, which is the base itself when the suffix is
/// empty.
pub open spec fn full_path_of(base: Seq<char>, a: RouteAnnotation) -> Seq<char> {
    base + annotation_suffix(a)
}

/// The pair a route entry denotes: its path's characters and its handler.
pub open spec fn entry_pair<H>(e: RouteEntry<H>) -> (Seq<char>, H) {
    (e.full_path@, e.handler)
}

/// The entries produced from `decls` under the normalized base `base`,
/// in declaration order: one per tagged declaration, none for an
/// untagged one.
pub open spec fn compiled_entries<H>(base: Seq<char>, decls: Seq<OperationDeclaration<H>>) -> Seq<
    (Seq<char>, H),
>
    decreases decls.len(),
{
    if decls.len() == 0 {
        Seq::empty()
    } else {
        let rest = compiled_entries(base, decls.drop_first());
        match decls[0].annotation {
            Option::None => rest,
            Option::Some(a) => seq![(full_path_of(base, a), decls[0].handler)] + rest,
        }
    }
}

/// What compilation yields: nothing when the base path is invalid, else
/// the entries under the base with one trailing `/` removed.
pub open spec fn spec_compile<H>(base: Seq<char>, decls: Seq<OperationDeclaration<H>>) -> Option<
    Seq<(Seq<char>, H)>,
> {
    if starts_with_slash(base) {
        Option::Some(compiled_entries(strip_trailing_slash(base), decls))
    } else {
        Option::None
    }
}

/// The route collector. A base path that does not begin with `/` is
/// rejected with `InvalidBasePath` and no entries are produced. Otherwise
/// the base loses one trailing `/`, and each declaration, in input order,
/// yields one entry when tagged (full path = normalized base + normalized
/// suffix) and nothing when untagged. Duplicate full paths are permitted
/// here; their resolution is the routing table's, where the last one
/// added wins.
pub fn compile<H>(base_path: &str, declarations: Vec<OperationDeclaration<H>>) -> (r: Result<
    Vec<RouteEntry<H>>,
    ValidationError,
>)
    ensures
        r is Err <==> !starts_with_slash(base_path@),
        r is Err ==> r == Result::<Vec<RouteEntry<H>>, ValidationError>::Err(
            ValidationError::InvalidBasePath,
        ),
        r matches Ok(entries) ==> Option::Some(
            entries@.map_values(|e: RouteEntry<H>| entry_pair(e)),
        ) == spec_compile(base_path@, declarations@),
{
    if !has_leading_slash(base_path) {
        return Err(ValidationError::InvalidBasePath);
    }
    let base = without_trailing_slash(base_path);
    let ghost orig = declarations@;
    let mut decls = declarations;
    let mut entries: Vec<RouteEntry<H>> = Vec::new();
    while decls.len() > 0
        invariant
            base@ == strip_trailing_slash(base_path@),
            entries@.map_values(|e: RouteEntry<H>| entry_pair(e)) + compiled_entries(
                base@,
                decls@,
            ) == compiled_entries(base@, orig),
        decreases decls.len(),
    {
        let ghost before = decls@;
        let d = decls.remove(0);
        proof {
            assert(decls@ =~= before.drop_first());
        }
        let OperationDeclaration { annotation, handler, .. } = d;
        match annotation {
            Option::None => {
                proof {
                    assert(entries@.map_values(|e: RouteEntry<H>| entry_pair(e))
                        + compiled_entries(base@, decls@) =~= compiled_entries(base@, orig));
                }
            },
            Option::Some(a) => {
                let ghost ga = a;
                let suffix: String = match a.suffix {
                    Option::None => String::new(),
                    Option::Some(s) => normalized_suffix(s.as_str()),
                };
                proof {
                    assert(suffix@ == annotation_suffix(ga));
                }
                let full = base.to_owned().concat(suffix.as_str());
                let entry = RouteEntry { full_path: full, handler };
                proof {
                    assert(entry_pair(entry) == (full_path_of(base@, ga), d.handler));
                }
                entries.push(entry);
                proof {
                    assert(entries@.map_values(|e: RouteEntry<H>| entry_pair(e))
                        + compiled_entries(base@, decls@) =~= compiled_entries(base@, orig));
                }
            },
        }
    }
    proof {
        assert(entries@.map_values(|e: RouteEntry<H>| entry_pair(e)) =~= compiled_entries(
            base@,
            orig,
        ));
    }
    Ok(entries)
}

/// Trailing-slash invariance of the base path: a base with one trailing
/// `/` added compiles to exactly the same result as the base itself,
/// whatever the declarations. (A base that already ends with `/`, or the
/// empty base, is left out: `/a//` and `/a/` name different bases under
/// single stripping, and `/` is valid while the empty base is not.)
pub proof fn lemma_base_trailing_slash_invariance<H>(
    base: Seq<char>,
    decls: Seq<OperationDeclaration<H>>,
)
    requires
        base.len() > 0,
        base[base.len() - 1] != '/',
    ensures
        spec_compile(base.push('/'), decls) == spec_compile(base, decls),
{
    lemma_strip_push_slash(base);
    lemma_strip_no_slash(base);
    assert(base.push('/')[0] == base[0]);
    assert(starts_with_slash(base.push('/')) == starts_with_slash(base));
}

/// An untagged declaration never contributes a route: removing it from
/// the input list leaves the compiled entries exactly unchanged.
pub proof fn lemma_untagged_produces_nothing<H>(
    base: Seq<char>,
    decls: Seq<OperationDeclaration<H>>,
    i: int,
)
    requires
        0 <= i < decls.len(),
        decls[i].annotation is None,
    ensures
        compiled_entries(base, decls) == compiled_entries(base, decls.remove(i)),
    decreases decls.len(),
{
    if i == 0 {
        assert(decls.remove(0) =~= decls.drop_first());
    } else {
        lemma_untagged_produces_nothing(base, decls.drop_first(), i - 1);
        assert(decls.drop_first()[i - 1] == decls[i]);
        assert(decls.remove(i).drop_first() =~= decls.drop_first().remove(i - 1));
        assert(decls.remove(i)[0] == decls[0]);
        assert(decls.remove(i).len() > 0);
    }
}

} // verus!
