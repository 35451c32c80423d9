//! Path normalization shared by the route collector and the router.
//!
//! A route path is a sequence of characters. A valid base path begins with
//! `/`; before use, one trailing `/` is removed, so `/api/` and `/api` name
//! the same base. A suffix is given a leading `/` when it lacks one, then
//! loses one trailing `/`, so the empty suffix stays empty and `/x/`
//! becomes `/x`.

use vstd::prelude::*;

verus! {

/// A path can begin a route only when its first character is `/`.
pub open spec fn starts_with_slash(s: Seq<char>) -> bool {
    s.len() > 0 && s[0] == '/'
}

/// One trailing `/` removed, if the string ends with one.
pub open spec fn strip_trailing_slash(s: Seq<char>) -> Seq<char> {
    if s.len() > 0 && s[s.len() - 1] == '/' {
        s.drop_last()
    } else {
        s
    }
}

/// A `/` put in front, unless the string already begins with one.
pub open spec fn ensure_leading_slash(s: Seq<char>) -> Seq<char> {
    if starts_with_slash(s) {
        s
    } else {
        seq!['/'] + s
    }
}

/// How a present suffix argument is normalized: a leading `/` is
/// guaranteed, then one trailing `/` is removed.
pub open spec fn normalize_suffix(s: Seq<char>) -> Seq<char> {
    strip_trailing_slash(ensure_leading_slash(s))
}

/// Adding a trailing `/` to a string that has none changes nothing
/// once the trailing `/` is stripped again.
pub proof fn lemma_strip_push_slash(s: Seq<char>)
    ensures
        strip_trailing_slash(s.push('/')) == s,
{
    assert(strip_trailing_slash(s.push('/')) =~= s);
}

/// A string without a trailing `/` is unchanged by the stripping.
pub proof fn lemma_strip_no_slash(s: Seq<char>)
    requires
        s.len() == 0 || s[s.len() - 1] != '/',
    ensures
        strip_trailing_slash(s) == s,
{
}

pub fn has_leading_slash(s: &str) -> (r: bool)
    ensures
        r == starts_with_slash(s@),
{
    let n = s.unicode_len();
    if n == 0 {
        false
    } else {
        s.get_char(0) == '/'
    }
}

pub fn without_trailing_slash(s: &str) -> (r: &str)
    ensures
        r@ == strip_trailing_slash(s@),
{
    let n = s.unicode_len();
    if n > 0 && s.get_char(n - 1) == '/' {
        let r = s.substring_char(0, n - 1);
        proof {
            assert(r@ =~= strip_trailing_slash(s@));
        }
        r
    } else {
        s
    }
}

pub fn with_leading_slash(s: &str) -> (r: String)
    ensures
        r@ == ensure_leading_slash(s@),
{
    if has_leading_slash(s) {
        s.to_owned()
    } else {
        let r = String::from_str("/").concat(s);
        proof {
            reveal_strlit("/");
            assert(r@ =~= ensure_leading_slash(s@));
        }
        r
    }
}

/// A present suffix argument, normalized: `x` and `/x/` both give `/x`,
/// and the empty suffix stays empty.
pub fn normalized_suffix(s: &str) -> (r: String)
    ensures
        r@ == normalize_suffix(s@),
{
    let led = with_leading_slash(s);
    let r = without_trailing_slash(led.as_str()).to_owned();
    r
}

} // verus!
