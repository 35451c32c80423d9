//! Turning a raw request text into a response text: the request path is
//! the second whitespace-separated token of the first request line; it
//! is dispatched against the routing table, and the outcome is framed as
//! an HTTP response whose JSON body is the handler's response on a hit,
//! or a "Route not found" report on a miss.

use vstd::prelude::*;
use vstd::string::StringSliceAdditionalSpecFns;
use vstd::utf8::encode_utf8;
use crate::paths::strip_trailing_slash;
use crate::response::{ApiResponse, json_view};
use crate::router::{Handler, Router};

verus! {

/// Whitespace inside a request line: a space or a horizontal tab.
pub open spec fn is_ws(c: char) -> bool {
    c == ' ' || c == '\t'
}

/// The position of the first non-whitespace character at or after `i`.
pub open spec fn skip_ws_from(s: Seq<char>, i: int) -> int
    recommends
        0 <= i <= s.len(),
    decreases s.len() - i,
{
    if i < 0 || i >= s.len() {
        i
    } else if is_ws(s[i]) {
        skip_ws_from(s, i + 1)
    } else {
        i
    }
}

/// The position of the first whitespace character at or after `i`.
pub open spec fn skip_token_from(s: Seq<char>, i: int) -> int
    recommends
        0 <= i <= s.len(),
    decreases s.len() - i,
{
    if i < 0 || i >= s.len() {
        i
    } else if is_ws(s[i]) {
        i
    } else {
        skip_token_from(s, i + 1)
    }
}

/// The position of the first `\n` at or after `i`, or the length when
/// there is none.
pub open spec fn line_end_from(s: Seq<char>, i: int) -> int
    recommends
        0 <= i <= s.len(),
    decreases s.len() - i,
{
    if i < 0 || i >= s.len() {
        i
    } else if s[i] == '\n' {
        i
    } else {
        line_end_from(s, i + 1)
    }
}

proof fn lemma_skip_ws_bounds(s: Seq<char>, i: int)
    requires
        0 <= i <= s.len(),
    ensures
        i <= skip_ws_from(s, i) <= s.len(),
    decreases s.len() - i,
{
    if i < s.len() && is_ws(s[i]) {
        lemma_skip_ws_bounds(s, i + 1);
    }
}

proof fn lemma_skip_token_bounds(s: Seq<char>, i: int)
    requires
        0 <= i <= s.len(),
    ensures
        i <= skip_token_from(s, i) <= s.len(),
    decreases s.len() - i,
{
    if i < s.len() && !is_ws(s[i]) {
        lemma_skip_token_bounds(s, i + 1);
    }
}

/// The second whitespace-separated token of a line — the path of a
/// request line `METHOD PATH VERSION` — or the empty string when the
/// line has fewer than two tokens.
pub open spec fn second_token(s: Seq<char>) -> Seq<char> {
    let t0 = skip_ws_from(s, 0);
    let e0 = skip_token_from(s, t0);
    let t1 = skip_ws_from(s, e0);
    let e1 = skip_token_from(s, t1);
    s.subrange(t1, e1)
}

/// The first line of a request text: the characters before the first
/// `\n` (all of them when there is none), less one trailing `\r`.
pub open spec fn first_line_of(s: Seq<char>) -> Seq<char> {
    let line = s.subrange(0, line_end_from(s, 0));
    if line.len() > 0 && line[line.len() - 1] == '\r' {
        line.drop_last()
    } else {
        line
    }
}

/// The request path carried by a raw request text: the second token of
/// its first line.
pub open spec fn request_path(s: Seq<char>) -> Seq<char> {
    second_token(first_line_of(s))
}

fn skip_ws(s: &str, from: usize) -> (r: usize)
    requires
        from <= s@.len(),
    ensures
        r == skip_ws_from(s@, from as int),
        from <= r <= s@.len(),
{
    proof {
        lemma_skip_ws_bounds(s@, from as int);
    }
    let n = s.unicode_len();
    let mut i: usize = from;
    while i < n
        invariant
            from <= i <= n,
            n == s@.len(),
            skip_ws_from(s@, from as int) == skip_ws_from(s@, i as int),
        decreases n - i,
    {
        let c = s.get_char(i);
        if !(c == ' ' || c == '\t') {
            return i;
        }
        i = i + 1;
    }
    i
}

fn skip_token(s: &str, from: usize) -> (r: usize)
    requires
        from <= s@.len(),
    ensures
        r == skip_token_from(s@, from as int),
        from <= r <= s@.len(),
{
    proof {
        lemma_skip_token_bounds(s@, from as int);
    }
    let n = s.unicode_len();
    let mut i: usize = from;
    while i < n
        invariant
            from <= i <= n,
            n == s@.len(),
            skip_token_from(s@, from as int) == skip_token_from(s@, i as int),
        decreases n - i,
    {
        let c = s.get_char(i);
        if c == ' ' || c == '\t' {
            return i;
        }
        i = i + 1;
    }
    i
}

fn find_newline(s: &str) -> (r: usize)
    ensures
        r == line_end_from(s@, 0),
        r <= s@.len(),
{
    let n = s.unicode_len();
    let mut i: usize = 0;
    while i < n
        invariant
            i <= n,
            n == s@.len(),
            line_end_from(s@, 0) == line_end_from(s@, i as int),
        decreases n - i,
    {
        if s.get_char(i) == '\n' {
            return i;
        }
        i = i + 1;
    }
    i
}

/// The request path of a raw request text, exactly as requested: the
/// second whitespace-separated token of the first line, or the empty
/// string when that line has fewer than two tokens.
pub fn extract_request_path(s: &str) -> (r: String)
    ensures
        r@ == request_path(s@),
{
    let nl = find_newline(s);
    let full_line = s.substring_char(0, nl);
    let ll = full_line.unicode_len();
    let line: &str = if ll > 0 && full_line.get_char(ll - 1) == '\r' {
        full_line.substring_char(0, ll - 1)
    } else {
        full_line
    };
    proof {
        assert(line@ =~= first_line_of(s@));
    }
    let t0 = skip_ws(line, 0);
    let e0 = skip_token(line, t0);
    let t1 = skip_ws(line, e0);
    let e1 = skip_token(line, t1);
    let tok = line.substring_char(t1, e1);
    proof {
        assert(tok@ == second_token(line@));
    }
    tok.to_owned()
}

/// The decimal digit character for `d`, a value below ten.
pub open spec fn digit_char(d: nat) -> char {
    if d == 0 {
        '0'
    } else if d == 1 {
        '1'
    } else if d == 2 {
        '2'
    } else if d == 3 {
        '3'
    } else if d == 4 {
        '4'
    } else if d == 5 {
        '5'
    } else if d == 6 {
        '6'
    } else if d == 7 {
        '7'
    } else if d == 8 {
        '8'
    } else {
        '9'
    }
}

/// The decimal numeral of `n`, most significant digit first, without
/// leading zeros (the numeral of zero is `0`).
pub open spec fn dec_of(n: nat) -> Seq<char>
    decreases n,
{
    if n < 10 {
        seq![digit_char(n)]
    } else {
        dec_of(n / 10).push(digit_char(n % 10))
    }
}

fn digit_str(d: usize) -> (r: &'static str)
    requires
        d < 10,
    ensures
        r@ == seq![digit_char(d as nat)],
{
    let r: &'static str = if d == 0 {
        "0"
    } else if d == 1 {
        "1"
    } else if d == 2 {
        "2"
    } else if d == 3 {
        "3"
    } else if d == 4 {
        "4"
    } else if d == 5 {
        "5"
    } else if d == 6 {
        "6"
    } else if d == 7 {
        "7"
    } else if d == 8 {
        "8"
    } else {
        "9"
    };
    proof {
        reveal_strlit("0");
        reveal_strlit("1");
        reveal_strlit("2");
        reveal_strlit("3");
        reveal_strlit("4");
        reveal_strlit("5");
        reveal_strlit("6");
        reveal_strlit("7");
        reveal_strlit("8");
        reveal_strlit("9");
        assert(r@ =~= seq![digit_char(d as nat)]);
    }
    r
}

/// The decimal text of `n`.
pub fn usize_to_dec(n: usize) -> (r: String)
    ensures
        r@ == dec_of(n as nat),
    decreases n,
{
    if n < 10 {
        digit_str(n).to_owned()
    } else {
        let q = usize_to_dec(n / 10);
        let r = q.concat(digit_str(n % 10));
        proof {
            assert(r@ =~= dec_of(n as nat));
        }
        r
    }
}

/// The text of a successful dispatch: a 200 status line, JSON content
/// headers carrying the body's byte length, and the body.
pub open spec fn ok_response_view(body: Seq<char>) -> Seq<char> {
    "HTTP/1.1 200 OK\r\nContent-Type: application/json\r\nContent-Length: "@ + dec_of(
        encode_utf8(body).len(),
    ) + "\r\n\r\n"@ + body
}

/// The text of a failed dispatch: as the successful one, under a 404
/// status line.
pub open spec fn not_found_response_view(body: Seq<char>) -> Seq<char> {
    "HTTP/1.1 404 Not Found\r\nContent-Type: application/json\r\nContent-Length: "@ + dec_of(
        encode_utf8(body).len(),
    ) + "\r\n\r\n"@ + body
}

/// `head`, then the byte length of `body` in decimal, then a blank line,
/// then `body`.
fn framed_response(head: &str, body: &str) -> (r: String)
    ensures
        r@ == head@ + dec_of(encode_utf8(body@).len()) + "\r\n\r\n"@ + body@,
{
    let blen = body.as_bytes().len();
    proof {
        assert(body.spec_bytes() == encode_utf8(body@));
        assert(blen as nat == encode_utf8(body@).len());
    }
    let mut r = head.to_owned();
    let dec = usize_to_dec(blen);
    r.append(dec.as_str());
    r.append("\r\n\r\n");
    r.append(body);
    proof {
        assert(r@ =~= head@ + dec_of(encode_utf8(body@).len()) + "\r\n\r\n"@ + body@);
    }
    r
}

/// The response text owed to a raw request against the table `rm`: the
/// request path, less one trailing `/`, is looked up; a hit yields a 200
/// response whose body is the registered handler's response as JSON, a
/// miss a 404 response whose body reports `Route not found` and the path
/// exactly as requested.
pub open spec fn spec_process_request<H: Handler>(rm: Map<Seq<char>, H>, req: Seq<char>) -> Seq<
    char,
> {
    let path = request_path(req);
    let norm = strip_trailing_slash(path);
    if rm.dom().contains(norm) {
        ok_response_view(json_view(rm[norm].response_message(), rm[norm].response_path()))
    } else {
        not_found_response_view(json_view("Route not found"@, path))
    }
}

/// One whole request handled: the path is extracted from the request
/// text, dispatched, and the outcome framed as the response text that
/// `spec_process_request` states.
pub fn process_request<H: Handler>(request: &str, router: &Router<H>) -> (r: String)
    requires
        router.wf(),
    ensures
        r@ == spec_process_request(router.route_map(), request@),
{
    let path = extract_request_path(request);
    match router.handle_request(path.as_str()) {
        Ok(resp) => {
            let body = resp.to_json();
            framed_response(
                "HTTP/1.1 200 OK\r\nContent-Type: application/json\r\nContent-Length: ",
                body.as_str(),
            )
        },
        Err(e) => {
            let not_found = ApiResponse {
                message: String::from_str("Route not found"),
                path: e.path,
            };
            let body = not_found.to_json();
            framed_response(
                "HTTP/1.1 404 Not Found\r\nContent-Type: application/json\r\nContent-Length: ",
                body.as_str(),
            )
        },
    }
}

} // verus!
