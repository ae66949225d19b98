//! The dashboard's HTTP handling: reading the request line, routing, query
//! parameters and framing of responses.
use vstd::prelude::*;
use vstd::utf8::encode_utf8;
use crate::text::{
    chars_vec,
    decimal,
    decode_utf8_lossy,
    push_char,
    push_decimal,
    push_str,
    str_eq,
    to_string,
    utf8_len,
    utf8_lossy,
};
use crate::url::{url_decode, url_decode_spec};

verus! {

/// Whether `c` is white space in Unicode's sense (std's `char::is_whitespace`).
pub open spec fn is_ws(c: char) -> bool {
    let v = c as u32;
    (0x9 <= v && v <= 0xD) || v == 0x20 || v == 0x85 || v == 0xA0 || v == 0x1680 || (0x2000 <= v
        && v <= 0x200A) || v == 0x2028 || v == 0x2029 || v == 0x202F || v == 0x205F || v == 0x3000
}

fn is_ws_exec(c: char) -> (r: bool)
    ensures
        r == is_ws(c),
{
    let v = c as u32;
    (0x9 <= v && v <= 0xD) || v == 0x20 || v == 0x85 || v == 0xA0 || v == 0x1680 || (0x2000 <= v
        && v <= 0x200A) || v == 0x2028 || v == 0x2029 || v == 0x202F || v == 0x205F || v == 0x3000
}

/// The number of characters before the first `c` in `s` (all of them when there is none).
pub open spec fn seg_len(s: Seq<char>, c: char) -> nat
    decreases s.len(),
{
    if s.len() == 0 || s[0] == c {
        0
    } else {
        1 + seg_len(s.skip(1), c)
    }
}

/// The first line of a text: up to the first line feed, without a carriage return
/// just before it; the whole text when it has no line feed.
pub open spec fn first_line(s: Seq<char>) -> Seq<char> {
    let n = seg_len(s, '\n');
    if n < s.len() && n > 0 && s[n - 1] == '\r' {
        s.take(n - 1)
    } else {
        s.take(n as int)
    }
}

/// `s` without its leading white space.
pub open spec fn skip_ws(s: Seq<char>) -> Seq<char>
    decreases s.len(),
{
    if s.len() > 0 && is_ws(s[0]) {
        skip_ws(s.skip(1))
    } else {
        s
    }
}

/// The number of leading characters of `s` that are not white space.
pub open spec fn word_len(s: Seq<char>) -> nat
    decreases s.len(),
{
    if s.len() == 0 || is_ws(s[0]) {
        0
    } else {
        1 + word_len(s.skip(1))
    }
}

/// The first white-space separated word of `s` (empty when there is none).
pub open spec fn first_word(s: Seq<char>) -> Seq<char> {
    let t = skip_ws(s);
    t.take(word_len(t) as int)
}

/// What follows the first word of `s`.
pub open spec fn after_first_word(s: Seq<char>) -> Seq<char> {
    let t = skip_ws(s);
    t.skip(word_len(t) as int)
}

/// The method and target of a request: the first two words of its first line,
/// when there are two.
pub open spec fn request_parts(raw: Seq<char>) -> Option<(Seq<char>, Seq<char>)> {
    let line = first_line(raw);
    let method = first_word(line);
    let target = first_word(after_first_word(line));
    if method.len() == 0 || target.len() == 0 {
        None
    } else {
        Some((method, target))
    }
}

/// A parsed request: its method, and its target split at the first `?` into the
/// path and the query.
pub struct Request {
    pub method: String,
    pub path: String,
    pub query: String,
}

fn copy_range(cs: &Vec<char>, k: usize, e: usize) -> (out: String)
    requires
        k <= e <= cs@.len(),
    ensures
        out@ == cs@.subrange(k as int, e as int),
{
    let mut out = String::new();
    let mut m: usize = k;
    while m < e
        invariant
            k <= m <= e <= cs@.len(),
            out@ == cs@.subrange(k as int, m as int),
        decreases e - m,
    {
        push_char(&mut out, cs[m]);
        proof {
            assert(cs@.subrange(k as int, m + 1) == cs@.subrange(k as int, m as int).push(
                cs@[m as int],
            ));
        }
        m = m + 1;
    }
    out
}

/// The end of the segment of `cs[i..e]` that stops before the first `c`.
fn seg_end(cs: &Vec<char>, i: usize, e: usize, c: char) -> (k: usize)
    requires
        i <= e <= cs@.len(),
    ensures
        i <= k <= e,
        seg_len(cs@.subrange(i as int, e as int), c) == k - i,
{
    let mut k = i;
    while k < e && cs[k] != c
        invariant
            i <= k <= e <= cs@.len(),
            seg_len(cs@.subrange(i as int, e as int), c) == (k - i) + seg_len(
                cs@.subrange(k as int, e as int),
                c,
            ),
        decreases e - k,
    {
        proof {
            assert(cs@.subrange(k as int, e as int).skip(1) == cs@.subrange(k + 1, e as int));
        }
        k = k + 1;
    }
    k
}

fn skip_ws_from(cs: &Vec<char>, i: usize, e: usize) -> (j: usize)
    requires
        i <= e <= cs@.len(),
    ensures
        i <= j <= e,
        skip_ws(cs@.subrange(i as int, e as int)) == cs@.subrange(j as int, e as int),
{
    let mut j = i;
    while j < e && is_ws_exec(cs[j])
        invariant
            i <= j <= e <= cs@.len(),
            skip_ws(cs@.subrange(i as int, e as int)) == skip_ws(cs@.subrange(j as int, e as int)),
        decreases e - j,
    {
        proof {
            assert(cs@.subrange(j as int, e as int).skip(1) == cs@.subrange(j + 1, e as int));
        }
        j = j + 1;
    }
    j
}

fn word_end(cs: &Vec<char>, j: usize, e: usize) -> (k: usize)
    requires
        j <= e <= cs@.len(),
    ensures
        j <= k <= e,
        word_len(cs@.subrange(j as int, e as int)) == k - j,
{
    let mut k = j;
    while k < e && !is_ws_exec(cs[k])
        invariant
            j <= k <= e <= cs@.len(),
            word_len(cs@.subrange(j as int, e as int)) == (k - j) + word_len(
                cs@.subrange(k as int, e as int),
            ),
        decreases e - k,
    {
        proof {
            assert(cs@.subrange(k as int, e as int).skip(1) == cs@.subrange(k + 1, e as int));
        }
        k = k + 1;
    }
    k
}

/// The request that a text carries; `None` when its first line has fewer than two words.
pub open spec fn request_spec(raw: Seq<char>) -> Option<(Seq<char>, Seq<char>, Seq<char>)> {
    match request_parts(raw) {
        None => None,
        Some((method, target)) => {
            let q = seg_len(target, '?');
            Some(
                (
                    method,
                    target.take(q as int),
                    if q < target.len() {
                        target.skip(q + 1int)
                    } else {
                        seq![]
                    },
                ),
            )
        },
    }
}

/// Reads the method, path and query of a request from the bytes received, decoded
/// as UTF-8 (invalid bytes replaced).
pub fn parse_request(raw: &[u8]) -> (r: Option<Request>)
    ensures
        match request_spec(utf8_lossy(raw@)) {
            None => r is None,
            Some((m, p, q)) => r matches Some(req) && req.method@ == m && req.path@ == p
                && req.query@ == q,
        },
{
    let text = decode_utf8_lossy(raw);
    parse_request_text(text.as_str())
}

/// Reads the method, path and query of a request from its text.
pub fn parse_request_text(text: &str) -> (r: Option<Request>)
    ensures
        match request_spec(text@) {
            None => r is None,
            Some((m, p, q)) => r matches Some(req) && req.method@ == m && req.path@ == p
                && req.query@ == q,
        },
{
    let cs = chars_vec(text);
    let ghost s = cs@;
    let n = cs.len();
    proof {
        assert(s.subrange(0, n as int) == s);
    }
    let nl = seg_end(&cs, 0, n, '\n');
    let line_end = if nl < n && nl > 0 && cs[nl - 1] == '\r' {
        nl - 1
    } else {
        nl
    };
    proof {
        assert(first_line(s) == s.subrange(0, line_end as int));
    }
    let ghost line = s.subrange(0, line_end as int);
    let a = skip_ws_from(&cs, 0, line_end);
    let b = word_end(&cs, a, line_end);
    proof {
        assert(first_word(line) == s.subrange(a as int, b as int));
        assert(after_first_word(line) == s.subrange(b as int, line_end as int));
    }
    let c = skip_ws_from(&cs, b, line_end);
    let d = word_end(&cs, c, line_end);
    proof {
        assert(first_word(after_first_word(line)) == s.subrange(c as int, d as int));
    }
    if a == b || c == d {
        return None;
    }
    let ghost target = s.subrange(c as int, d as int);
    let q = seg_end(&cs, c, d, '?');
    let method = copy_range(&cs, a, b);
    let path = copy_range(&cs, c, q);
    let query = if q < d {
        copy_range(&cs, q + 1, d)
    } else {
        String::new()
    };
    proof {
        assert(target.take((q - c) as int) == s.subrange(c as int, q as int));
        if q < d {
            assert(target.skip((q - c) + 1) == s.subrange(q + 1, d as int));
        }
    }
    Some(Request { method, path, query })
}

/// The pages and actions the dashboard serves.
#[derive(Clone, Copy, Debug, PartialEq, Eq, Structural)]
pub enum Route {
    Index,
    Status,
    Files,
    Preview,
    Startup,
    NotFound,
}

/// The route of a request with the given method and path.
pub open spec fn route_spec(method: Seq<char>, path: Seq<char>) -> Route {
    if method == "GET"@ && path == "/"@ {
        Route::Index
    } else if method == "GET"@ && path == "/api/status"@ {
        Route::Status
    } else if method == "GET"@ && path == "/api/files"@ {
        Route::Files
    } else if method == "GET"@ && path == "/api/preview"@ {
        Route::Preview
    } else if method == "POST"@ && path == "/api/startup"@ {
        Route::Startup
    } else {
        Route::NotFound
    }
}

/// Routes a request.
pub fn route(method: &str, path: &str) -> (r: Route)
    ensures
        r == route_spec(method@, path@),
{
    if str_eq(method, "GET") && str_eq(path, "/") {
        Route::Index
    } else if str_eq(method, "GET") && str_eq(path, "/api/status") {
        Route::Status
    } else if str_eq(method, "GET") && str_eq(path, "/api/files") {
        Route::Files
    } else if str_eq(method, "GET") && str_eq(path, "/api/preview") {
        Route::Preview
    } else if str_eq(method, "POST") && str_eq(path, "/api/startup") {
        Route::Startup
    } else {
        Route::NotFound
    }
}

/// The key and value of one `&`-separated piece of a query: the key is what comes
/// before the first `=`, the value what follows it up to the next `=`; a piece
/// without `=` has neither.
pub open spec fn pair_entry(pair: Seq<char>) -> Option<(Seq<char>, Seq<char>)> {
    let k = seg_len(pair, '=');
    if k >= pair.len() {
        None
    } else {
        let rest = pair.skip(k + 1int);
        Some((pair.take(k as int), rest.take(seg_len(rest, '=') as int)))
    }
}

/// The value of the last piece of the query whose key is `key`.
pub open spec fn query_value_spec(q: Seq<char>, key: Seq<char>) -> Option<Seq<char>>
    decreases q.len(),
{
    let n = seg_len(q, '&');
    let here = match pair_entry(q.take(n as int)) {
        Some((k, v)) => if k == key {
            Some(v)
        } else {
            None
        },
        None => None,
    };
    let later = if n < q.len() {
        query_value_spec(q.skip(n + 1int), key)
    } else {
        None
    };
    if later is Some {
        later
    } else {
        here
    }
}

proof fn lemma_seg_len_bound(s: Seq<char>, c: char)
    ensures
        seg_len(s, c) <= s.len(),
        seg_len(s, c) < s.len() ==> s[seg_len(s, c) as int] == c,
        forall|i: int| 0 <= i < seg_len(s, c) ==> s[i] != c,
    decreases s.len(),
{
    if s.len() > 0 && s[0] != c {
        lemma_seg_len_bound(s.skip(1), c);
        assert forall|i: int| 0 <= i < seg_len(s, c) implies s[i] != c by {
            if i > 0 {
                assert(s[i] == s.skip(1)[i - 1]);
            }
        }
    }
}

/// The value of the last `key` parameter of a query, if there is one.
pub fn query_value(query: &str, key: &str) -> (r: Option<String>)
    ensures
        match query_value_spec(query@, key@) {
            Some(v) => r matches Some(x) && x@ == v,
            None => r is None,
        },
{
    let cs = chars_vec(query);
    let ghost q = cs@;
    let n = cs.len();
    let mut i: usize = 0;
    let mut found: Option<String> = None;
    let mut more = true;
    let ghost mut found_view: Option<Seq<char>> = None;
    proof {
        assert(q.subrange(0, n as int) == q);
    }
    // pieces are examined from the first; a later match replaces an earlier one
    while more
        invariant
            cs@ == q,
            n == q.len(),
            i <= n,
            more ==> query_value_spec(q, key@) == (if query_value_spec(
                q.subrange(i as int, n as int),
                key@,
            ) is Some {
                query_value_spec(q.subrange(i as int, n as int), key@)
            } else {
                found_view
            }),
            !more ==> query_value_spec(q, key@) == found_view,
            match found_view {
                Some(v) => found matches Some(x) && x@ == v,
                None => found is None,
            },
        decreases (if more {
            n + 1 - i
        } else {
            0
        }),
    {
        let ghost rest = q.subrange(i as int, n as int);
        let e = seg_end(&cs, i, n, '&');
        proof {
            assert(rest.take((e - i) as int) == q.subrange(i as int, e as int));
        }
        let ghost pair = q.subrange(i as int, e as int);
        let k = seg_end(&cs, i, e, '=');
        let ghost here: Option<Seq<char>> = None;
        if k < e {
            let v_end = seg_end(&cs, k + 1, e, '=');
            let key_here = copy_range(&cs, i, k);
            proof {
                assert(pair.take((k - i) as int) == q.subrange(i as int, k as int));
                assert(pair.skip((k - i) + 1) == q.subrange(k + 1, e as int));
                assert(q.subrange(k + 1, e as int).take((v_end - k - 1) as int) == q.subrange(
                    k + 1,
                    v_end as int,
                ));
            }
            if str_eq(key_here.as_str(), key) {
                let v = copy_range(&cs, k + 1, v_end);
                proof {
                    here = Some(q.subrange(k + 1, v_end as int));
                    found_view = here;
                }
                found = Some(v);
            }
        }
        proof {
            assert(match pair_entry(pair) {
                Some((kk, vv)) => if kk == key@ {
                    Some(vv)
                } else {
                    None
                },
                None => None,
            } == here);
        }
        if e < n {
            proof {
                assert(rest.skip((e - i) + 1) == q.subrange(e + 1, n as int));
            }
            i = e + 1;
        } else {
            more = false;
        }
    }
    found
}

/// The path a request for the file list or a preview names: the decoded value of
/// its last `path` parameter, empty when there is none.
pub open spec fn path_param_spec(query: Seq<char>) -> Seq<char> {
    match query_value_spec(query, "path"@) {
        Some(v) => url_decode_spec(v),
        None => seq![],
    }
}

/// Reads the `path` parameter of a query.
pub fn path_param(query: &str) -> (r: String)
    ensures
        r@ == path_param_spec(query@),
{
    match query_value(query, "path") {
        Some(v) => url_decode(v.as_str()),
        None => String::new(),
    }
}

/// Whether a startup request asks to enable starting at login: its last `enable`
/// parameter is exactly `true`.
pub open spec fn enable_param_spec(query: Seq<char>) -> bool {
    query_value_spec(query, "enable"@) == Some("true"@)
}

/// Reads the `enable` parameter of a startup request.
pub fn enable_param(query: &str) -> (r: bool)
    ensures
        r == enable_param_spec(query@),
{
    match query_value(query, "enable") {
        Some(v) => str_eq(v.as_str(), "true"),
        None => false,
    }
}

/// The folder to list for a requested path: `None` (the working directory) when the
/// path is empty or `.`, else the path itself.
pub fn listing_target(p: &str) -> (r: Option<String>)
    ensures
        (p@.len() == 0 || p@ == "."@) ==> r is None,
        !(p@.len() == 0 || p@ == "."@) ==> (r matches Some(x) && x@ == p@),
{
    if p.unicode_len() == 0 || str_eq(p, ".") {
        None
    } else {
        Some(to_string(p))
    }
}

/// The status line of a file-list reply.
pub fn listing_status(readable: bool) -> (s: &'static str)
    ensures
        readable ==> s@ == "HTTP/1.1 200 OK"@,
        !readable ==> s@ == "HTTP/1.1 400 Bad Request"@,
{
    if readable {
        "HTTP/1.1 200 OK"
    } else {
        "HTTP/1.1 400 Bad Request"
    }
}

/// The status line of every other reply with a body.
pub const STATUS_OK: &'static str = "HTTP/1.1 200 OK";

/// The reply to a request that matches no route.
pub const NOT_FOUND_REPLY: &'static str =
    "HTTP/1.1 404 Not Found\r\nContent-Length: 0\r\nConnection: close\r\n\r\n";

/// A reply with a body: status line, content type, the body's length in bytes and
/// a closing connection header, then the body.
pub open spec fn http_response_spec(status: Seq<char>, ctype: Seq<char>, body: Seq<char>) -> Seq<
    char,
> {
    status + "\r\nContent-Type: "@ + ctype + "\r\nContent-Length: "@ + decimal(
        encode_utf8(body).len(),
    ) + "\r\nConnection: close\r\n\r\n"@ + body
}

/// Frames a reply.
pub fn http_response(status: &str, ctype: &str, body: &str) -> (r: String)
    ensures
        r@ == http_response_spec(status@, ctype@, body@),
{
    let mut r = to_string(status);
    push_str(&mut r, "\r\nContent-Type: ");
    push_str(&mut r, ctype);
    push_str(&mut r, "\r\nContent-Length: ");
    let len = utf8_len(body);
    push_decimal(&mut r, len);
    push_str(&mut r, "\r\nConnection: close\r\n\r\n");
    push_str(&mut r, body);
    r
}

/// The dashboard's routes: `GET /` is the page, `GET /api/status`, `GET /api/files`
/// and `GET /api/preview` the status, file list and preview, and `POST /api/startup`
/// the login-autostart switch; any other method and path is not found.
pub proof fn lemma_routes(method: Seq<char>, path: Seq<char>)
    ensures
        route_spec("GET"@, "/"@) == Route::Index,
        route_spec("GET"@, "/api/status"@) == Route::Status,
        route_spec("GET"@, "/api/files"@) == Route::Files,
        route_spec("GET"@, "/api/preview"@) == Route::Preview,
        route_spec("POST"@, "/api/startup"@) == Route::Startup,
        !(method == "GET"@ && (path == "/"@ || path == "/api/status"@ || path == "/api/files"@
            || path == "/api/preview"@)) && !(method == "POST"@ && path == "/api/startup"@)
            ==> route_spec(method, path) == Route::NotFound,
{
    reveal_strlit("GET");
    assert("GET"@.len() == 3 && "GET"@[0] == 'G' && "GET"@[1] == 'E' && "GET"@[2] == 'T');
    reveal_strlit("POST");
    assert("POST"@.len() == 4 && "POST"@[0] == 'P' && "POST"@[1] == 'O' && "POST"@[2] == 'S' && "POST"@[3] == 'T');
    reveal_strlit("/");
    assert("/"@.len() == 1 && "/"@[0] == '/');
    reveal_strlit("/api/status");
    assert("/api/status"@.len() == 11 && "/api/status"@[0] == '/' && "/api/status"@[1] == 'a' && "/api/status"@[2] == 'p' && "/api/status"@[3] == 'i' && "/api/status"@[4] == '/' && "/api/status"@[5] == 's' && "/api/status"@[6] == 't' && "/api/status"@[7] == 'a' && "/api/status"@[8] == 't' && "/api/status"@[9] == 'u' && "/api/status"@[10] == 's');
    reveal_strlit("/api/files");
    assert("/api/files"@.len() == 10 && "/api/files"@[0] == '/' && "/api/files"@[1] == 'a' && "/api/files"@[2] == 'p' && "/api/files"@[3] == 'i' && "/api/files"@[4] == '/' && "/api/files"@[5] == 'f' && "/api/files"@[6] == 'i' && "/api/files"@[7] == 'l' && "/api/files"@[8] == 'e' && "/api/files"@[9] == 's');
    reveal_strlit("/api/preview");
    assert("/api/preview"@.len() == 12 && "/api/preview"@[0] == '/' && "/api/preview"@[1] == 'a' && "/api/preview"@[2] == 'p' && "/api/preview"@[3] == 'i' && "/api/preview"@[4] == '/' && "/api/preview"@[5] == 'p' && "/api/preview"@[6] == 'r' && "/api/preview"@[7] == 'e' && "/api/preview"@[8] == 'v' && "/api/preview"@[9] == 'i' && "/api/preview"@[10] == 'e' && "/api/preview"@[11] == 'w');
    reveal_strlit("/api/startup");
    assert("/api/startup"@.len() == 12 && "/api/startup"@[0] == '/' && "/api/startup"@[1] == 'a' && "/api/startup"@[2] == 'p' && "/api/startup"@[3] == 'i' && "/api/startup"@[4] == '/' && "/api/startup"@[5] == 's' && "/api/startup"@[6] == 't' && "/api/startup"@[7] == 'a' && "/api/startup"@[8] == 'r' && "/api/startup"@[9] == 't' && "/api/startup"@[10] == 'u' && "/api/startup"@[11] == 'p');
}

proof fn lemma_seg_len_prefix(a: Seq<char>, c: char, rest: Seq<char>)
    requires
        forall|i: int| 0 <= i < a.len() ==> a[i] != c,
    ensures
        seg_len(a + rest, c) == a.len() + seg_len(rest, c),
    decreases a.len(),
{
    if a.len() > 0 {
        lemma_seg_len_prefix(a.skip(1), c, rest);
        assert((a + rest).skip(1) == a.skip(1) + rest);
        assert((a + rest)[0] == a[0]);
    } else {
        assert(a + rest == rest);
    }
}

/// A query of one piece `key=value` (neither holding `&` or `=`) gives `value` for
/// `key`.
pub proof fn lemma_query_single(key: Seq<char>, value: Seq<char>)
    requires
        forall|i: int| 0 <= i < key.len() ==> key[i] != '&' && key[i] != '=',
        forall|i: int| 0 <= i < value.len() ==> value[i] != '&' && value[i] != '=',
    ensures
        query_value_spec(key + "="@ + value, key) == Some(value),
{
    reveal_strlit("=");
    let q = key + "="@ + value;
    assert(q == key + (seq!['='] + value));
    lemma_seg_len_prefix(key + "="@, '&', value);
    assert(value + Seq::<char>::empty() == value);
    lemma_seg_len_prefix(value, '&', Seq::<char>::empty());
    assert(seg_len(q, '&') == q.len());
    assert(q.take(q.len() as int) == q);
    lemma_seg_len_prefix(key, '=', seq!['='] + value);
    let rest = q.skip(key.len() + 1int);
    assert(rest == value);
    lemma_seg_len_prefix(value, '=', Seq::<char>::empty());
    assert(seg_len(value, '=') == value.len());
    assert(q.take(key.len() as int) == key);
    assert(value.take(value.len() as int) == value);
}

/// Where a query is a piece `first` (without `&`), an `&` and the rest, the value
/// for a key is the one the rest gives, if any, else the one `first` gives: the last
/// piece with the key wins.
pub proof fn lemma_query_last_wins(first: Seq<char>, rest: Seq<char>, key: Seq<char>)
    requires
        forall|i: int| 0 <= i < first.len() ==> first[i] != '&',
    ensures
        query_value_spec(first + "&"@ + rest, key) == if query_value_spec(rest, key) is Some {
            query_value_spec(rest, key)
        } else {
            query_value_spec(first, key)
        },
{
    reveal_strlit("&");
    let q = first + "&"@ + rest;
    assert(q == first + (seq!['&'] + rest));
    lemma_seg_len_prefix(first, '&', seq!['&'] + rest);
    assert(seg_len(q, '&') == first.len());
    assert(q.take(first.len() as int) == first);
    assert(q.skip(first.len() + 1int) == rest);
    assert(first + Seq::<char>::empty() == first);
    lemma_seg_len_prefix(first, '&', Seq::<char>::empty());
    assert(first.take(first.len() as int) == first);
}

proof fn lemma_word_len_prefix(a: Seq<char>, rest: Seq<char>)
    requires
        forall|i: int| 0 <= i < a.len() ==> !is_ws(a[i]),
        rest.len() > 0,
        is_ws(rest[0]),
    ensures
        word_len(a + rest) == a.len(),
    decreases a.len(),
{
    if a.len() > 0 {
        lemma_word_len_prefix(a.skip(1), rest);
        assert((a + rest).skip(1) == a.skip(1) + rest);
        assert((a + rest)[0] == a[0]);
    } else {
        assert(a + rest == rest);
    }
}

/// The first two words of a line that is a word, a space, a second word and then
/// a space and anything (words here have no white space in them).
proof fn lemma_two_words(w1: Seq<char>, w2: Seq<char>, tail: Seq<char>)
    requires
        w1.len() > 0,
        w2.len() > 0,
        forall|i: int| 0 <= i < w1.len() ==> !is_ws(w1[i]),
        forall|i: int| 0 <= i < w2.len() ==> !is_ws(w2[i]),
    ensures
        first_word(w1 + seq![' '] + w2 + seq![' '] + tail) == w1,
        first_word(after_first_word(w1 + seq![' '] + w2 + seq![' '] + tail)) == w2,
{
    let line = w1 + seq![' '] + w2 + seq![' '] + tail;
    let after = seq![' '] + w2 + seq![' '] + tail;
    assert(line == w1 + after);
    assert(line[0] == w1[0]);
    assert(skip_ws(line) == line);
    lemma_word_len_prefix(w1, after);
    assert(line.take(w1.len() as int) == w1);
    assert(line.skip(w1.len() as int) == after);
    let t = w2 + (seq![' '] + tail);
    assert(after.skip(1) == t);
    assert(t[0] == w2[0]);
    assert(skip_ws(t) == t);
    assert(skip_ws(after) == skip_ws(after.skip(1)));
    lemma_word_len_prefix(w2, seq![' '] + tail);
    assert(t.take(w2.len() as int) == w2);
}

/// A request whose text starts with its method, a space, its target and a space
/// (neither word holding white space) is read as that method and target; the target
/// is split at its first `?` into the path and the query, the query being empty
/// when there is no `?`.
pub proof fn lemma_request_line(
    method: Seq<char>,
    path: Seq<char>,
    query: Seq<char>,
    rest: Seq<char>,
)
    requires
        method.len() > 0,
        forall|i: int| 0 <= i < method.len() ==> !is_ws(method[i]),
        forall|i: int| 0 <= i < path.len() ==> !is_ws(path[i]) && path[i] != '?',
        forall|i: int| 0 <= i < query.len() ==> !is_ws(query[i]),
    ensures
        request_spec(method + seq![' '] + (path + seq!['?'] + query) + seq![' '] + rest)
            == Some((method, path, query)),
        path.len() > 0 ==> request_spec(method + seq![' '] + path + seq![' '] + rest) == Some(
            (method, path, Seq::<char>::empty()),
        ),
{
    let t1 = path + seq!['?'] + query;
    assert forall|i: int| 0 <= i < t1.len() implies !is_ws(t1[i]) by {
        if i < path.len() {
            assert(t1[i] == path[i]);
        } else if i > path.len() {
            assert(t1[i] == query[i - path.len() - 1]);
        }
    }
    lemma_request_target(method, t1, rest);
    assert(t1 == path + (seq!['?'] + query));
    lemma_seg_len_prefix(path, '?', seq!['?'] + query);
    assert(t1.take(path.len() as int) == path);
    assert(t1.skip(path.len() + 1int) == query);
    if path.len() > 0 {
        lemma_request_target(method, path, rest);
        assert(path + Seq::<char>::empty() == path);
        lemma_seg_len_prefix(path, '?', Seq::<char>::empty());
        assert(path.take(path.len() as int) == path);
    }
}

proof fn lemma_request_target(method: Seq<char>, target: Seq<char>, rest: Seq<char>)
    requires
        method.len() > 0,
        target.len() > 0,
        forall|i: int| 0 <= i < method.len() ==> !is_ws(method[i]),
        forall|i: int| 0 <= i < target.len() ==> !is_ws(target[i]),
    ensures
        request_parts(method + seq![' '] + target + seq![' '] + rest) == Some((method, target)),
{
    let a = method + seq![' '] + target + seq![' '];
    let raw = a + rest;
    assert(method + seq![' '] + target + seq![' '] + rest == raw);
    assert forall|i: int| 0 <= i < a.len() implies a[i] != '\n' by {
        if i < method.len() {
            assert(a[i] == method[i]);
        } else if method.len() < i < method.len() + 1 + target.len() {
            assert(a[i] == target[i - method.len() - 1]);
        }
    }
    lemma_seg_len_prefix(a, '\n', rest);
    lemma_seg_len_bound(rest, '\n');
    let n = seg_len(raw, '\n');
    let line = first_line(raw);
    if n < raw.len() && n > 0 && raw[n - 1] == '\r' {
        if n - 1 < a.len() {
            assert(a[n - 1] == '\r');
            assert(false);
        }
        assert(line =~= a + rest.take(n - 1 - a.len()));
        lemma_two_words(method, target, rest.take(n - 1 - a.len()));
    } else {
        assert(line =~= a + rest.take(n - a.len()));
        lemma_two_words(method, target, rest.take(n - a.len()));
    }
}

} // verus!
