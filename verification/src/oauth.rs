//! The local sign-in callback server: reading the browser's HTTP requests,
//! routing them, the replies it sends, and the sign-in data kept until the
//! user interface takes it.
use vstd::prelude::*;
use crate::num::{decimal, push_decimal};
use crate::text::{
    byte_len, copy_str, find_char, find_chars, first_index, from_chars, index_of_char, lines,
    lines_of, lowercase, parse_usize, parsed_usize, prefix_byte_len, push_str, replace_all,
    replace_str, split_char, split_on_char, split_words, starts_with_chars, str_eq, sub_chars,
    to_chars, to_lowercase, trim, trim_chars, utf8_len, words,
};

verus! {

/// The port the callback server listens on.
pub const OAUTH_CALLBACK_PORT: u16 = 17823;

/// How long the server waits for the browser before it stops.
pub const SERVER_TIMEOUT_SECS: u64 = 300;

/// The size beyond which no more of a request is read.
pub const MAX_REQUEST_BYTES: usize = 65536;

/// The tokens the browser posts after an implicit sign-in.
#[derive(Debug, Clone)]
pub struct AuthTokens {
    pub access_token: String,
    pub refresh_token: String,
}

/// The field after the first `:` of a header line, up to the next `:`
/// (`split(':').nth(1)`).
pub open spec fn colon_field(l: Seq<char>) -> Option<Seq<char>> {
    let ps = split_char(l, ':');
    if ps.len() >= 2 {
        Some(ps[1])
    } else {
        None
    }
}

/// The length a header line declares: a line that starts, in lowercase,
/// with `content-length:` and whose field parses as a number.
pub open spec fn header_length(l: Seq<char>) -> Option<nat> {
    let low = lowercase(l);
    if "content-length:"@.len() <= low.len() && low.take("content-length:"@.len() as int)
        == "content-length:"@ {
        match colon_field(l) {
            Some(f) => parsed_usize(trim(f)),
            None => None,
        }
    } else {
        None
    }
}

/// The length declared by the first line that declares one, or 0.
pub open spec fn first_length(ls: Seq<Seq<char>>) -> nat
    decreases ls.len(),
{
    if ls.len() == 0 {
        0
    } else {
        match header_length(ls[0]) {
            Some(v) => v,
            None => first_length(ls.drop_first()),
        }
    }
}

/// The body length that a request's header part declares.
pub open spec fn content_length_of(headers: Seq<char>) -> nat {
    first_length(lines_of(headers))
}

fn header_line_length(line: &Vec<char>) -> (r: Option<usize>)
    ensures
        match header_length(line@) {
            Some(v) => r == Some(v as usize),
            None => r is None,
        },
{
    let text = from_chars(line);
    let low = to_lowercase(text.as_str());
    let lc = to_chars(low.as_str());
    if !starts_with_chars(&lc, "content-length:") {
        return None;
    }
    let pieces = split_on_char(text.as_str(), ':');
    if pieces.len() < 2 {
        return None;
    }
    let field = trim_chars(&pieces[1]);
    let f = from_chars(&field);
    parse_usize(f.as_str())
}

/// The body length declared in a request's header part.
pub fn content_length(headers: &str) -> (r: usize)
    ensures
        r == content_length_of(headers@),
{
    let ls = lines(headers);
    let ghost lv = ls@.map_values(|v: Vec<char>| v@);
    let mut i: usize = 0;
    assert(lv.skip(0) =~= lv);
    while i < ls.len()
        invariant
            lv == ls@.map_values(|v: Vec<char>| v@),
            lv == lines_of(headers@),
            i <= ls.len(),
            first_length(lv) == first_length(lv.skip(i as int)),
        decreases ls.len() - i,
    {
        assert(lv.skip(i as int)[0] == ls@[i as int]@);
        assert(lv.skip(i as int).drop_first() =~= lv.skip(i + 1));
        match header_line_length(&ls[i]) {
            Some(v) => {
                return v;
            },
            None => {},
        }
        i += 1;
    }
    0
}

/// The separator between the header part and the body of a request.
pub open spec fn blank_line() -> Seq<char> {
    seq!['\r', '\n', '\r', '\n']
}

/// Whether a request read so far is complete: its header part has ended
/// and at least the declared number of body bytes (of `buf_len` bytes
/// read) follows it.
pub open spec fn request_complete_spec(so_far: Seq<char>, buf_len: nat) -> bool {
    match first_index(so_far, blank_line()) {
        Some(h) => {
            let body_start = utf8_len(so_far.take(h + 4));
            let received: int = if buf_len >= body_start {
                buf_len - body_start
            } else {
                0
            };
            received >= content_length_of(so_far.take(h))
        },
        None => false,
    }
}

/// Whether a request read so far (`so_far`, from `buf_len` bytes) holds its
/// whole body, so that no more needs to be read.
pub fn request_complete(so_far: &str, buf_len: usize) -> (r: bool)
    ensures
        r == request_complete_spec(so_far@, buf_len as nat),
{
    let cs = to_chars(so_far);
    let sep = vec!['\r', '\n', '\r', '\n'];
    assert(sep@ == blank_line());
    match find_chars(&cs, &sep) {
        Some(h) => {
            let head = from_chars(&sub_chars(&cs, 0, h));
            assert(so_far@.subrange(0, h as int) =~= so_far@.take(h as int));
            let length = content_length(head.as_str());
            let body_start = prefix_byte_len(so_far, h + 4);
            let received = buf_len.saturating_sub(body_start);
            received >= length
        },
        None => false,
    }
}

/// Only a POST request waits for a body.
pub fn reads_body(preview: &str) -> (r: bool)
    ensures
        r == ("POST"@.len() <= preview@.len() && preview@.take("POST"@.len() as int) == "POST"@),
{
    let cs = to_chars(preview);
    starts_with_chars(&cs, "POST")
}

/// The method and path of a request: the first two words of its first line.
pub open spec fn request_line(req: Seq<char>) -> Option<(Seq<char>, Seq<char>)> {
    let ls = lines_of(req);
    if ls.len() == 0 {
        None
    } else {
        let ws = words(ls[0]);
        if ws.len() < 2 {
            None
        } else {
            Some((ws[0], ws[1]))
        }
    }
}

/// A query piece split at its first `=`: key and value (empty without `=`).
pub open spec fn query_pair(piece: Seq<char>) -> (Seq<char>, Seq<char>) {
    match index_of_char(piece, '=') {
        Some(i) => (piece.take(i), piece.skip(i + 1)),
        None => (piece, Seq::empty()),
    }
}

/// The value of the first `code` pair among the query pieces.
pub open spec fn code_in(pieces: Seq<Seq<char>>) -> Option<Seq<char>>
    decreases pieces.len(),
{
    if pieces.len() == 0 {
        None
    } else if query_pair(pieces[0]).0 == "code"@ {
        Some(query_pair(pieces[0]).1)
    } else {
        code_in(pieces.drop_first())
    }
}

/// The authorization code of a callback path: the first `code` value of its
/// query, when not empty.
pub open spec fn callback_code(path: Seq<char>) -> Option<Seq<char>> {
    match index_of_char(path, '?') {
        Some(q) => match code_in(split_char(path.skip(q + 1), '&')) {
            Some(v) => if v.len() > 0 {
                Some(v)
            } else {
                None
            },
            None => None,
        },
        None => None,
    }
}

/// What the callback server does with a request.
pub enum AuthRoute {
    /// A callback carrying an authorization code.
    Code(String),
    /// A callback without one: serve the page that reads the tokens.
    CallbackPage,
    /// Posted tokens, with the body that holds them.
    Tokens(String),
    /// Posted tokens without a body.
    MissingBody,
    /// The browser's preflight for posting tokens.
    Preflight,
    NotFound,
}

/// The route of a request with method `m` and path `p`, read from `req`.
pub open spec fn route_matches(req: Seq<char>, m: Seq<char>, p: Seq<char>, r: AuthRoute) -> bool {
    if m == "GET"@ && "/auth/callback"@.len() <= p.len() && p.take("/auth/callback"@.len() as int)
        == "/auth/callback"@ {
        match callback_code(p) {
            Some(c) => r matches AuthRoute::Code(x) && x@ == c,
            None => r is CallbackPage,
        }
    } else if m == "POST"@ && p == "/auth/tokens"@ {
        match first_index(req, blank_line()) {
            Some(i) => r matches AuthRoute::Tokens(b) && b@ == req.skip(i + 4),
            None => r is MissingBody,
        }
    } else if m == "OPTIONS"@ && p == "/auth/tokens"@ {
        r is Preflight
    } else {
        r is NotFound
    }
}

fn query_code(path: &Vec<char>) -> (r: Option<String>)
    ensures
        match callback_code(path@) {
            Some(c) => r matches Some(x) && x@ == c,
            None => r is None,
        },
{
    let q = match find_char(path, '?') {
        Some(q) => q,
        None => {
            return None;
        },
    };
    let query = from_chars(&sub_chars(path, q + 1, path.len()));
    assert(path@.subrange(q + 1, path@.len() as int) =~= path@.skip(q + 1));
    let pieces = split_on_char(query.as_str(), '&');
    let ghost pv = pieces@.map_values(|v: Vec<char>| v@);
    let mut i: usize = 0;
    assert(pv.skip(0) =~= pv);
    while i < pieces.len()
        invariant
            pv == pieces@.map_values(|v: Vec<char>| v@),
            pv == split_char(path@.skip(q + 1), '&'),
            index_of_char(path@, '?') == Some(q as int),
            i <= pieces.len(),
            code_in(pv) == code_in(pv.skip(i as int)),
        decreases pieces.len() - i,
    {
        let piece = &pieces[i];
        assert(pv.skip(i as int)[0] == piece@);
        assert(pv.skip(i as int).drop_first() =~= pv.skip(i + 1));
        let (key, value) = match find_char(piece, '=') {
            Some(e) => {
                assert(piece@.subrange(0, e as int) =~= piece@.take(e as int));
                assert(piece@.subrange(e + 1, piece@.len() as int) =~= piece@.skip(e + 1));
                (sub_chars(piece, 0, e), sub_chars(piece, e + 1, piece.len()))
            },
            None => (piece.clone(), Vec::new()),
        };
        assert(key@ == query_pair(piece@).0);
        assert(value@ == query_pair(piece@).1);
        let k = from_chars(&key);
        if str_eq(k.as_str(), "code") {
            if value.len() > 0 {
                return Some(from_chars(&value));
            } else {
                return None;
            }
        }
        i += 1;
    }
    None
}

/// Reads the method and path of a request and decides what to do with it;
/// `None` when the request has no first line with two words.
pub fn route_request(request: &str) -> (r: Option<AuthRoute>)
    ensures
        match request_line(request@) {
            None => r is None,
            Some(mp) => r matches Some(route) && route_matches(request@, mp.0, mp.1, route),
        },
{
    let ls = lines(request);
    if ls.len() == 0 {
        return None;
    }
    let first = from_chars(&ls[0]);
    let parts = split_words(first.as_str());
    if parts.len() < 2 {
        return None;
    }
    let method = parts[0].as_str();
    let path = parts[1].as_str();
    let pc = to_chars(path);
    if str_eq(method, "GET") && starts_with_chars(&pc, "/auth/callback") {
        match query_code(&pc) {
            Some(c) => Some(AuthRoute::Code(c)),
            None => Some(AuthRoute::CallbackPage),
        }
    } else if str_eq(method, "POST") && str_eq(path, "/auth/tokens") {
        let cs = to_chars(request);
        let sep = vec!['\r', '\n', '\r', '\n'];
        assert(sep@ == blank_line());
        match find_chars(&cs, &sep) {
            Some(i) => {
                assert(request@.subrange(i + 4, request@.len() as int) =~= request@.skip(i + 4));
                Some(AuthRoute::Tokens(from_chars(&sub_chars(&cs, i + 4, cs.len()))))
            },
            None => Some(AuthRoute::MissingBody),
        }
    } else if str_eq(method, "OPTIONS") && str_eq(path, "/auth/tokens") {
        Some(AuthRoute::Preflight)
    } else {
        Some(AuthRoute::NotFound)
    }
}


/// The reason phrase sent with a status code.
pub open spec fn reason_of(status: u16) -> Seq<char> {
    if status == 200 {
        "OK"@
    } else if status == 204 {
        "No Content"@
    } else if status == 400 {
        "Bad Request"@
    } else if status == 404 {
        "Not Found"@
    } else if status == 500 {
        "Internal Server Error"@
    } else {
        "Unknown"@
    }
}

fn reason_phrase(status: u16) -> (r: &'static str)
    ensures
        r@ == reason_of(status),
{
    if status == 200 {
        "OK"
    } else if status == 204 {
        "No Content"
    } else if status == 400 {
        "Bad Request"
    } else if status == 404 {
        "Not Found"
    } else if status == 500 {
        "Internal Server Error"
    } else {
        "Unknown"
    }
}

/// A JSON reply with the given status, allowed to any origin.
pub open spec fn json_reply(status: u16, body: Seq<char>) -> Seq<char> {
    "HTTP/1.1 "@ + decimal(status as nat) + " "@ + reason_of(status)
        + "\r\nContent-Type: application/json\r\nAccess-Control-Allow-Origin: *\r\nContent-Length: "@
        + decimal(utf8_len(body)) + "\r\nConnection: close\r\n\r\n"@ + body
}

/// The reply with the given status and JSON body; the length counts bytes.
pub fn json_response(status: u16, body: &str) -> (r: String)
    ensures
        r@ == json_reply(status, body@),
{
    let n = byte_len(body);
    let mut out = copy_str("HTTP/1.1 ");
    push_decimal(&mut out, status as u64);
    push_str(&mut out, " ");
    push_str(&mut out, reason_phrase(status));
    push_str(
        &mut out,
        "\r\nContent-Type: application/json\r\nAccess-Control-Allow-Origin: *\r\nContent-Length: ",
    );
    push_decimal(&mut out, n as u64);
    push_str(&mut out, "\r\nConnection: close\r\n\r\n");
    push_str(&mut out, body);
    out
}

/// An HTML page served with status 200.
pub open spec fn html_reply(html: Seq<char>) -> Seq<char> {
    "HTTP/1.1 200 OK\r\nContent-Type: text/html; charset=utf-8\r\nContent-Length: "@ + decimal(
        utf8_len(html),
    ) + "\r\nConnection: close\r\n\r\n"@ + html
}

/// The reply that serves an HTML page; the length counts bytes.
pub fn html_response(html: &str) -> (r: String)
    ensures
        r@ == html_reply(html@),
{
    let n = byte_len(html);
    let mut out = copy_str(
        "HTTP/1.1 200 OK\r\nContent-Type: text/html; charset=utf-8\r\nContent-Length: ",
    );
    push_decimal(&mut out, n as u64);
    push_str(&mut out, "\r\nConnection: close\r\n\r\n");
    push_str(&mut out, html);
    out
}

/// The reply to the browser's preflight before it posts the tokens.
pub open spec fn preflight_reply() -> Seq<char> {
    "HTTP/1.1 204 No Content\r\nAccess-Control-Allow-Origin: *\r\nAccess-Control-Allow-Methods: POST, OPTIONS\r\nAccess-Control-Allow-Headers: Content-Type\r\nContent-Length: 0\r\nConnection: close\r\n\r\n"@
}

/// The preflight reply.
pub fn preflight_response() -> (r: String)
    ensures
        r@ == preflight_reply(),
{
    copy_str(
        "HTTP/1.1 204 No Content\r\nAccess-Control-Allow-Origin: *\r\nAccess-Control-Allow-Methods: POST, OPTIONS\r\nAccess-Control-Allow-Headers: Content-Type\r\nContent-Length: 0\r\nConnection: close\r\n\r\n",
    )
}

/// The callback page made from its template: every `OAUTH_PORT` replaced by
/// the server's port.
pub fn callback_page(template: &str) -> (r: String)
    ensures
        r@ == replace_all(template@, "OAUTH_PORT"@, decimal(OAUTH_CALLBACK_PORT as nat)),
{
    let port = crate::num::u64_to_decimal(OAUTH_CALLBACK_PORT as u64);
    proof {
        reveal_strlit("OAUTH_PORT");
    }
    replace_str(template, "OAUTH_PORT", port.as_str())
}

/// The status and body of the JSON reply to a request that gets one
/// directly: a missing body or an unknown path.
pub open spec fn plain_reply(route: AuthRoute) -> Option<(u16, Seq<char>)> {
    match route {
        AuthRoute::MissingBody => Some((400u16, "Missing body"@)),
        AuthRoute::NotFound => Some((404u16, "Not Found"@)),
        _ => None,
    }
}

/// The JSON reply owed to a route without further work, if any.
pub fn route_reply(route: &AuthRoute) -> (r: Option<String>)
    ensures
        match plain_reply(*route) {
            Some(sb) => r matches Some(t) && t@ == json_reply(sb.0, sb.1),
            None => r is None,
        },
{
    match route {
        AuthRoute::MissingBody => Some(json_response(400, "Missing body")),
        AuthRoute::NotFound => Some(json_response(404, "Not Found")),
        _ => None,
    }
}

/// The reply to posted tokens, and whether the server then stops: invalid
/// JSON gets 400, a failed hand-over to the interface 500, success 200.
pub open spec fn tokens_reply(parsed: bool, delivered: bool) -> (u16, Seq<char>, bool) {
    if !parsed {
        (400u16, "Invalid JSON"@, false)
    } else if !delivered {
        (500u16, "Internal error"@, false)
    } else {
        (200u16, "{\"ok\":true}"@, true)
    }
}

/// The reply to posted tokens and whether the server stops after it.
pub fn tokens_response(parsed: bool, delivered: bool) -> (r: (String, bool))
    ensures
        r.0@ == json_reply(tokens_reply(parsed, delivered).0, tokens_reply(parsed, delivered).1),
        r.1 == tokens_reply(parsed, delivered).2,
{
    if !parsed {
        (json_response(400, "Invalid JSON"), false)
    } else if !delivered {
        (json_response(500, "Internal error"), false)
    } else {
        (json_response(200, "{\"ok\":true}"), true)
    }
}

/// Sign-in data received by the server and not yet taken by the interface.
pub struct PendingAuth {
    pub code: Option<String>,
    pub tokens: Option<AuthTokens>,
}

impl PendingAuth {
    /// A store holding nothing.
    pub fn new() -> (r: Self)
        ensures
            r.code is None,
            r.tokens is None,
    {
        PendingAuth { code: None, tokens: None }
    }

    /// Keeps a received authorization code, replacing an older one.
    pub fn store_code(&mut self, code: String)
        ensures
            final(self).code == Some(code),
            final(self).tokens == old(self).tokens,
    {
        self.code = Some(code);
    }

    /// Keeps received tokens, replacing older ones.
    pub fn store_tokens(&mut self, tokens: AuthTokens)
        ensures
            final(self).tokens == Some(tokens),
            final(self).code == old(self).code,
    {
        self.tokens = Some(tokens);
    }

    /// Hands out the kept code and forgets it.
    pub fn get_pending_auth_code(&mut self) -> (r: Option<String>)
        ensures
            r == old(self).code,
            final(self).code is None,
            final(self).tokens == old(self).tokens,
    {
        self.code.take()
    }

    /// Hands out the kept tokens and forgets them.
    pub fn get_pending_auth_tokens(&mut self) -> (r: Option<AuthTokens>)
        ensures
            r == old(self).tokens,
            final(self).tokens is None,
            final(self).code == old(self).code,
    {
        self.tokens.take()
    }
}

/// The callback page made from `template`, as `callback_page` gives it.
pub open spec fn callback_page_of(template: Seq<char>) -> Seq<char> {
    replace_all(template, "OAUTH_PORT"@, decimal(OAUTH_CALLBACK_PORT as nat))
}

/// Serves one routed request: a callback with an authorization code keeps
/// the code, gets `success_html` and stops the server; a callback without
/// one gets the callback page; posted tokens (`parsed`, when their JSON was
/// read) are kept and answered as `tokens_reply` says, the server stopping
/// once they are handed over (`delivered`); the preflight, a missing body
/// and unknown paths get their replies. Only a code or tokens change the
/// pending data. Gives the reply and whether the server stops.
pub fn serve_route(
    pending: &mut PendingAuth,
    route: AuthRoute,
    parsed: Option<AuthTokens>,
    delivered: bool,
    callback_template: &str,
    success_html: &str,
) -> (r: (String, bool))
    ensures
        match route {
            AuthRoute::Code(c) => {
                &&& r.0@ == html_reply(success_html@)
                &&& r.1
                &&& final(pending).code == Some(c)
                &&& final(pending).tokens == old(pending).tokens
            },
            AuthRoute::CallbackPage => {
                &&& r.0@ == html_reply(callback_page_of(callback_template@))
                &&& !r.1
                &&& *final(pending) == *old(pending)
            },
            AuthRoute::Tokens(_) => match parsed {
                Some(t) => {
                    &&& r.0@ == json_reply(
                        tokens_reply(true, delivered).0,
                        tokens_reply(true, delivered).1,
                    )
                    &&& r.1 == tokens_reply(true, delivered).2
                    &&& final(pending).tokens == Some(t)
                    &&& final(pending).code == old(pending).code
                },
                None => {
                    &&& r.0@ == json_reply(tokens_reply(false, delivered).0, tokens_reply(false, delivered).1)
                    &&& !r.1
                    &&& *final(pending) == *old(pending)
                },
            },
            AuthRoute::Preflight => {
                &&& r.0@ == preflight_reply()
                &&& !r.1
                &&& *final(pending) == *old(pending)
            },
            AuthRoute::MissingBody => {
                &&& r.0@ == json_reply(400, "Missing body"@)
                &&& !r.1
                &&& *final(pending) == *old(pending)
            },
            AuthRoute::NotFound => {
                &&& r.0@ == json_reply(404, "Not Found"@)
                &&& !r.1
                &&& *final(pending) == *old(pending)
            },
        },
{
    match route {
        AuthRoute::Code(c) => {
            pending.store_code(c);
            (html_response(success_html), true)
        },
        AuthRoute::CallbackPage => {
            let page = callback_page(callback_template);
            (html_response(page.as_str()), false)
        },
        AuthRoute::Tokens(_) => match parsed {
            Some(t) => {
                pending.store_tokens(t);
                tokens_response(true, delivered)
            },
            None => tokens_response(false, delivered),
        },
        AuthRoute::Preflight => (preflight_response(), false),
        AuthRoute::MissingBody => (json_response(400, "Missing body"), false),
        AuthRoute::NotFound => (json_response(404, "Not Found"), false),
    }
}

} // verus!
