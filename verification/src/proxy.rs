//! The Deepgram proxy credentials: the cache with its expiry, the answers of
//! the token endpoint, and the split of the WebSocket URL it returns into
//! base URL and token.
use vstd::prelude::*;
use crate::text::{copy_str, err_str, opt_str, push_str, str_eq};

verus! {

/// Credentials for the proxy, as handed to the frontend.
#[derive(Debug, Clone)]
pub struct DeepgramProxyConfig {
    pub proxy_base_url: String,
    pub jwt: String,
    /// Seconds until the token expires.
    pub expires_in: u64,
}

/// An error answer for the frontend.
#[derive(Debug, Clone)]
pub struct DeepgramProxyConfigError {
    pub error: String,
    pub details: Option<String>,
}

/// Cached credentials with the instant (milliseconds of a monotonic clock)
/// at which they expire.
pub struct CachedProxyConfig {
    pub proxy_base_url: String,
    pub jwt: String,
    pub expires_at_ms: u128,
}

/// The proxy credential cache.
pub struct ProxyConfigCache {
    pub entry: Option<CachedProxyConfig>,
}

/// Credentials closer than this to expiry count as expired, so that they
/// are refreshed in time.
pub const CONFIG_REFRESH_BUFFER_SECS: u64 = 30;

/// Lifetime of a token fetched from the endpoint, in seconds.
pub const JWT_TTL_SECS: u64 = 300;

/// The cached entry is valid at `now_ms`: it expires more than the refresh
/// buffer from now.
pub open spec fn entry_valid(e: CachedProxyConfig, now_ms: u64) -> bool {
    e.expires_at_ms > now_ms + CONFIG_REFRESH_BUFFER_SECS * 1000
}

/// `now_ms + secs` seconds, in milliseconds; wide enough that it never
/// wraps.
pub open spec fn expiry_after(now_ms: u64, secs: u64) -> u128 {
    (now_ms + secs * 1000) as u128
}

impl ProxyConfigCache {
    /// A cache holding no credentials.
    pub fn new() -> (r: Self)
        ensures
            r.entry is None,
    {
        ProxyConfigCache { entry: None }
    }
}

fn expiry_after_exec(now_ms: u64, secs: u64) -> (r: u128)
    ensures
        r == expiry_after(now_ms, secs),
{
    assert(secs * 1000 <= u64::MAX * 1000) by (nonlinear_arith)
        requires
            secs <= u64::MAX,
    ;
    now_ms as u128 + (secs as u128) * 1000
}

fn is_valid_at(e: &CachedProxyConfig, now_ms: u64) -> (r: bool)
    ensures
        r == entry_valid(*e, now_ms),
{
    let n = now_ms as u128;
    e.expires_at_ms > n && e.expires_at_ms - n > (CONFIG_REFRESH_BUFFER_SECS as u128) * 1000
}

/// Whole seconds from `now_ms` until `e` expires, where it has not; at most
/// the largest `u64`.
pub open spec fn seconds_left(e: CachedProxyConfig, now_ms: u64) -> u64 {
    let q = (e.expires_at_ms - now_ms) / 1000;
    if q > u64::MAX {
        u64::MAX
    } else {
        q as u64
    }
}

/// `seconds_left`, for an entry valid at `now_ms`.
fn seconds_left_exec(e: &CachedProxyConfig, now_ms: u64) -> (r: u64)
    requires
        entry_valid(*e, now_ms),
    ensures
        r == seconds_left(*e, now_ms),
{
    let q = (e.expires_at_ms - now_ms as u128) / 1000;
    if q > u64::MAX as u128 {
        u64::MAX
    } else {
        q as u64
    }
}

/// Stores credentials valid for `expires_in` seconds from `now_ms`. Both
/// the URL and the token must be non-empty.
pub fn set_deepgram_proxy_config(
    cache: &mut ProxyConfigCache,
    proxy_base_url: String,
    jwt: String,
    expires_in: u64,
    now_ms: u64,
) -> (r: Result<(), String>)
    ensures
        proxy_base_url@.len() == 0 ==> err_str(r) == Some("Proxy base URL cannot be empty"@)
            && final(cache).entry == old(cache).entry,
        proxy_base_url@.len() > 0 && jwt@.len() == 0 ==> err_str(r) == Some(
            "JWT cannot be empty"@,
        ) && final(cache).entry == old(cache).entry,
        proxy_base_url@.len() > 0 && jwt@.len() > 0 ==> r is Ok && final(cache).entry == Some(
            CachedProxyConfig {
                proxy_base_url,
                jwt,
                expires_at_ms: expiry_after(now_ms, expires_in),
            },
        ),
{
    if proxy_base_url.as_str().is_empty() {
        return Err(copy_str("Proxy base URL cannot be empty"));
    }
    if jwt.as_str().is_empty() {
        return Err(copy_str("JWT cannot be empty"));
    }
    let expires_at_ms = expiry_after_exec(now_ms, expires_in);
    cache.entry = Some(CachedProxyConfig { proxy_base_url, jwt, expires_at_ms });
    Ok(())
}

/// The cached URL and token, when they are still valid at `now_ms`.
pub fn get_cached_proxy_config(cache: &ProxyConfigCache, now_ms: u64) -> (r: Option<(String, String)>)
    ensures
        match cache.entry {
            Some(e) => if entry_valid(e, now_ms) {
                r == Some((e.proxy_base_url, e.jwt))
            } else {
                r is None
            },
            None => r is None,
        },
{
    match &cache.entry {
        Some(e) => {
            if is_valid_at(e, now_ms) {
                Some((e.proxy_base_url.clone(), e.jwt.clone()))
            } else {
                None
            }
        },
        None => None,
    }
}

/// Whether valid credentials are cached at `now_ms`.
pub fn has_cached_proxy_config(cache: &ProxyConfigCache, now_ms: u64) -> (r: bool)
    ensures
        r == (cache.entry matches Some(e) && entry_valid(e, now_ms)),
{
    get_cached_proxy_config(cache, now_ms).is_some()
}

/// Whether valid credentials are cached at `now_ms`.
pub fn has_valid_deepgram_proxy_config(cache: &ProxyConfigCache, now_ms: u64) -> (r: bool)
    ensures
        r == (cache.entry matches Some(e) && entry_valid(e, now_ms)),
{
    has_cached_proxy_config(cache, now_ms)
}

/// The cached credentials with the whole seconds left until they expire,
/// when they are still valid at `now_ms`.
pub fn get_deepgram_proxy_config(cache: &ProxyConfigCache, now_ms: u64) -> (r: Option<
    DeepgramProxyConfig,
>)
    ensures
        match cache.entry {
            Some(e) => if entry_valid(e, now_ms) {
                r matches Some(c) && c.proxy_base_url == e.proxy_base_url && c.jwt == e.jwt
                    && c.expires_in == seconds_left(e, now_ms)
            } else {
                r is None
            },
            None => r is None,
        },
{
    match &cache.entry {
        Some(e) => {
            if is_valid_at(e, now_ms) {
                Some(
                    DeepgramProxyConfig {
                        proxy_base_url: e.proxy_base_url.clone(),
                        jwt: e.jwt.clone(),
                        expires_in: seconds_left_exec(e, now_ms),
                    },
                )
            } else {
                None
            }
        },
        None => None,
    }
}

/// Forgets the cached credentials (on logout).
pub fn clear_deepgram_proxy_config(cache: &mut ProxyConfigCache)
    ensures
        final(cache).entry is None,
{
    cache.entry = None;
}

/// Caches credentials just fetched from the endpoint, valid for
/// `JWT_TTL_SECS`, and returns them.
pub fn store_fetched_proxy_config(
    cache: &mut ProxyConfigCache,
    proxy_base_url: String,
    jwt: String,
    now_ms: u64,
) -> (r: DeepgramProxyConfig)
    ensures
        final(cache).entry == Some(
            CachedProxyConfig {
                proxy_base_url: proxy_base_url,
                jwt: jwt,
                expires_at_ms: expiry_after(now_ms, JWT_TTL_SECS),
            },
        ),
        r.proxy_base_url == proxy_base_url,
        r.jwt == jwt,
        r.expires_in == JWT_TTL_SECS,
{
    let expires_at_ms = expiry_after_exec(now_ms, JWT_TTL_SECS);
    cache.entry = Some(
        CachedProxyConfig {
            proxy_base_url: proxy_base_url.clone(),
            jwt: jwt.clone(),
            expires_at_ms,
        },
    );
    DeepgramProxyConfig { proxy_base_url, jwt, expires_in: JWT_TTL_SECS }
}

/// The class of an HTTP status code, as the endpoints' callers tell them
/// apart.
pub enum StatusClass {
    Success,
    Unauthorized,
    Forbidden,
    NotFound,
    BadRequest,
    ServerError,
    OtherFailure,
}

/// Success is 200 to 299, server errors 500 to 599; 400, 401, 403 and 404
/// have classes of their own.
pub fn classify_status(code: u16) -> (r: StatusClass)
    ensures
        code == 401 <==> r is Unauthorized,
        code == 403 <==> r is Forbidden,
        code == 404 <==> r is NotFound,
        code == 400 <==> r is BadRequest,
        (500 <= code <= 599) <==> r is ServerError,
        (200 <= code <= 299) <==> r is Success,
        r is OtherFailure <==> !(200 <= code <= 299 || 500 <= code <= 599 || code == 400
            || code == 401 || code == 403 || code == 404),
{
    if code == 401 {
        StatusClass::Unauthorized
    } else if code == 403 {
        StatusClass::Forbidden
    } else if code == 404 {
        StatusClass::NotFound
    } else if code == 400 {
        StatusClass::BadRequest
    } else if 500 <= code && code <= 599 {
        StatusClass::ServerError
    } else if 200 <= code && code <= 299 {
        StatusClass::Success
    } else {
        StatusClass::OtherFailure
    }
}

/// The error the token endpoint's caller reports for an HTTP status, or
/// `None` when the status is a success. `status_text` is the status as
/// displayed (`"500 Internal Server Error"`); `body` the response body.
pub fn proxy_token_status_error(code: u16, status_text: &str, body: &str) -> (r: Option<String>)
    ensures
        code == 401 ==> opt_str(r) == Some(
            "auth:Tu sesión ha expirado. Por favor cierra sesión y vuelve a iniciar."@,
        ),
        500 <= code <= 599 ==> opt_str(r) == Some(
            "server:Error del servidor al obtener credenciales de transcripción ("@
                + status_text@ + ")"@,
        ),
        200 <= code <= 299 ==> r is None,
        code != 401 && !(500 <= code <= 599) && !(200 <= code <= 299) ==> opt_str(r) == Some(
            "unknown:HTTP "@ + status_text@ + " - "@ + body@,
        ),
{
    if code == 401 {
        return Some(copy_str("auth:Tu sesión ha expirado. Por favor cierra sesión y vuelve a iniciar."));
    }
    if 500 <= code && code <= 599 {
        let mut m = copy_str("server:Error del servidor al obtener credenciales de transcripción (");
        push_str(&mut m, status_text);
        push_str(&mut m, ")");
        return Some(m);
    }
    if !(200 <= code && code <= 299) {
        let mut m = copy_str("unknown:HTTP ");
        push_str(&mut m, status_text);
        push_str(&mut m, " - ");
        push_str(&mut m, body);
        return Some(m);
    }
    None
}

/// The error reported when the token endpoint cannot be reached.
pub fn network_error_message(err: &str) -> (r: String)
    ensures
        r@ == "network:Error de conexión. Verifica tu internet e intenta de nuevo. ("@ + err@
            + ")"@,
{
    let mut m = copy_str("network:Error de conexión. Verifica tu internet e intenta de nuevo. (");
    push_str(&mut m, err);
    push_str(&mut m, ")");
    m
}

/// The error reported when the token endpoint's answer cannot be read.
pub fn invalid_answer_message(err: &str) -> (r: String)
    ensures
        r@ == "server:Respuesta del servidor inválida: "@ + err@,
{
    let mut m = copy_str("server:Respuesta del servidor inválida: ");
    push_str(&mut m, err);
    m
}

/// Credentials stored by `set_deepgram_proxy_config` at `now_ms` for `secs`
/// seconds are handed out by `get_cached_proxy_config` at an instant `t_ms`
/// exactly when they expire more than the refresh buffer after it: while
/// fewer than `secs` - 30 seconds have passed, and never where `secs` <= 30.
pub proof fn stored_credentials_window(
    proxy_base_url: String,
    jwt: String,
    secs: u64,
    now_ms: u64,
    t_ms: u64,
)
    ensures
        entry_valid(
            CachedProxyConfig { proxy_base_url, jwt, expires_at_ms: expiry_after(now_ms, secs) },
            t_ms,
        ) <==> t_ms + CONFIG_REFRESH_BUFFER_SECS * 1000 < now_ms + secs * 1000,
{
}

/// Credentials fetched at `now_ms` are handed out exactly until the refresh
/// buffer before their lifetime ends: at any instant `t_ms` before
/// `now_ms` + 270 s, and at none after.
pub proof fn fetched_credentials_window(proxy_base_url: String, jwt: String, now_ms: u64, t_ms: u64)
    ensures
        entry_valid(
            CachedProxyConfig {
                proxy_base_url,
                jwt,
                expires_at_ms: expiry_after(now_ms, JWT_TTL_SECS),
            },
            t_ms,
        ) <==> t_ms < now_ms + (JWT_TTL_SECS - CONFIG_REFRESH_BUFFER_SECS) * 1000,
{
}

/// The parts of a parsed URL that the library reads.
pub struct UrlParts {
    pub scheme: String,
    pub host: Option<String>,
    pub path: String,
    /// The decoded query pairs, in order.
    pub query_pairs: Vec<(String, String)>,
}

/// The plain view of a parsed URL: scheme, host, path, query pairs.
pub open spec fn url_parts_view(p: UrlParts) -> (
    Seq<char>,
    Option<Seq<char>>,
    Seq<char>,
    Seq<(Seq<char>, Seq<char>)>,
) {
    (
        p.scheme@,
        match p.host {
            Some(h) => Some(h@),
            None => None,
        },
        p.path@,
        p.query_pairs@.map_values(|kv: (String, String)| (kv.0@, kv.1@)),
    )
}

/// What `url::Url::parse` makes of a string, read through `scheme`,
/// `host_str`, `path` and `query_pairs`; or the text of its error.
pub uninterp spec fn url_parse_result(s: Seq<char>) -> Result<
    (Seq<char>, Option<Seq<char>>, Seq<char>, Seq<(Seq<char>, Seq<char>)>),
    Seq<char>,
>;

/// The view of a wrapper result.
pub open spec fn url_result_view(r: Result<UrlParts, String>) -> Result<
    (Seq<char>, Option<Seq<char>>, Seq<char>, Seq<(Seq<char>, Seq<char>)>),
    Seq<char>,
> {
    match r {
        Ok(p) => Ok(url_parts_view(p)),
        Err(e) => Err(e@),
    }
}

/// Calls `url::Url::parse` and reads the parts out of the result; an error
/// is turned into its text. The contract only names the result.
#[verifier::external_body]
pub(crate) fn parse_url(s: &str) -> (r: Result<UrlParts, String>)
    ensures
        url_result_view(r) == url_parse_result(s@),
{
    match url::Url::parse(s) {
        Ok(u) => Ok(UrlParts {
            scheme: u.scheme().to_string(),
            host: u.host_str().map(|h| h.to_string()),
            path: u.path().to_string(),
            query_pairs: u.query_pairs().map(|(k, v)| (k.to_string(), v.to_string())).collect(),
        }),
        Err(e) => Err(e.to_string()),
    }
}

/// The index of the first pair whose key is `key`.
pub open spec fn first_key_index(pairs: Seq<(Seq<char>, Seq<char>)>, key: Seq<char>) -> Option<int>
    decreases pairs.len(),
{
    if pairs.len() == 0 {
        None
    } else if pairs[0].0 == key {
        Some(0)
    } else {
        match first_key_index(pairs.drop_first(), key) {
            Some(i) => Some(i + 1),
            None => None,
        }
    }
}

/// The value of the first pair whose key is `key`.
pub open spec fn lookup_first(pairs: Seq<(Seq<char>, Seq<char>)>, key: Seq<char>) -> Option<
    Seq<char>,
> {
    match first_key_index(pairs, key) {
        Some(i) => Some(pairs[i].1),
        None => None,
    }
}

/// What `proxy_from_ws_url` returns for a parse result: the base URL
/// (scheme, `://`, host or nothing, path) and the `token` query value.
pub open spec fn proxy_from_parts(
    r: Result<(Seq<char>, Option<Seq<char>>, Seq<char>, Seq<(Seq<char>, Seq<char>)>), Seq<char>>,
) -> Result<(Seq<char>, Seq<char>), Seq<char>> {
    match r {
        Err(e) => Err("server:Respuesta del servidor inválida: URL malformada ("@ + e + ")"@),
        Ok(p) => match lookup_first(p.3, "token"@) {
            None => Err("server:Respuesta del servidor inválida: falta token en ws_url"@),
            Some(jwt) => Ok(
                (
                    p.0 + "://"@ + match p.1 {
                        Some(h) => h,
                        None => Seq::empty(),
                    } + p.2,
                    jwt,
                ),
            ),
        },
    }
}

fn find_token(pairs: &Vec<(String, String)>) -> (r: Option<String>)
    ensures
        (match r {
            Some(v) => Some(v@),
            None => None,
        }) == lookup_first(pairs@.map_values(|kv: (String, String)| (kv.0@, kv.1@)), "token"@),
{
    let ghost ps = pairs@.map_values(|kv: (String, String)| (kv.0@, kv.1@));
    let mut i: usize = 0;
    assert(ps.skip(0) =~= ps);
    while i < pairs.len()
        invariant
            ps == pairs@.map_values(|kv: (String, String)| (kv.0@, kv.1@)),
            i <= pairs.len(),
            first_key_index(ps, "token"@) == match first_key_index(ps.skip(i as int), "token"@) {
                Some(k) => Some(k + i),
                None => None,
            },
        decreases pairs.len() - i,
    {
        let ghost rest = ps.skip(i as int);
        assert(rest[0] == ps[i as int]);
        assert(rest.drop_first() =~= ps.skip(i + 1));
        if str_eq(pairs[i].0.as_str(), "token") {
            return Some(pairs[i].1.clone());
        }
        i += 1;
    }
    assert(ps.skip(i as int) =~= Seq::<(Seq<char>, Seq<char>)>::empty());
    None
}

/// The proxy base URL (scheme, host and path, no query) and the `token`
/// query value, from the parse result of the WebSocket URL; the errors of
/// `proxy_from_parts` where the URL did not parse or has no token.
pub fn proxy_from_parsed(parsed: Result<UrlParts, String>) -> (r: Result<(String, String), String>)
    ensures
        (match r {
            Ok(p) => Ok((p.0@, p.1@)),
            Err(e) => Err(e@),
        }) == proxy_from_parts(url_result_view(parsed)),
{
    match parsed {
        Err(e) => {
            let mut m = copy_str("server:Respuesta del servidor inválida: URL malformada (");
            push_str(&mut m, e.as_str());
            push_str(&mut m, ")");
            Err(m)
        },
        Ok(parts) => {
            match find_token(&parts.query_pairs) {
                None => Err(copy_str("server:Respuesta del servidor inválida: falta token en ws_url")),
                Some(jwt) => {
                    let mut base = parts.scheme.clone();
                    push_str(&mut base, "://");
                    match &parts.host {
                        Some(h) => push_str(&mut base, h.as_str()),
                        None => {},
                    }
                    push_str(&mut base, parts.path.as_str());
                    Ok((base, jwt))
                },
            }
        },
    }
}

/// Splits the WebSocket URL returned by the token endpoint into the proxy
/// base URL (scheme, host and path, no query) and the `token` query value.
pub fn proxy_from_ws_url(ws_url: &str) -> (r: Result<(String, String), String>)
    ensures
        (match r {
            Ok(p) => Ok((p.0@, p.1@)),
            Err(e) => Err(e@),
        }) == proxy_from_parts(url_parse_result(ws_url@)),
{
    proxy_from_parsed(parse_url(ws_url))
}

/// The host of a URL for the `Host` header: the parsed host, or
/// `localhost` when the URL does not parse or has none.
pub fn websocket_host(url: &str) -> (r: String)
    ensures
        r@ == match url_parse_result(url@) {
            Ok(p) => match p.1 {
                Some(h) => h,
                None => "localhost"@,
            },
            Err(_) => "localhost"@,
        },
{
    match parse_url(url) {
        Ok(parts) => match parts.host {
            Some(h) => h,
            None => copy_str("localhost"),
        },
        Err(_) => copy_str("localhost"),
    }
}

} // verus!
