use maity::finalize::{finalize_network_error, finalize_status_error, invalid_response_error};
use maity::proxy::{
    classify_status, clear_deepgram_proxy_config, get_cached_proxy_config,
    get_deepgram_proxy_config, has_cached_proxy_config, has_valid_deepgram_proxy_config,
    network_error_message, proxy_from_parsed, proxy_from_ws_url, proxy_token_status_error,
    set_deepgram_proxy_config, store_fetched_proxy_config, websocket_host, ProxyConfigCache,
    StatusClass, UrlParts,
};

#[test]
fn cached_credentials_are_read_back_until_the_refresh_buffer() {
    let mut cache = ProxyConfigCache::new();
    assert!(get_cached_proxy_config(&cache, 0).is_none());
    set_deepgram_proxy_config(&mut cache, "wss://p".to_string(), "jwt".to_string(), 300, 1_000)
        .unwrap();
    let (url, jwt) = get_cached_proxy_config(&cache, 1_000).unwrap();
    assert_eq!(url, "wss://p");
    assert_eq!(jwt, "jwt");
    // Expires at 301_000 ms; valid while more than 30 s remain.
    assert!(has_cached_proxy_config(&cache, 270_999));
    assert!(!has_cached_proxy_config(&cache, 271_000));
    let c = get_deepgram_proxy_config(&cache, 101_000).unwrap();
    assert_eq!(c.expires_in, 200);
    clear_deepgram_proxy_config(&mut cache);
    assert!(!has_valid_deepgram_proxy_config(&cache, 1_000));
}

#[test]
fn empty_credentials_are_refused() {
    let mut cache = ProxyConfigCache::new();
    assert_eq!(
        set_deepgram_proxy_config(&mut cache, String::new(), "j".to_string(), 10, 0).err().unwrap(),
        "Proxy base URL cannot be empty"
    );
    assert_eq!(
        set_deepgram_proxy_config(&mut cache, "u".to_string(), String::new(), 10, 0).err().unwrap(),
        "JWT cannot be empty"
    );
    assert!(cache.entry.is_none());
}

#[test]
fn fetched_credentials_live_five_minutes() {
    let mut cache = ProxyConfigCache::new();
    let c = store_fetched_proxy_config(&mut cache, "wss://p/".to_string(), "t".to_string(), 0);
    assert_eq!(c.expires_in, 300);
    assert_eq!(cache.entry.as_ref().unwrap().expires_at_ms, 300_000);
    assert!(has_cached_proxy_config(&cache, 269_999));
    assert!(!has_cached_proxy_config(&cache, 270_000));
}

#[test]
fn status_classes() {
    assert!(matches!(classify_status(200), StatusClass::Success));
    assert!(matches!(classify_status(401), StatusClass::Unauthorized));
    assert!(matches!(classify_status(503), StatusClass::ServerError));
    assert!(matches!(classify_status(302), StatusClass::OtherFailure));
}

#[test]
fn token_endpoint_errors() {
    assert!(proxy_token_status_error(200, "200 OK", "").is_none());
    assert_eq!(
        proxy_token_status_error(401, "401 Unauthorized", "").unwrap(),
        "auth:Tu sesión ha expirado. Por favor cierra sesión y vuelve a iniciar."
    );
    assert_eq!(
        proxy_token_status_error(502, "502 Bad Gateway", "x").unwrap(),
        "server:Error del servidor al obtener credenciales de transcripción (502 Bad Gateway)"
    );
    assert_eq!(
        proxy_token_status_error(404, "404 Not Found", "nope").unwrap(),
        "unknown:HTTP 404 Not Found - nope"
    );
    assert_eq!(
        network_error_message("timed out"),
        "network:Error de conexión. Verifica tu internet e intenta de nuevo. (timed out)"
    );
}

#[test]
fn ws_url_is_split_into_base_and_token() {
    let (base, jwt) =
        proxy_from_ws_url("wss://proxy.workers.dev/listen?model=nova-3&token=abc.def&token=zzz")
            .unwrap();
    assert_eq!(base, "wss://proxy.workers.dev/listen");
    assert_eq!(jwt, "abc.def");
    let (base, _) = proxy_from_ws_url("wss://proxy.workers.dev?token=J").unwrap();
    assert_eq!(base, "wss://proxy.workers.dev/");
    assert_eq!(
        proxy_from_ws_url("wss://proxy.workers.dev?model=x").err().unwrap(),
        "server:Respuesta del servidor inválida: falta token en ws_url"
    );
    let bad = proxy_from_ws_url("not a url").err().unwrap();
    assert!(bad.starts_with("server:Respuesta del servidor inválida: URL malformada ("));
    assert_eq!(websocket_host("wss://api.deepgram.com/v1/listen"), "api.deepgram.com");
    assert_eq!(websocket_host("garbage"), "localhost");
}

#[test]
fn finalize_errors() {
    assert!(finalize_status_error(200, "200 OK", "c1", "").is_none());
    assert_eq!(
        finalize_status_error(404, "404 Not Found", "c1", "").unwrap(),
        "not_found:Conversación c1 no encontrada."
    );
    assert_eq!(
        finalize_status_error(400, "400 Bad Request", "c1", "empty").unwrap(),
        "validation:La conversación no tiene segmentos de transcripción. (empty)"
    );
    assert_eq!(
        finalize_status_error(403, "403 Forbidden", "c1", "").unwrap(),
        "auth:No tienes permiso para analizar esta conversación."
    );
    assert_eq!(
        finalize_network_error("dns"),
        "network:Error de conexión al analizar conversación. Verifica tu internet. (dns)"
    );
    assert_eq!(invalid_response_error("eof"), "server:Respuesta del servidor inválida: eof");
}

#[test]
fn unreadable_answer_message() {
    assert_eq!(
        maity::proxy::invalid_answer_message("expected value"),
        "server:Respuesta del servidor inválida: expected value"
    );
}

#[test]
fn the_proxy_is_read_from_the_parsed_url() {
    let parts = UrlParts {
        scheme: "wss".to_string(),
        host: Some("proxy.example.com".to_string()),
        path: "/v1/listen".to_string(),
        query_pairs: vec![
            ("a".to_string(), "1".to_string()),
            ("token".to_string(), "jwt-1".to_string()),
            ("token".to_string(), "jwt-2".to_string()),
        ],
    };
    assert_eq!(
        proxy_from_parsed(Ok(parts)).unwrap(),
        ("wss://proxy.example.com/v1/listen".to_string(), "jwt-1".to_string())
    );
    let no_token = UrlParts {
        scheme: "wss".to_string(),
        host: None,
        path: "/x".to_string(),
        query_pairs: Vec::new(),
    };
    assert_eq!(
        proxy_from_parsed(Ok(no_token)).unwrap_err(),
        "server:Respuesta del servidor inválida: falta token en ws_url"
    );
    assert_eq!(
        proxy_from_parsed(Err("relative URL without a base".to_string())).unwrap_err(),
        "server:Respuesta del servidor inválida: URL malformada (relative URL without a base)"
    );
}

#[test]
fn long_lived_credentials_are_kept_to_the_end_of_the_clock() {
    let mut cache = ProxyConfigCache::new();
    set_deepgram_proxy_config(&mut cache, "wss://p".to_string(), "j".to_string(), u64::MAX, u64::MAX - 5)
        .unwrap();
    assert!(get_cached_proxy_config(&cache, u64::MAX).is_some());
    let c = get_deepgram_proxy_config(&cache, u64::MAX - 5).unwrap();
    assert_eq!(c.expires_in, u64::MAX);
}
