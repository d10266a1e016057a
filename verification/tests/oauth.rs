use maity::oauth::{
    callback_page, content_length, html_response, json_response, preflight_response,
    reads_body, request_complete, route_reply, route_request, serve_route, tokens_response,
    AuthRoute,
    AuthTokens, PendingAuth,
};

#[test]
fn callback_with_code() {
    let req = "GET /auth/callback?state=x&code=abc123 HTTP/1.1\r\nHost: 127.0.0.1\r\n\r\n";
    match route_request(req).unwrap() {
        AuthRoute::Code(c) => assert_eq!(c, "abc123"),
        _ => panic!("expected a code"),
    }
}

#[test]
fn callback_without_usable_code_serves_the_page() {
    for req in [
        "GET /auth/callback HTTP/1.1\r\n\r\n",
        "GET /auth/callback?code= HTTP/1.1\r\n\r\n",
        "GET /auth/callback?code&code=late HTTP/1.1\r\n\r\n",
        "GET /auth/callback#access_token=x HTTP/1.1\r\n\r\n",
    ] {
        assert!(matches!(route_request(req).unwrap(), AuthRoute::CallbackPage), "{}", req);
    }
}

#[test]
fn posted_tokens_and_other_routes() {
    let req = "POST /auth/tokens HTTP/1.1\r\nContent-Length: 11\r\n\r\n{\"a\":\"b\"}\r\n";
    match route_request(req).unwrap() {
        AuthRoute::Tokens(body) => assert_eq!(body, "{\"a\":\"b\"}\r\n"),
        _ => panic!("expected tokens"),
    }
    assert!(matches!(route_request("POST /auth/tokens HTTP/1.1").unwrap(), AuthRoute::MissingBody));
    assert!(matches!(route_request("OPTIONS /auth/tokens HTTP/1.1\r\n\r\n").unwrap(), AuthRoute::Preflight));
    assert!(matches!(route_request("GET /favicon.ico HTTP/1.1\r\n\r\n").unwrap(), AuthRoute::NotFound));
    assert!(route_request("").is_none());
    assert!(route_request("GET\r\n\r\n").is_none());
}

#[test]
fn declared_body_length() {
    assert_eq!(content_length("POST / HTTP/1.1\r\nHost: x\r\nContent-Length:  42 "), 42);
    assert_eq!(content_length("POST / HTTP/1.1\r\ncontent-length: +7"), 7);
    assert_eq!(content_length("content-length: x\ncontent-length: 3"), 3);
    assert_eq!(content_length("POST / HTTP/1.1\r\nHost: x"), 0);
}

#[test]
fn request_completeness() {
    let head = "POST /auth/tokens HTTP/1.1\r\nContent-Length: 4\r\n\r\n";
    let partial = format!("{}ab", head);
    assert!(!request_complete(&partial, partial.len()));
    let full = format!("{}abcd", head);
    assert!(request_complete(&full, full.len()));
    assert!(!request_complete("POST /auth/tokens HTTP/1.1\r\n", 27));
    assert!(reads_body("POST /x"));
    assert!(!reads_body("GET /x"));
}

#[test]
fn replies() {
    assert_eq!(
        json_response(404, "Not Found"),
        "HTTP/1.1 404 Not Found\r\nContent-Type: application/json\r\nAccess-Control-Allow-Origin: *\r\nContent-Length: 9\r\nConnection: close\r\n\r\nNot Found"
    );
    assert!(json_response(418, "x").starts_with("HTTP/1.1 418 Unknown\r\n"));
    let html = html_response("¡hola!");
    assert!(html.contains("Content-Length: 7\r\n"));
    assert!(html.ends_with("\r\n\r\n¡hola!"));
    assert!(preflight_response().starts_with("HTTP/1.1 204 No Content\r\n"));
    assert_eq!(
        callback_page("fetch('http://127.0.0.1:OAUTH_PORT/auth/tokens') OAUTH_PORT"),
        "fetch('http://127.0.0.1:17823/auth/tokens') 17823"
    );
    let (reply, stop) = tokens_response(true, true);
    assert!(stop);
    assert!(reply.ends_with("{\"ok\":true}"));
    let (reply, stop) = tokens_response(false, true);
    assert!(!stop);
    assert!(reply.starts_with("HTTP/1.1 400 Bad Request"));
    assert!(reply.ends_with("Invalid JSON"));
    assert!(tokens_response(true, false).0.ends_with("Internal error"));
    assert!(route_reply(&AuthRoute::MissingBody).unwrap().ends_with("Missing body"));
    assert!(route_reply(&AuthRoute::Preflight).is_none());
}

#[test]
fn pending_sign_in_data_is_handed_out_once() {
    let mut p = PendingAuth::new();
    assert!(p.get_pending_auth_code().is_none());
    p.store_code("c1".to_string());
    p.store_tokens(AuthTokens { access_token: "a".to_string(), refresh_token: "r".to_string() });
    assert_eq!(p.get_pending_auth_code().as_deref(), Some("c1"));
    assert!(p.get_pending_auth_code().is_none());
    let t = p.get_pending_auth_tokens().unwrap();
    assert_eq!(t.access_token, "a");
    assert!(p.get_pending_auth_tokens().is_none());
}

#[test]
fn a_code_is_kept_answered_and_ends_the_server() {
    let mut pending = PendingAuth::new();
    let (reply, stop) =
        serve_route(&mut pending, AuthRoute::Code("c1".to_string()), None, true, "T", "<p>ok</p>");
    assert!(stop);
    assert_eq!(reply, html_response("<p>ok</p>"));
    assert_eq!(pending.get_pending_auth_code(), Some("c1".to_string()));
}

#[test]
fn other_routes_keep_the_server_running() {
    let mut pending = PendingAuth::new();
    let (reply, stop) =
        serve_route(&mut pending, AuthRoute::CallbackPage, None, true, "port OAUTH_PORT", "S");
    assert!(!stop);
    assert_eq!(reply, html_response("port 17823"));
    let (reply, stop) = serve_route(&mut pending, AuthRoute::Preflight, None, true, "T", "S");
    assert!(!stop);
    assert_eq!(reply, preflight_response());
    let (reply, stop) = serve_route(&mut pending, AuthRoute::NotFound, None, true, "T", "S");
    assert!(!stop);
    assert_eq!(reply, json_response(404, "Not Found"));
    let (reply, stop) = serve_route(&mut pending, AuthRoute::MissingBody, None, true, "T", "S");
    assert!(!stop);
    assert_eq!(reply, json_response(400, "Missing body"));
    let (reply, stop) =
        serve_route(&mut pending, AuthRoute::Tokens("{".to_string()), None, true, "T", "S");
    assert!(!stop);
    assert_eq!(reply, json_response(400, "Invalid JSON"));
    assert!(pending.get_pending_auth_code().is_none());
    assert!(pending.get_pending_auth_tokens().is_none());
}

#[test]
fn posted_tokens_are_kept_and_end_the_server_once_delivered() {
    let mut pending = PendingAuth::new();
    let tokens = AuthTokens { access_token: "a".to_string(), refresh_token: "r".to_string() };
    let (reply, stop) = serve_route(
        &mut pending,
        AuthRoute::Tokens("{}".to_string()),
        Some(tokens.clone()),
        false,
        "T",
        "S",
    );
    assert!(!stop);
    assert_eq!(reply, json_response(500, "Internal error"));
    let (reply, stop) =
        serve_route(&mut pending, AuthRoute::Tokens("{}".to_string()), Some(tokens), true, "T", "S");
    assert!(stop);
    assert_eq!(reply, json_response(200, "{\"ok\":true}"));
    assert_eq!(pending.get_pending_auth_tokens().unwrap().access_token, "a");
}
