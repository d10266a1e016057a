use maity::deepgram::{
    base64_encode, check_audio_length, generate_websocket_key, reconnect_delay_after,
    DeepgramConfig, DeepgramRealtimeTranscriber, DeepgramResponse, ReaderAction, ReaderEvent,
    TranscriptionError, MINIMUM_SAMPLES,
};

#[test]
fn test_config_default() {
    let config = DeepgramConfig::default();
    assert_eq!(config.model, "nova-3");
    assert_eq!(config.language, "es-419");
    assert_eq!(config.sample_rate, 16000);
    assert!(config.proxy_base_url.is_none());
    assert!(config.jwt.is_none());
}

#[test]
fn test_websocket_url_building_with_proxy() {
    let transcriber = DeepgramRealtimeTranscriber::with_proxy(
        "wss://maity-deepgram-proxy.jagv-1390.workers.dev".to_string(),
        "test_jwt_token".to_string(),
    );
    let url = transcriber.build_websocket_url(None, None).unwrap();

    assert!(url.starts_with("wss://maity-deepgram-proxy.jagv-1390.workers.dev?"));
    assert!(url.contains("token=test_jwt_token"));
    assert!(url.contains("model=nova-3"));
    assert!(url.contains("language=es-419"));
    assert!(url.contains("sample_rate=16000"));
    assert!(url.contains("encoding=linear16"));
}

#[test]
fn test_websocket_url_with_language_override() {
    let transcriber = DeepgramRealtimeTranscriber::with_proxy(
        "wss://proxy.example.com".to_string(),
        "jwt".to_string(),
    );
    let url = transcriber.build_websocket_url(Some("en"), None).unwrap();

    assert!(url.contains("language=en"));
}

#[test]
fn test_websocket_url_none_without_config() {
    let transcriber = DeepgramRealtimeTranscriber::with_config(DeepgramConfig::default());
    let url = transcriber.build_websocket_url(None, None);
    assert!(url.is_none());
}

#[test]
fn test_model_loaded_without_proxy() {
    let transcriber = DeepgramRealtimeTranscriber::with_config(DeepgramConfig::default());
    assert!(!transcriber.is_model_loaded());
}

#[test]
fn test_model_loaded_with_proxy() {
    let transcriber = DeepgramRealtimeTranscriber::with_proxy(
        "wss://proxy.example.com".to_string(),
        "jwt".to_string(),
    );
    assert!(transcriber.is_model_loaded());
}

#[test]
fn test_provider_name() {
    let transcriber = DeepgramRealtimeTranscriber::with_proxy(
        "wss://proxy.example.com".to_string(),
        "jwt".to_string(),
    );
    assert_eq!(transcriber.provider_name(), "Deepgram");
}

#[test]
fn test_audio_too_short() {
    let result = check_audio_length(100);
    assert!(matches!(result, Err(TranscriptionError::AudioTooShort { .. })));
}

#[test]
fn audio_of_minimum_length_is_accepted() {
    assert!(check_audio_length(MINIMUM_SAMPLES).is_ok());
    match check_audio_length(1599) {
        Err(TranscriptionError::AudioTooShort { samples, minimum }) => {
            assert_eq!(samples, 1599);
            assert_eq!(minimum, 1600);
        }
        _ => panic!("expected AudioTooShort"),
    }
}

#[test]
fn websocket_url_is_exact() {
    let transcriber = DeepgramRealtimeTranscriber::with_proxy(
        "wss://proxy.example.com".to_string(),
        "abc".to_string(),
    );
    let url = transcriber.build_websocket_url(None, None).unwrap();
    assert_eq!(
        url,
        "wss://proxy.example.com?token=abc&model=nova-3&language=es-419&encoding=linear16&sample_rate=16000&channels=1&punctuate=true&interim_results=true&endpointing=200&vad_events=true"
    );
}

#[test]
fn websocket_url_prefers_cached_token_and_maps_auto_language() {
    let transcriber = DeepgramRealtimeTranscriber::with_proxy(
        "wss://proxy.example.com".to_string(),
        "old".to_string(),
    );
    let cached = Some(("wss://other".to_string(), "fresh".to_string()));
    let url = transcriber.build_websocket_url(Some("auto"), cached).unwrap();
    assert!(url.contains("token=fresh"));
    assert!(!url.contains("token=old"));
    assert!(url.contains("language=multi"));
    assert!(url.starts_with("wss://proxy.example.com?"));
}

#[test]
fn reconnect_waits_a_second_then_gives_up() {
    assert_eq!(reconnect_delay_after(1), Some(1000));
    assert_eq!(reconnect_delay_after(2), Some(1000));
    assert_eq!(reconnect_delay_after(3), None);
}

#[test]
fn base64_matches_rfc_vectors() {
    assert_eq!(base64_encode(b""), "");
    assert_eq!(base64_encode(b"f"), "Zg==");
    assert_eq!(base64_encode(b"fo"), "Zm8=");
    assert_eq!(base64_encode(b"foo"), "Zm9v");
    assert_eq!(base64_encode(b"foob"), "Zm9vYg==");
    assert_eq!(base64_encode(b"fooba"), "Zm9vYmE=");
    assert_eq!(base64_encode(b"foobar"), "Zm9vYmFy");
    assert_eq!(base64_encode(&[0xff, 0xfe, 0xfd]), "//79");
}

#[test]
fn websocket_key_is_sixteen_random_bytes_in_base64() {
    let a = generate_websocket_key();
    let b = generate_websocket_key();
    assert_eq!(a.len(), 24);
    assert!(a.ends_with("=="));
    assert_ne!(a, b);
}

fn response(text: &str, is_final: Option<bool>, speech_final: Option<bool>) -> ReaderEvent {
    ReaderEvent::Text(Some(DeepgramResponse {
        transcript: Some(text.to_string()),
        is_final,
        speech_final,
    }))
}

#[test]
fn reader_emits_interim_then_final_results() {
    let mut t = DeepgramRealtimeTranscriber::with_proxy("wss://p".to_string(), "j".to_string());
    let generation = t.begin_connection();
    assert_eq!(generation, 1);
    assert!(t.is_connected);
    match t.reader_step(generation, response("hola", Some(false), None)) {
        ReaderAction::EmitInterim(s) => assert_eq!(s, "hola"),
        _ => panic!("expected an interim result"),
    }
    assert_eq!(t.interim_text, "hola");
    match t.reader_step(generation, response("hola mundo", None, Some(true))) {
        ReaderAction::EmitFinal(s) => assert_eq!(s, "hola mundo"),
        _ => panic!("expected a final result"),
    }
    assert_eq!(t.interim_text, "");
    assert!(matches!(t.reader_step(generation, response("", Some(true), None)), ReaderAction::Ignore));
    assert!(matches!(t.reader_step(generation, ReaderEvent::Other), ReaderAction::Ignore));
    assert!(matches!(t.reader_step(generation, ReaderEvent::Close), ReaderAction::Stop));
}

#[test]
fn reader_of_an_older_connection_stops() {
    let mut t = DeepgramRealtimeTranscriber::with_proxy("wss://p".to_string(), "j".to_string());
    let first = t.begin_connection();
    let second = t.begin_connection();
    assert_eq!(second, first + 1);
    assert!(matches!(t.reader_step(first, response("x", Some(true), None)), ReaderAction::Stop));
    t.mark_disconnected();
    assert!(!t.is_connected);
}

#[test]
fn token_refresh_and_reader_end() {
    let mut t = DeepgramRealtimeTranscriber::with_proxy("wss://p".to_string(), "old".to_string());
    t.set_proxy_jwt("new".to_string());
    assert_eq!(t.config.jwt.as_deref(), Some("new"));
    assert_eq!(t.get_current_model().as_deref(), Some("nova-3"));
    t.begin_connection();
    t.reader_finished();
    assert!(!t.is_connected);
}

#[test]
fn connection_url_and_handshake() {
    let unconfigured = DeepgramRealtimeTranscriber::with_config(DeepgramConfig::default());
    match unconfigured.connection_url(None, None) {
        Err(TranscriptionError::EngineFailed(m)) => {
            assert_eq!(m, "Deepgram proxy not configured (no proxy_base_url or jwt)")
        }
        _ => panic!("expected an error"),
    }
    let t = DeepgramRealtimeTranscriber::with_proxy("wss://proxy.example.com".to_string(), "j".to_string());
    let url = t.connection_url(Some("en"), None).ok().unwrap();
    assert!(url.starts_with("wss://proxy.example.com?token=j&model=nova-3&language=en&"));
    let headers = maity::deepgram::handshake_headers(&url);
    assert_eq!(headers[0], ("Host".to_string(), "proxy.example.com".to_string()));
    assert_eq!(headers[3], ("Sec-WebSocket-Version".to_string(), "13".to_string()));
    assert_eq!(headers[4].0, "Sec-WebSocket-Key");
    assert_eq!(headers[4].1.len(), 24);
    assert_eq!(maity::deepgram::keep_alive_message(), "{\"type\":\"KeepAlive\"}");
    assert_eq!(maity::deepgram::close_stream_message(), "{\"type\": \"CloseStream\"}");
}
