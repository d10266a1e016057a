use maity::engines::{
    check_local_engine, choose_whisper_model, deepgram_pair, effective_config, engine_for_provider,
    init_failure_message, load_failure_message, readiness_check, whisper_model_to_load,
    whisper_reuse, EngineKind, ReadinessCheck, TranscriptConfig, WhisperReuse,
};
use maity::engines::{is_streaming_provider, provider_name, stream_for_device, StreamSide};
use maity::moonshine::ModelStatus;
use maity::recording::DeviceType;

fn config(provider: &str, model: &str, language: Option<&str>) -> TranscriptConfig {
    TranscriptConfig {
        provider: provider.to_string(),
        model: model.to_string(),
        api_key: None,
        language: language.map(|l| l.to_string()),
    }
}

#[test]
fn missing_settings_mean_parakeet() {
    let c = effective_config(Ok(None));
    assert_eq!(c.provider, "parakeet");
    assert_eq!(c.model, "parakeet-tdt-0.6b-v3-int8");
    assert_eq!(c.language.as_deref(), Some("es-419"));
    let c = effective_config(Err("db".to_string()));
    assert_eq!(c.provider, "parakeet");
    let c = effective_config(Ok(Some(config("deepgram", "nova-2", None))));
    assert_eq!(c.model, "nova-2");
}

#[test]
fn providers_name_engines() {
    assert_eq!(engine_for_provider("moonshine"), EngineKind::Moonshine);
    assert_eq!(engine_for_provider("deepgram"), EngineKind::Deepgram);
    assert_eq!(engine_for_provider("localWhisper"), EngineKind::Whisper);
    assert_eq!(engine_for_provider("anything"), EngineKind::Whisper);
}

#[test]
fn readiness() {
    assert_eq!(
        readiness_check("parakeet", false).ok().unwrap(),
        ReadinessCheck::LocalModel(EngineKind::Parakeet)
    );
    assert_eq!(readiness_check("deepgram", true).ok().unwrap(), ReadinessCheck::Ready);
    assert_eq!(
        readiness_check("deepgram", false).err().unwrap(),
        "Configuración de Deepgram no disponible. Por favor asegúrate de estar autenticado con tu cuenta de Google."
    );
    assert_eq!(
        readiness_check("openai", true).err().unwrap(),
        "El proveedor 'openai' no es compatible. Por favor selecciona 'deepgram', 'localWhisper', 'parakeet', o 'moonshine'."
    );
    assert_eq!(
        init_failure_message(EngineKind::Moonshine, "boom"),
        "Failed to initialize Moonshine speech recognition: boom"
    );
    assert_eq!(
        check_local_engine("Parakeet", true, false).err().unwrap(),
        "Parakeet engine initialized but no model loaded. This should not happen after validation."
    );
    assert!(check_local_engine("Parakeet", true, true).is_ok());
}

#[test]
fn cloud_pair_uses_model_and_language_defaults() {
    let (mic, sys) = deepgram_pair("wss://p".to_string(), "j".to_string(), &config("deepgram", "deepgram", Some("")));
    assert_eq!(mic.source_label.as_deref(), Some("user"));
    assert_eq!(sys.source_label.as_deref(), Some("interlocutor"));
    assert_eq!(mic.config.model, "nova-3");
    assert_eq!(sys.config.language, "es-419");
    let (mic, _) = deepgram_pair("wss://p".to_string(), "j".to_string(), &config("deepgram", "nova-2", Some("en")));
    assert_eq!(mic.config.model, "nova-2");
    assert_eq!(mic.config.language, "en");
    assert_eq!(mic.config.jwt.as_deref(), Some("j"));
}

#[test]
fn whisper_reuse_and_target() {
    let saved = Ok(Some(config("localWhisper", "medium", None)));
    assert_eq!(whisper_reuse(false, None, &saved), WhisperReuse::Load);
    assert_eq!(whisper_reuse(true, Some("medium".to_string()), &saved), WhisperReuse::Reuse);
    assert_eq!(whisper_reuse(true, Some("small".to_string()), &saved), WhisperReuse::Reload);
    assert_eq!(whisper_reuse(true, None, &Ok(None)), WhisperReuse::Reuse);
    assert_eq!(whisper_model_to_load(&saved).ok().unwrap(), "medium");
    assert_eq!(whisper_model_to_load(&Ok(None)).ok().unwrap(), "small");
    assert_eq!(
        whisper_model_to_load(&Ok(Some(config("parakeet", "p", None)))).err().unwrap(),
        "Cannot initialize Whisper engine: Config uses 'parakeet' provider. This is a bug in the transcription task initialization."
    );
}

#[test]
fn whisper_model_choice() {
    let models = vec![
        ("tiny".to_string(), ModelStatus::Missing),
        ("base".to_string(), ModelStatus::Available),
        ("small".to_string(), ModelStatus::Downloading { progress: 30 }),
    ];
    let c = choose_whisper_model(&models, "base").ok().unwrap();
    assert_eq!(c.name, "base");
    assert!(!c.fallback);
    assert_eq!(
        choose_whisper_model(&models, "small").err().unwrap(),
        "Model 'small' is currently downloading (30%). Please wait for it to complete."
    );
    assert_eq!(
        choose_whisper_model(&models, "tiny").err().unwrap(),
        "Model 'tiny' is not downloaded. Please download it first from the settings."
    );
    let c = choose_whisper_model(&models, "large").ok().unwrap();
    assert_eq!(c.name, "base");
    assert!(c.fallback);
    assert_eq!(load_failure_message(&c, "oom"), "Failed to load fallback model 'base': oom");
    let none = vec![("tiny".to_string(), ModelStatus::Missing)];
    assert_eq!(
        choose_whisper_model(&none, "large").err().unwrap(),
        "Model 'large' is not supported and no other models are available. Please download a model from the settings."
    );
}

#[test]
fn parakeet_fallback() {
    assert_eq!(
        maity::engines::check_parakeet_fallback(false, false).err().unwrap(),
        "Parakeet engine not available for fallback. Please ensure a local transcription model is downloaded."
    );
    assert_eq!(
        maity::engines::check_parakeet_fallback(true, false).err().unwrap(),
        "Parakeet engine initialized but no model loaded for fallback."
    );
    assert!(maity::engines::check_parakeet_fallback(true, true).is_ok());
}

#[test]
fn engine_names_and_stream_routing() {
    assert_eq!(provider_name(EngineKind::Deepgram), "Deepgram (streaming)");
    assert_eq!(provider_name(EngineKind::Moonshine), "Moonshine (direct)");
    assert!(is_streaming_provider(EngineKind::Deepgram));
    assert!(!is_streaming_provider(EngineKind::Whisper));
    assert_eq!(stream_for_device(EngineKind::Deepgram, DeviceType::System).ok(), Some(StreamSide::System));
    assert!(stream_for_device(EngineKind::Parakeet, DeviceType::Microphone).is_err());
    assert!(stream_for_device(EngineKind::Deepgram, DeviceType::Mixed).is_err());
}

#[test]
fn both_cloud_transcribers_get_the_proxy_audio_format() {
    let (mic, sys) = deepgram_pair("wss://p".to_string(), "j".to_string(), &config("deepgram", "nova-3", None));
    for t in [&mic, &sys] {
        assert_eq!(t.config.encoding, "linear16");
        assert_eq!(t.config.sample_rate, 16000);
        assert_eq!(t.config.channels, 1);
        assert!(t.config.punctuate);
        assert!(t.config.interim_results);
        assert_eq!(t.connection_generation, 0);
        assert!(t.interim_text.is_empty());
        assert!(!t.is_connected);
    }
}
