//! Choosing and checking the transcription engine: the configuration in
//! force, which engine a provider names, what must hold before a recording
//! may start, how the cloud engine pair is set up, and which local model to
//! load.
use vstd::prelude::*;
use crate::deepgram::{DeepgramRealtimeTranscriber, TranscriptionError};
use crate::recording::DeviceType;
use crate::moonshine::ModelStatus;
use crate::num::{decimal, push_decimal};
use crate::text::{copy_str, push_str, str_eq};

verus! {

/// The transcription settings: provider, model, key and language.
pub struct TranscriptConfig {
    pub provider: String,
    pub model: String,
    pub api_key: Option<String>,
    pub language: Option<String>,
}

/// The settings used when none are saved: the local Parakeet model, in
/// Latin American Spanish.
pub open spec fn is_default_config(c: TranscriptConfig) -> bool {
    &&& c.provider@ == "parakeet"@
    &&& c.model@ == "parakeet-tdt-0.6b-v3-int8"@
    &&& c.api_key is None
    &&& c.language matches Some(l) && l@ == "es-419"@
}

/// The settings in force: the saved ones, or the default ones when none are
/// saved or they could not be read.
pub fn effective_config(saved: Result<Option<TranscriptConfig>, String>) -> (r: TranscriptConfig)
    ensures
        match saved {
            Ok(Some(c)) => r == c,
            _ => is_default_config(r),
        },
{
    match saved {
        Ok(Some(c)) => c,
        _ => TranscriptConfig {
            provider: copy_str("parakeet"),
            model: copy_str("parakeet-tdt-0.6b-v3-int8"),
            api_key: None,
            language: Some(copy_str("es-419")),
        },
    }
}

/// The engines a provider can name.
#[derive(Clone, Copy, Debug, PartialEq, Eq, Structural)]
pub enum EngineKind {
    Whisper,
    Parakeet,
    Moonshine,
    Deepgram,
}

/// The engine a provider names; any other provider means Whisper.
pub open spec fn engine_of(provider: Seq<char>) -> EngineKind {
    if provider == "parakeet"@ {
        EngineKind::Parakeet
    } else if provider == "moonshine"@ {
        EngineKind::Moonshine
    } else if provider == "deepgram"@ {
        EngineKind::Deepgram
    } else {
        EngineKind::Whisper
    }
}

/// The engine that serves a provider.
pub fn engine_for_provider(provider: &str) -> (r: EngineKind)
    ensures
        r == engine_of(provider@),
{
    if str_eq(provider, "parakeet") {
        EngineKind::Parakeet
    } else if str_eq(provider, "moonshine") {
        EngineKind::Moonshine
    } else if str_eq(provider, "deepgram") {
        EngineKind::Deepgram
    } else {
        EngineKind::Whisper
    }
}

/// Each engine serves exactly the provider that bears its name: "parakeet"
/// and nothing else gets Parakeet, "moonshine" Moonshine, "deepgram" the
/// cloud engine, and every other provider Whisper.
pub proof fn each_provider_gets_its_engine(provider: Seq<char>)
    ensures
        engine_of(provider) == EngineKind::Parakeet <==> provider == "parakeet"@,
        engine_of(provider) == EngineKind::Moonshine <==> provider == "moonshine"@,
        engine_of(provider) == EngineKind::Deepgram <==> provider == "deepgram"@,
        engine_of(provider) == EngineKind::Whisper <==> (provider != "parakeet"@ && provider
            != "moonshine"@ && provider != "deepgram"@),
{
    reveal_strlit("parakeet");
    reveal_strlit("moonshine");
    reveal_strlit("deepgram");
    assert("parakeet"@[0] != "moonshine"@[0]);
    assert("parakeet"@[0] != "deepgram"@[0]);
    assert("moonshine"@[0] != "deepgram"@[0]);
}

/// Without saved settings, transcription runs on the Parakeet engine.
pub proof fn default_settings_use_parakeet(c: TranscriptConfig)
    requires
        is_default_config(c),
    ensures
        engine_of(c.provider@) == EngineKind::Parakeet,
{
}

/// The message given when the cloud engine has no proxy credentials.
pub open spec fn deepgram_unavailable() -> Seq<char> {
    "Configuración de Deepgram no disponible. Por favor asegúrate de estar autenticado con tu cuenta de Google."@
}

/// What must be checked before a recording starts with a provider.
#[derive(Clone, Copy, Debug, PartialEq, Eq, Structural)]
pub enum ReadinessCheck {
    /// Start the local engine and check that its model is ready.
    LocalModel(EngineKind),
    /// The cloud engine is ready: its credentials are cached.
    Ready,
}

/// What readiness requires of a provider: the local engines check their
/// model; the cloud engine needs cached credentials; other providers are
/// refused.
pub open spec fn readiness_of(provider: Seq<char>, credentials_cached: bool) -> Result<
    ReadinessCheck,
    Seq<char>,
> {
    if provider == "localWhisper"@ {
        Ok(ReadinessCheck::LocalModel(EngineKind::Whisper))
    } else if provider == "parakeet"@ {
        Ok(ReadinessCheck::LocalModel(EngineKind::Parakeet))
    } else if provider == "moonshine"@ {
        Ok(ReadinessCheck::LocalModel(EngineKind::Moonshine))
    } else if provider == "deepgram"@ {
        if credentials_cached {
            Ok(ReadinessCheck::Ready)
        } else {
            Err(deepgram_unavailable())
        }
    } else {
        Err(
            "El proveedor '"@ + provider
                + "' no es compatible. Por favor selecciona 'deepgram', 'localWhisper', 'parakeet', o 'moonshine'."@,
        )
    }
}

/// Decides what readiness requires of a provider.
pub fn readiness_check(provider: &str, credentials_cached: bool) -> (r: Result<ReadinessCheck, String>)
    ensures
        match readiness_of(provider@, credentials_cached) {
            Ok(c) => r == Ok::<ReadinessCheck, String>(c),
            Err(m) => r matches Err(e) && e@ == m,
        },
{
    if str_eq(provider, "localWhisper") {
        Ok(ReadinessCheck::LocalModel(EngineKind::Whisper))
    } else if str_eq(provider, "parakeet") {
        Ok(ReadinessCheck::LocalModel(EngineKind::Parakeet))
    } else if str_eq(provider, "moonshine") {
        Ok(ReadinessCheck::LocalModel(EngineKind::Moonshine))
    } else if str_eq(provider, "deepgram") {
        if credentials_cached {
            Ok(ReadinessCheck::Ready)
        } else {
            Err(
                copy_str(
                    "Configuración de Deepgram no disponible. Por favor asegúrate de estar autenticado con tu cuenta de Google.",
                ),
            )
        }
    } else {
        let mut m = copy_str("El proveedor '");
        push_str(&mut m, provider);
        push_str(
            &mut m,
            "' no es compatible. Por favor selecciona 'deepgram', 'localWhisper', 'parakeet', o 'moonshine'.",
        );
        Err(m)
    }
}

/// The message when a local engine could not be started.
pub open spec fn init_failure(kind: EngineKind, err: Seq<char>) -> Seq<char> {
    match kind {
        EngineKind::Parakeet => "Failed to initialize Parakeet speech recognition: "@ + err,
        EngineKind::Moonshine => "Failed to initialize Moonshine speech recognition: "@ + err,
        _ => "Failed to initialize speech recognition: "@ + err,
    }
}

/// The message when a local engine could not be started.
pub fn init_failure_message(kind: EngineKind, err: &str) -> (r: String)
    ensures
        r@ == init_failure(kind, err@),
{
    let mut m = match kind {
        EngineKind::Parakeet => copy_str("Failed to initialize Parakeet speech recognition: "),
        EngineKind::Moonshine => copy_str("Failed to initialize Moonshine speech recognition: "),
        _ => copy_str("Failed to initialize speech recognition: "),
    };
    push_str(&mut m, err);
    m
}

/// Whether a started local engine (Parakeet or Moonshine, named `engine`)
/// can be used: it must exist and have its model loaded.
pub open spec fn local_engine_ready(engine: Seq<char>, exists: bool, loaded: bool) -> Result<
    (),
    Seq<char>,
> {
    if !exists {
        Err(engine + " engine not initialized. This should not happen after validation."@)
    } else if !loaded {
        Err(
            engine
                + " engine initialized but no model loaded. This should not happen after validation."@,
        )
    } else {
        Ok(())
    }
}

/// Checks that a started local engine can be used.
pub fn check_local_engine(engine: &str, exists: bool, loaded: bool) -> (r: Result<(), String>)
    ensures
        match local_engine_ready(engine@, exists, loaded) {
            Ok(()) => r is Ok,
            Err(m) => r matches Err(e) && e@ == m,
        },
{
    if !exists {
        let mut m = copy_str(engine);
        push_str(&mut m, " engine not initialized. This should not happen after validation.");
        Err(m)
    } else if !loaded {
        let mut m = copy_str(engine);
        push_str(
            &mut m,
            " engine initialized but no model loaded. This should not happen after validation.",
        );
        Err(m)
    } else {
        Ok(())
    }
}

/// The cloud model in use: the configured one, unless it is empty or just
/// "deepgram", in which case `nova-3`.
pub open spec fn cloud_model(model: Seq<char>) -> Seq<char> {
    if model.len() > 0 && model != "deepgram"@ {
        model
    } else {
        "nova-3"@
    }
}

/// The cloud language in use: the configured one when not empty, else
/// Latin American Spanish.
pub open spec fn cloud_language(language: Option<String>) -> Seq<char> {
    match language {
        Some(l) => if l@.len() > 0 {
            l@
        } else {
            "es-419"@
        },
        None => "es-419"@,
    }
}

/// The two cloud transcribers of a recording, one for the microphone
/// ("user") and one for the system audio ("interlocutor"), both through the
/// proxy with the configured model and language, and otherwise the proxy
/// defaults: 16 kHz mono linear PCM, punctuation and interim results on,
/// not connected.
pub fn deepgram_pair(
    proxy_base_url: String,
    jwt: String,
    config: &TranscriptConfig,
) -> (r: (DeepgramRealtimeTranscriber, DeepgramRealtimeTranscriber))
    ensures
        r.0.source_label matches Some(l) && l@ == "user"@,
        r.1.source_label matches Some(l) && l@ == "interlocutor"@,
        r.0.config.model@ == cloud_model(config.model@),
        r.1.config.model@ == cloud_model(config.model@),
        r.0.config.language@ == cloud_language(config.language),
        r.1.config.language@ == cloud_language(config.language),
        r.0.config.proxy_base_url == Some(proxy_base_url),
        r.1.config.proxy_base_url == Some(proxy_base_url),
        r.0.config.jwt == Some(jwt),
        r.1.config.jwt == Some(jwt),
        !r.0.is_connected && !r.1.is_connected,
        r.0.config.encoding@ == "linear16"@ && r.1.config.encoding@ == "linear16"@,
        r.0.config.sample_rate == 16000 && r.1.config.sample_rate == 16000,
        r.0.config.channels == 1 && r.1.config.channels == 1,
        r.0.config.punctuate && r.1.config.punctuate,
        r.0.config.interim_results && r.1.config.interim_results,
        r.0.connection_generation == 0 && r.1.connection_generation == 0,
        r.0.interim_text@ == Seq::<char>::empty() && r.1.interim_text@ == Seq::<char>::empty(),
{
    let model = if config.model.as_str().unicode_len() > 0 && !str_eq(config.model.as_str(), "deepgram") {
        config.model.clone()
    } else {
        copy_str("nova-3")
    };
    let language = match &config.language {
        Some(l) => if l.as_str().unicode_len() > 0 {
            l.clone()
        } else {
            copy_str("es-419")
        },
        None => copy_str("es-419"),
    };
    let mut mic = DeepgramRealtimeTranscriber::with_proxy(proxy_base_url.clone(), jwt.clone());
    mic.set_source_label(copy_str("user"));
    mic.set_model(model.clone());
    mic.set_language(language.clone());
    let mut sys = DeepgramRealtimeTranscriber::with_proxy(proxy_base_url, jwt);
    sys.set_source_label(copy_str("interlocutor"));
    sys.set_model(model);
    sys.set_language(language);
    (mic, sys)
}


/// What to do with a running Whisper engine.
#[derive(Clone, Copy, Debug, PartialEq, Eq, Structural)]
pub enum WhisperReuse {
    /// Keep it: its model is the one wanted.
    Reuse,
    /// Unload its model, then load the configured one.
    Reload,
    /// It has no model: load one.
    Load,
}

/// The Whisper model the saved settings ask for, if any.
pub open spec fn configured_whisper_model(saved: Result<Option<TranscriptConfig>, String>) -> Option<
    Seq<char>,
> {
    match saved {
        Ok(Some(c)) => if c.provider@ == "localWhisper"@ && c.model@.len() > 0 {
            Some(c.model@)
        } else {
            None
        },
        _ => None,
    }
}

/// Whether a running Whisper engine is kept: with no model it must load
/// one; with a model it is kept unless the settings ask for another.
pub open spec fn reuse_of(
    loaded: bool,
    current: Option<Seq<char>>,
    saved: Result<Option<TranscriptConfig>, String>,
) -> WhisperReuse {
    if !loaded {
        WhisperReuse::Load
    } else {
        let name = match current {
            Some(n) => n,
            None => "unknown"@,
        };
        match configured_whisper_model(saved) {
            Some(wanted) => if name == wanted {
                WhisperReuse::Reuse
            } else {
                WhisperReuse::Reload
            },
            None => WhisperReuse::Reuse,
        }
    }
}

/// Decides whether a running Whisper engine is kept.
pub fn whisper_reuse(
    loaded: bool,
    current: Option<String>,
    saved: &Result<Option<TranscriptConfig>, String>,
) -> (r: WhisperReuse)
    ensures
        r == reuse_of(
            loaded,
            match current {
                Some(n) => Some(n@),
                None => None,
            },
            *saved,
        ),
{
    if !loaded {
        return WhisperReuse::Load;
    }
    let name = match current {
        Some(n) => n,
        None => copy_str("unknown"),
    };
    match saved {
        Ok(Some(c)) => {
            if str_eq(c.provider.as_str(), "localWhisper") && c.model.as_str().unicode_len() > 0 {
                if str_eq(name.as_str(), c.model.as_str()) {
                    WhisperReuse::Reuse
                } else {
                    WhisperReuse::Reload
                }
            } else {
                WhisperReuse::Reuse
            }
        },
        _ => WhisperReuse::Reuse,
    }
}

/// The Whisper model to load: the configured one, `small` without readable
/// settings, and an error when the settings name another provider.
pub open spec fn whisper_target(saved: Result<Option<TranscriptConfig>, String>) -> Result<
    Seq<char>,
    Seq<char>,
> {
    match saved {
        Ok(Some(c)) => if c.provider@ == "localWhisper"@ {
            Ok(c.model@)
        } else {
            Err(
                "Cannot initialize Whisper engine: Config uses '"@ + c.provider@
                    + "' provider. This is a bug in the transcription task initialization."@,
            )
        },
        _ => Ok("small"@),
    }
}

/// Decides which Whisper model to load.
pub fn whisper_model_to_load(saved: &Result<Option<TranscriptConfig>, String>) -> (r: Result<
    String,
    String,
>)
    ensures
        match whisper_target(*saved) {
            Ok(m) => r matches Ok(x) && x@ == m,
            Err(m) => r matches Err(x) && x@ == m,
        },
{
    match saved {
        Ok(Some(c)) => {
            if str_eq(c.provider.as_str(), "localWhisper") {
                Ok(c.model.clone())
            } else {
                let mut m = copy_str("Cannot initialize Whisper engine: Config uses '");
                push_str(&mut m, c.provider.as_str());
                push_str(&mut m, "' provider. This is a bug in the transcription task initialization.");
                Err(m)
            }
        },
        _ => Ok(copy_str("small")),
    }
}

/// The index of the first model named `name` in a list of models found.
pub open spec fn found_index(models: Seq<(String, ModelStatus)>, name: Seq<char>) -> Option<int>
    decreases models.len(),
{
    if models.len() == 0 {
        None
    } else if models[0].0@ == name {
        Some(0)
    } else {
        match found_index(models.drop_first(), name) {
            Some(i) => Some(i + 1),
            None => None,
        }
    }
}

/// The index of the first available model in a list of models found.
pub open spec fn first_available(models: Seq<(String, ModelStatus)>) -> Option<int>
    decreases models.len(),
{
    if models.len() == 0 {
        None
    } else if models[0].1 is Available {
        Some(0)
    } else {
        match first_available(models.drop_first()) {
            Some(i) => Some(i + 1),
            None => None,
        }
    }
}

/// The model chosen to load, and whether it stands in for a model that
/// was not found.
pub struct WhisperChoice {
    pub name: String,
    pub fallback: bool,
}

/// Which model is loaded: the wanted one when it is available (an error
/// saying why when it is not); when it is unknown, the first available
/// model; an error when there is none.
pub open spec fn choice_of(models: Seq<(String, ModelStatus)>, wanted: Seq<char>) -> Result<
    (Seq<char>, bool),
    Seq<char>,
> {
    match found_index(models, wanted) {
        Some(i) => match models[i].1 {
            ModelStatus::Available => Ok((wanted, false)),
            ModelStatus::Missing => Err(
                "Model '"@ + wanted
                    + "' is not downloaded. Please download it first from the settings."@,
            ),
            ModelStatus::Downloading { progress } => Err(
                "Model '"@ + wanted + "' is currently downloading ("@ + decimal(progress as nat)
                    + "%). Please wait for it to complete."@,
            ),
            ModelStatus::Error(e) => Err(
                "Model '"@ + wanted + "' has an error: "@ + e@
                    + ". Please check the model or try downloading it again."@,
            ),
            ModelStatus::Corrupted { .. } => Err(
                "Model '"@ + wanted
                    + "' is corrupted. Please delete it and download again from the settings."@,
            ),
        },
        None => match first_available(models) {
            Some(j) => Ok((models[j].0@, true)),
            None => Err(
                "Model '"@ + wanted
                    + "' is not supported and no other models are available. Please download a model from the settings."@,
            ),
        },
    }
}

/// Chooses the Whisper model to load among the models found.
pub fn choose_whisper_model(models: &Vec<(String, ModelStatus)>, wanted: &str) -> (r: Result<
    WhisperChoice,
    String,
>)
    ensures
        match choice_of(models@, wanted@) {
            Ok(c) => r matches Ok(x) && x.name@ == c.0 && x.fallback == c.1,
            Err(m) => r matches Err(x) && x@ == m,
        },
{
    let mut i: usize = 0;
    assert(models@.skip(0) =~= models@);
    while i < models.len()
        invariant
            i <= models.len(),
            found_index(models@, wanted@) == match found_index(models@.skip(i as int), wanted@) {
                Some(j) => Some(j + i),
                None => None::<int>,
            },
        decreases models.len() - i,
    {
        assert(models@.skip(i as int)[0] == models@[i as int]);
        if str_eq(models[i].0.as_str(), wanted) {
            return match &models[i].1 {
                ModelStatus::Available => Ok(WhisperChoice { name: copy_str(wanted), fallback: false }),
                ModelStatus::Missing => {
                    let mut m = copy_str("Model '");
                    push_str(&mut m, wanted);
                    push_str(&mut m, "' is not downloaded. Please download it first from the settings.");
                    Err(m)
                },
                ModelStatus::Downloading { progress } => {
                    let mut m = copy_str("Model '");
                    push_str(&mut m, wanted);
                    push_str(&mut m, "' is currently downloading (");
                    push_decimal(&mut m, *progress as u64);
                    push_str(&mut m, "%). Please wait for it to complete.");
                    Err(m)
                },
                ModelStatus::Error(e) => {
                    let mut m = copy_str("Model '");
                    push_str(&mut m, wanted);
                    push_str(&mut m, "' has an error: ");
                    push_str(&mut m, e.as_str());
                    push_str(&mut m, ". Please check the model or try downloading it again.");
                    Err(m)
                },
                ModelStatus::Corrupted { .. } => {
                    let mut m = copy_str("Model '");
                    push_str(&mut m, wanted);
                    push_str(&mut m, "' is corrupted. Please delete it and download again from the settings.");
                    Err(m)
                },
            };
        }
        assert(models@.skip(i as int).drop_first() =~= models@.skip(i + 1));
        i += 1;
    }
    let mut j: usize = 0;
    assert(models@.skip(0) =~= models@);
    while j < models.len()
        invariant
            j <= models.len(),
            found_index(models@, wanted@) is None,
            first_available(models@) == match first_available(models@.skip(j as int)) {
                Some(k) => Some(k + j),
                None => None::<int>,
            },
        decreases models.len() - j,
    {
        assert(models@.skip(j as int)[0] == models@[j as int]);
        if matches!(models[j].1, ModelStatus::Available) {
            return Ok(WhisperChoice { name: models[j].0.clone(), fallback: true });
        }
        assert(models@.skip(j as int).drop_first() =~= models@.skip(j + 1));
        j += 1;
    }
    let mut m = copy_str("Model '");
    push_str(&mut m, wanted);
    push_str(
        &mut m,
        "' is not supported and no other models are available. Please download a model from the settings.",
    );
    Err(m)
}

/// The message when a chosen model fails to load.
pub open spec fn load_failure(choice_name: Seq<char>, fallback: bool, err: Seq<char>) -> Seq<char> {
    if fallback {
        "Failed to load fallback model '"@ + choice_name + "': "@ + err
    } else {
        "Failed to load model '"@ + choice_name + "': "@ + err
    }
}

/// The message when a chosen model fails to load.
pub fn load_failure_message(choice: &WhisperChoice, err: &str) -> (r: String)
    ensures
        r@ == load_failure(choice.name@, choice.fallback, err@),
{
    let mut m = if choice.fallback {
        copy_str("Failed to load fallback model '")
    } else {
        copy_str("Failed to load model '")
    };
    push_str(&mut m, choice.name.as_str());
    push_str(&mut m, "': ");
    push_str(&mut m, err);
    m
}


/// Whether the local Parakeet engine can stand in for a failed cloud
/// engine: it must exist and have its model loaded.
pub open spec fn parakeet_fallback_ready(exists: bool, loaded: bool) -> Result<(), Seq<char>> {
    if !exists {
        Err(
            "Parakeet engine not available for fallback. Please ensure a local transcription model is downloaded."@,
        )
    } else if !loaded {
        Err("Parakeet engine initialized but no model loaded for fallback."@)
    } else {
        Ok(())
    }
}

/// Checks that the local Parakeet engine can stand in for the cloud one.
pub fn check_parakeet_fallback(exists: bool, loaded: bool) -> (r: Result<(), String>)
    ensures
        match parakeet_fallback_ready(exists, loaded) {
            Ok(()) => r is Ok,
            Err(m) => r matches Err(e) && e@ == m,
        },
{
    if !exists {
        Err(
            copy_str(
                "Parakeet engine not available for fallback. Please ensure a local transcription model is downloaded.",
            ),
        )
    } else if !loaded {
        Err(copy_str("Parakeet engine initialized but no model loaded for fallback."))
    } else {
        Ok(())
    }
}


/// The name of an engine in the logs.
pub open spec fn engine_label(kind: EngineKind) -> Seq<char> {
    match kind {
        EngineKind::Whisper => "Whisper (direct)"@,
        EngineKind::Parakeet => "Parakeet (direct)"@,
        EngineKind::Moonshine => "Moonshine (direct)"@,
        EngineKind::Deepgram => "Deepgram (streaming)"@,
    }
}

/// The name of an engine in the logs.
pub fn provider_name(kind: EngineKind) -> (r: &'static str)
    ensures
        r@ == engine_label(kind),
{
    match kind {
        EngineKind::Whisper => "Whisper (direct)",
        EngineKind::Parakeet => "Parakeet (direct)",
        EngineKind::Moonshine => "Moonshine (direct)",
        EngineKind::Deepgram => "Deepgram (streaming)",
    }
}

/// Only the cloud engine streams, and hands out its transcripts itself.
pub fn is_streaming_provider(kind: EngineKind) -> (r: bool)
    ensures
        r == (kind == EngineKind::Deepgram),
{
    match kind {
        EngineKind::Deepgram => true,
        _ => false,
    }
}

/// The cloud stream that audio from a source goes to.
#[derive(Clone, Copy, Debug, PartialEq, Eq, Structural)]
pub enum StreamSide {
    /// The microphone stream ("user").
    Microphone,
    /// The system-audio stream ("interlocutor").
    System,
}

/// Which cloud stream audio from `device` goes to: microphone audio to the
/// microphone stream, system audio to the system stream; mixed audio and
/// other engines are errors.
pub fn stream_for_device(kind: EngineKind, device: DeviceType) -> (r: Result<
    StreamSide,
    TranscriptionError,
>)
    ensures
        kind != EngineKind::Deepgram ==> (r matches Err(TranscriptionError::EngineFailed(m)) && m@
            == "transcribe_for_device called on non-Deepgram engine"@),
        kind == EngineKind::Deepgram && device == DeviceType::Microphone ==> r
            == Ok::<StreamSide, TranscriptionError>(StreamSide::Microphone),
        kind == EngineKind::Deepgram && device == DeviceType::System ==> r == Ok::<
            StreamSide,
            TranscriptionError,
        >(StreamSide::System),
        kind == EngineKind::Deepgram && device == DeviceType::Mixed ==> (r matches Err(
            TranscriptionError::EngineFailed(m),
        ) && m@ == "Mixed device_type should not reach Deepgram transcription"@),
{
    match kind {
        EngineKind::Deepgram => match device {
            DeviceType::Microphone => Ok(StreamSide::Microphone),
            DeviceType::System => Ok(StreamSide::System),
            DeviceType::Mixed => Err(
                TranscriptionError::EngineFailed(
                    copy_str("Mixed device_type should not reach Deepgram transcription"),
                ),
            ),
        },
        _ => Err(
            TranscriptionError::EngineFailed(
                copy_str("transcribe_for_device called on non-Deepgram engine"),
            ),
        ),
    }
}

} // verus!
