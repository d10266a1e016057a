//! Deepgram realtime transcription: configuration, the WebSocket URL for the
//! proxy, the handshake key, and the decisions of the streaming session
//! (audio length, reconnection, what each server message leads to).
use vstd::prelude::*;
use crate::num::{decimal, push_decimal};
use crate::proxy::{url_parse_result, websocket_host};
use crate::text::{copy_str, push_char, push_str, str_eq};

verus! {

/// Configuration of a Deepgram streaming session.
#[derive(Debug, Clone)]
pub struct DeepgramConfig {
    /// Base URL of the proxy, such as `wss://proxy.example.com`.
    pub proxy_base_url: Option<String>,
    /// Short-lived token that authenticates with the proxy.
    pub jwt: Option<String>,
    pub model: String,
    pub language: String,
    pub encoding: String,
    pub sample_rate: u32,
    pub channels: u8,
    pub punctuate: bool,
    pub interim_results: bool,
}

impl Default for DeepgramConfig {
    fn default() -> (r: Self)
        ensures
            r.proxy_base_url is None,
            r.jwt is None,
            r.model@ == "nova-3"@,
            r.language@ == "es-419"@,
            r.encoding@ == "linear16"@,
            r.sample_rate == 16000,
            r.channels == 1,
            r.punctuate,
            r.interim_results,
    {
        DeepgramConfig {
            proxy_base_url: None,
            jwt: None,
            model: copy_str("nova-3"),
            language: copy_str("es-419"),
            encoding: copy_str("linear16"),
            sample_rate: 16000,
            channels: 1,
            punctuate: true,
            interim_results: true,
        }
    }
}

/// Most connection attempts made before a connection failure is reported.
pub const MAX_RECONNECT_ATTEMPTS: u32 = 3;

/// Pause between connection attempts, in milliseconds.
pub const RECONNECT_DELAY_MS: u64 = 1000;

/// Fewest samples (100 ms at 16 kHz) that a transcription request may carry.
pub const MINIMUM_SAMPLES: usize = 1600;

/// Errors of a transcription request.
#[derive(Debug, Clone)]
pub enum TranscriptionError {
    AudioTooShort { samples: usize, minimum: usize },
    EngineFailed(String),
}

/// What the session does with a message from the server.
pub enum ReaderAction {
    /// The reader stops (server closed, socket error, or a newer connection).
    Stop,
    /// Nothing to emit.
    Ignore,
    /// A final transcript to emit.
    EmitFinal(String),
    /// An interim transcript to emit.
    EmitInterim(String),
}

/// The parts of a Deepgram result message that the session decides on.
pub struct DeepgramResponse {
    /// The transcript of the first alternative of the channel, when the
    /// message has a channel with at least one alternative.
    pub transcript: Option<String>,
    pub is_final: Option<bool>,
    pub speech_final: Option<bool>,
}

/// A message read from the WebSocket.
pub enum ReaderEvent {
    /// A text message; `None` when it does not parse as a result.
    Text(Option<DeepgramResponse>),
    Close,
    Error,
    /// Any other frame (binary, ping, pong).
    Other,
}

/// The realtime transcriber for one audio source: its configuration and the
/// state of its streaming connection.
pub struct DeepgramRealtimeTranscriber {
    pub config: DeepgramConfig,
    /// Fixed label of the audio source ("user" or "interlocutor").
    pub source_label: Option<String>,
    /// Whether a connection is open.
    pub is_connected: bool,
    /// Incremented on each new connection; readers of older ones stop.
    pub connection_generation: u64,
    /// Text of the current interim result.
    pub interim_text: String,
}

/// The value sent for the `language` parameter: the auto-detect requests
/// (`auto-translate`, `auto`, `detect`, `multi`) become `multi`.
pub open spec fn language_value(lang: Seq<char>) -> Seq<char> {
    if lang == "auto-translate"@ || lang == "auto"@ || lang == "detect"@ || lang == "multi"@ {
        "multi"@
    } else {
        lang
    }
}

/// `true` or `false`.
pub open spec fn bool_text(b: bool) -> Seq<char> {
    if b {
        "true"@
    } else {
        "false"@
    }
}

/// The proxy WebSocket URL with the token and the Deepgram parameters.
pub open spec fn websocket_url(
    base: Seq<char>,
    jwt: Seq<char>,
    config: DeepgramConfig,
    lang: Seq<char>,
) -> Seq<char> {
    base + "?token="@ + jwt + "&model="@ + config.model@ + "&language="@ + language_value(lang)
        + "&encoding="@ + config.encoding@ + "&sample_rate="@ + decimal(
        config.sample_rate as nat,
    ) + "&channels="@ + decimal(config.channels as nat) + "&punctuate="@ + bool_text(
        config.punctuate,
    ) + "&interim_results="@ + bool_text(config.interim_results)
        + "&endpointing=200&vad_events=true"@
}

/// The token a connection uses: a fresher one from the proxy cache when
/// there is one, else the one in the configuration.
pub open spec fn chosen_jwt(config: DeepgramConfig, cached: Option<(String, String)>) -> Option<
    Seq<char>,
> {
    match cached {
        Some(pair) => Some(pair.1@),
        None => match config.jwt {
            Some(j) => Some(j@),
            None => None,
        },
    }
}

/// Whether a connection may be attempted: retries are owed while fewer than
/// `MAX_RECONNECT_ATTEMPTS` attempts have failed; the answer is the pause
/// before the next attempt.
pub fn reconnect_delay_after(failed_attempt: u32) -> (r: Option<u64>)
    ensures
        failed_attempt < MAX_RECONNECT_ATTEMPTS ==> r == Some(RECONNECT_DELAY_MS),
        failed_attempt >= MAX_RECONNECT_ATTEMPTS ==> r is None,
{
    if failed_attempt < MAX_RECONNECT_ATTEMPTS {
        Some(RECONNECT_DELAY_MS)
    } else {
        None
    }
}

/// Refuses audio shorter than `MINIMUM_SAMPLES` samples.
pub fn check_audio_length(samples: usize) -> (r: Result<(), TranscriptionError>)
    ensures
        samples >= MINIMUM_SAMPLES <==> r is Ok,
        samples < MINIMUM_SAMPLES ==> (r matches Err(
            TranscriptionError::AudioTooShort { samples: s, minimum: m },
        ) && s == samples && m == MINIMUM_SAMPLES),
{
    if samples < MINIMUM_SAMPLES {
        Err(TranscriptionError::AudioTooShort { samples, minimum: MINIMUM_SAMPLES })
    } else {
        Ok(())
    }
}

impl DeepgramRealtimeTranscriber {
    /// A transcriber whose configuration is the default one.
    pub open spec fn fresh(self, config: DeepgramConfig) -> bool {
        &&& self.config == config
        &&& self.source_label is None
        &&& !self.is_connected
        &&& self.connection_generation == 0
        &&& self.interim_text@ == Seq::<char>::empty()
    }

    /// A transcriber with the given configuration and no connection.
    pub fn with_config(config: DeepgramConfig) -> (r: Self)
        ensures
            r.fresh(config),
    {
        DeepgramRealtimeTranscriber {
            config,
            source_label: None,
            is_connected: false,
            connection_generation: 0,
            interim_text: String::new(),
        }
    }

    /// A transcriber for the proxy at `proxy_base_url` with token `jwt`, the
    /// rest of the configuration being the default.
    pub fn with_proxy(proxy_base_url: String, jwt: String) -> (r: Self)
        ensures
            r.config.proxy_base_url == Some(proxy_base_url),
            r.config.jwt == Some(jwt),
            r.config.model@ == "nova-3"@,
            r.config.language@ == "es-419"@,
            r.config.encoding@ == "linear16"@,
            r.config.sample_rate == 16000,
            r.config.channels == 1,
            r.config.punctuate,
            r.config.interim_results,
            r.source_label is None,
            !r.is_connected,
            r.connection_generation == 0,
            r.interim_text@ == Seq::<char>::empty(),
    {
        let mut config = DeepgramConfig::default();
        config.proxy_base_url = Some(proxy_base_url);
        config.jwt = Some(jwt);
        Self::with_config(config)
    }

    /// Sets the label of the audio source.
    pub fn set_source_label(&mut self, label: String)
        ensures
            final(self).source_label == Some(label),
            final(self).config == old(self).config,
            final(self).is_connected == old(self).is_connected,
            final(self).connection_generation == old(self).connection_generation,
            final(self).interim_text == old(self).interim_text,
    {
        self.source_label = Some(label);
    }

    /// Sets the model that transcribes.
    pub fn set_model(&mut self, model: String)
        ensures
            final(self).config.model == model,
            final(self).config.language == old(self).config.language,
            final(self).config.jwt == old(self).config.jwt,
            final(self).config.proxy_base_url == old(self).config.proxy_base_url,
            final(self).config.encoding == old(self).config.encoding,
            final(self).config.sample_rate == old(self).config.sample_rate,
            final(self).config.channels == old(self).config.channels,
            final(self).config.punctuate == old(self).config.punctuate,
            final(self).config.interim_results == old(self).config.interim_results,
            final(self).source_label == old(self).source_label,
            final(self).is_connected == old(self).is_connected,
            final(self).connection_generation == old(self).connection_generation,
            final(self).interim_text == old(self).interim_text,
    {
        self.config.model = model;
    }

    /// Sets the language transcribed.
    pub fn set_language(&mut self, language: String)
        ensures
            final(self).config.language == language,
            final(self).config.model == old(self).config.model,
            final(self).config.jwt == old(self).config.jwt,
            final(self).config.proxy_base_url == old(self).config.proxy_base_url,
            final(self).config.encoding == old(self).config.encoding,
            final(self).config.sample_rate == old(self).config.sample_rate,
            final(self).config.channels == old(self).config.channels,
            final(self).config.punctuate == old(self).config.punctuate,
            final(self).config.interim_results == old(self).config.interim_results,
            final(self).source_label == old(self).source_label,
            final(self).is_connected == old(self).is_connected,
            final(self).connection_generation == old(self).connection_generation,
            final(self).interim_text == old(self).interim_text,
    {
        self.config.language = language;
    }

    /// Replaces the proxy token (after a refresh).
    pub fn set_proxy_jwt(&mut self, jwt: String)
        ensures
            final(self).config.jwt == Some(jwt),
            final(self).config.model == old(self).config.model,
            final(self).config.language == old(self).config.language,
            final(self).config.proxy_base_url == old(self).config.proxy_base_url,
            final(self).config.encoding == old(self).config.encoding,
            final(self).config.sample_rate == old(self).config.sample_rate,
            final(self).config.channels == old(self).config.channels,
            final(self).config.punctuate == old(self).config.punctuate,
            final(self).config.interim_results == old(self).config.interim_results,
            final(self).source_label == old(self).source_label,
            final(self).is_connected == old(self).is_connected,
            final(self).connection_generation == old(self).connection_generation,
            final(self).interim_text == old(self).interim_text,
    {
        self.config.jwt = Some(jwt);
    }

    /// Both the proxy URL and a token are configured.
    pub fn is_proxy_configured(&self) -> (r: bool)
        ensures
            r == (self.config.proxy_base_url is Some && self.config.jwt is Some),
    {
        self.config.proxy_base_url.is_some() && self.config.jwt.is_some()
    }

    /// The proxy needs no model download: the transcriber is ready exactly
    /// when the proxy is configured.
    pub fn is_model_loaded(&self) -> (r: bool)
        ensures
            r == (self.config.proxy_base_url is Some && self.config.jwt is Some),
    {
        self.is_proxy_configured()
    }

    /// The configured model, when the proxy is configured.
    pub fn get_current_model(&self) -> (r: Option<String>)
        ensures
            (self.config.proxy_base_url is Some && self.config.jwt is Some) ==> r == Some(
                self.config.model,
            ),
            !(self.config.proxy_base_url is Some && self.config.jwt is Some) ==> r is None,
    {
        if self.is_proxy_configured() {
            Some(self.config.model.clone())
        } else {
            None
        }
    }

    /// The name of the provider.
    pub fn provider_name(&self) -> (r: &'static str)
        ensures
            r@ == "Deepgram"@,
    {
        "Deepgram"
    }

    /// The proxy WebSocket URL for a connection: `None` without a proxy URL
    /// or a token. The token is the cached one when `cached_proxy` (what
    /// the proxy cache holds) is present; the language is the override when
    /// given, else the configured one.
    pub fn build_websocket_url(
        &self,
        language_override: Option<&str>,
        cached_proxy: Option<(String, String)>,
    ) -> (r: Option<String>)
        ensures
            ({
                match (self.config.proxy_base_url, chosen_jwt(self.config, cached_proxy)) {
                    (Some(base), Some(jwt)) => {
                        let lang = match language_override {
                            Some(l) => l@,
                            None => self.config.language@,
                        };
                        r is Some && r->0@ == websocket_url(base@, jwt, self.config, lang)
                    },
                    _ => r is None,
                }
            }),
    {
        let base = match &self.config.proxy_base_url {
            Some(b) => b,
            None => {
                return None;
            },
        };
        let jwt: String = match cached_proxy {
            Some((_cached_url, cached_jwt)) => cached_jwt,
            None => match &self.config.jwt {
                Some(j) => j.clone(),
                None => {
                    return None;
                },
            },
        };
        let language: &str = match language_override {
            Some(l) => l,
            None => self.config.language.as_str(),
        };
        let mut url = String::new();
        push_str(&mut url, base.as_str());
        push_str(&mut url, "?token=");
        push_str(&mut url, jwt.as_str());
        push_str(&mut url, "&model=");
        push_str(&mut url, self.config.model.as_str());
        push_str(&mut url, "&language=");
        if str_eq(language, "auto-translate") || str_eq(language, "auto") || str_eq(
            language,
            "detect",
        ) || str_eq(language, "multi") {
            push_str(&mut url, "multi");
        } else {
            push_str(&mut url, language);
        }
        push_str(&mut url, "&encoding=");
        push_str(&mut url, self.config.encoding.as_str());
        push_str(&mut url, "&sample_rate=");
        push_decimal(&mut url, self.config.sample_rate as u64);
        push_str(&mut url, "&channels=");
        push_decimal(&mut url, self.config.channels as u64);
        push_str(&mut url, "&punctuate=");
        push_str(
            &mut url,
            if self.config.punctuate {
                "true"
            } else {
                "false"
            },
        );
        push_str(&mut url, "&interim_results=");
        push_str(
            &mut url,
            if self.config.interim_results {
                "true"
            } else {
                "false"
            },
        );
        push_str(&mut url, "&endpointing=200&vad_events=true");
        Some(url)
    }

    /// A new connection is opened: it is marked connected and gets the next
    /// generation, which its reader carries.
    pub fn begin_connection(&mut self) -> (generation: u64)
        requires
            old(self).connection_generation < u64::MAX,
        ensures
            generation == old(self).connection_generation + 1,
            final(self).connection_generation == generation,
            final(self).is_connected,
            final(self).config == old(self).config,
            final(self).source_label == old(self).source_label,
            final(self).interim_text == old(self).interim_text,
    {
        self.is_connected = true;
        self.connection_generation = self.connection_generation + 1;
        self.connection_generation
    }

    /// The connection is gone (stream closed, send failure, or its reader
    /// ended): not connected, no interim text.
    pub fn mark_disconnected(&mut self)
        ensures
            !final(self).is_connected,
            final(self).interim_text@ == Seq::<char>::empty(),
            final(self).config == old(self).config,
            final(self).source_label == old(self).source_label,
            final(self).connection_generation == old(self).connection_generation,
    {
        self.is_connected = false;
        self.interim_text = String::new();
    }

    /// A reader ends: the connection is marked closed (the interim text
    /// stays as it was).
    pub fn reader_finished(&mut self)
        ensures
            !final(self).is_connected,
            final(self).interim_text == old(self).interim_text,
            final(self).config == old(self).config,
            final(self).source_label == old(self).source_label,
            final(self).connection_generation == old(self).connection_generation,
    {
        self.is_connected = false;
    }

    /// What the reader of connection `my_generation` does with `event`. A
    /// reader of an older connection stops; a close or an error stops it;
    /// an unparsable text, a result without a transcript, or an empty
    /// transcript is ignored; a result marked final or speech-final is
    /// emitted as final and clears the interim text; any other result is
    /// emitted as interim and becomes the interim text.
    pub fn reader_step(&mut self, my_generation: u64, event: ReaderEvent) -> (r: ReaderAction)
        ensures
            final(self).config == old(self).config,
            final(self).source_label == old(self).source_label,
            final(self).connection_generation == old(self).connection_generation,
            final(self).is_connected == old(self).is_connected,
            old(self).connection_generation != my_generation ==> r is Stop
                && final(self).interim_text == old(self).interim_text,
            old(self).connection_generation == my_generation ==> match event {
                ReaderEvent::Close => r is Stop && final(self).interim_text == old(self).interim_text,
                ReaderEvent::Error => r is Stop && final(self).interim_text == old(self).interim_text,
                ReaderEvent::Other => r is Ignore && final(self).interim_text == old(self).interim_text,
                ReaderEvent::Text(None) => r is Ignore && final(self).interim_text == old(self).interim_text,
                ReaderEvent::Text(Some(resp)) => match resp.transcript {
                    None => r is Ignore && final(self).interim_text == old(self).interim_text,
                    Some(t) => if t@.len() == 0 {
                        r is Ignore && final(self).interim_text == old(self).interim_text
                    } else if resp.is_final == Some(true) || resp.speech_final == Some(true) {
                        r == ReaderAction::EmitFinal(t)
                            && final(self).interim_text@ == Seq::<char>::empty()
                    } else {
                        r == ReaderAction::EmitInterim(t) && final(self).interim_text == t
                    },
                },
            },
    {
        if self.connection_generation != my_generation {
            return ReaderAction::Stop;
        }
        match event {
            ReaderEvent::Close => ReaderAction::Stop,
            ReaderEvent::Error => ReaderAction::Stop,
            ReaderEvent::Other => ReaderAction::Ignore,
            ReaderEvent::Text(None) => ReaderAction::Ignore,
            ReaderEvent::Text(Some(resp)) => {
                let is_final = match resp.is_final {
                    Some(b) => b,
                    None => false,
                };
                let speech_final = match resp.speech_final {
                    Some(b) => b,
                    None => false,
                };
                match resp.transcript {
                    None => ReaderAction::Ignore,
                    Some(t) => {
                        if t.as_str().is_empty() {
                            ReaderAction::Ignore
                        } else if is_final || speech_final {
                            self.interim_text = String::new();
                            ReaderAction::EmitFinal(t)
                        } else {
                            self.interim_text = t.clone();
                            ReaderAction::EmitInterim(t)
                        }
                    },
                }
            },
        }
    }
}

/// The base64 alphabet of RFC 4648 (`A`-`Z`, `a`-`z`, `0`-`9`, `+`, `/`).
pub open spec fn b64_digit(v: u8) -> char {
    if v < 26 {
        (65 + v) as char
    } else if v < 52 {
        (97 + v - 26) as char
    } else if v < 62 {
        (48 + v - 52) as char
    } else if v == 62 {
        '+'
    } else {
        '/'
    }
}

/// The four 6-bit groups of a chunk of one to three bytes (missing bytes
/// read as zero).
pub open spec fn b64_groups(c: Seq<u8>) -> (u8, u8, u8, u8) {
    let b0 = c[0];
    let b1: u8 = if c.len() > 1 {
        c[1]
    } else {
        0
    };
    let b2: u8 = if c.len() > 2 {
        c[2]
    } else {
        0
    };
    (b0 >> 2, ((b0 & 3) << 4) | (b1 >> 4), ((b1 & 15) << 2) | (b2 >> 6), b2 & 63)
}

/// The four characters of a chunk of one to three bytes: one digit per
/// group that holds input bits, `=` for the rest.
pub open spec fn b64_chunk(c: Seq<u8>) -> Seq<char> {
    let (g0, g1, g2, g3) = b64_groups(c);
    seq![
        b64_digit(g0),
        b64_digit(g1),
        if c.len() > 1 {
            b64_digit(g2)
        } else {
            '='
        },
        if c.len() > 2 {
            b64_digit(g3)
        } else {
            '='
        },
    ]
}

/// Standard padded base64 of `data`, chunk by chunk of three bytes.
pub open spec fn base64_spec(data: Seq<u8>) -> Seq<char>
    decreases data.len(),
{
    if data.len() == 0 {
        Seq::empty()
    } else if data.len() <= 3 {
        b64_chunk(data)
    } else {
        b64_chunk(data.take(3)) + base64_spec(data.skip(3))
    }
}

fn b64_digit_exec(v: u8) -> (r: char)
    requires
        v < 64,
    ensures
        r == b64_digit(v),
{
    if v < 26 {
        (65u8 + v) as char
    } else if v < 52 {
        (97u8 + v - 26) as char
    } else if v < 62 {
        (48u8 + v - 52) as char
    } else if v == 62 {
        '+'
    } else {
        '/'
    }
}

proof fn lemma_groups_small(b0: u8, b1: u8, b2: u8)
    ensures
        b0 >> 2 < 64,
        ((b0 & 3) << 4) | (b1 >> 4) < 64,
        ((b1 & 15) << 2) | (b2 >> 6) < 64,
        b2 & 63 < 64,
{
    assert(b0 >> 2 < 64) by (bit_vector);
    assert(((b0 & 3) << 4) | (b1 >> 4) < 64) by (bit_vector);
    assert(((b1 & 15) << 2) | (b2 >> 6) < 64) by (bit_vector);
    assert(b2 & 63 < 64) by (bit_vector);
}

/// Standard padded base64 (RFC 4648 alphabet) of `data`.
pub fn base64_encode(data: &[u8]) -> (r: String)
    ensures
        r@ == base64_spec(data@),
{
    let mut result = String::new();
    let n = data.len();
    let mut i: usize = 0;
    assert(data@.skip(0) =~= data@);
    assert(result@ + base64_spec(data@) =~= base64_spec(data@));
    while i < n
        invariant
            n == data@.len(),
            i <= n,
            result@ + base64_spec(data@.skip(i as int)) == base64_spec(data@),
        decreases n - i,
    {
        let ghost rest = data@.skip(i as int);
        let len: usize = if n - i < 3 {
            n - i
        } else {
            3
        };
        let ghost chunk = if rest.len() <= 3 {
            rest
        } else {
            rest.take(3)
        };
        assert(chunk.len() == len);
        let b0 = data[i];
        let b1: u8 = if len > 1 {
            data[i + 1]
        } else {
            0
        };
        let b2: u8 = if len > 2 {
            data[i + 2]
        } else {
            0
        };
        assert(chunk[0] == b0);
        assert(len > 1 ==> chunk[1] == b1);
        assert(len > 2 ==> chunk[2] == b2);
        proof {
            lemma_groups_small(b0, b1, b2);
        }
        let g0 = b0 >> 2;
        let g1 = ((b0 & 3) << 4) | (b1 >> 4);
        let g2 = ((b1 & 15) << 2) | (b2 >> 6);
        let g3 = b2 & 63;
        assert(b64_groups(chunk) == (g0, g1, g2, g3));
        let ghost before = result@;
        push_char(&mut result, b64_digit_exec(g0));
        push_char(&mut result, b64_digit_exec(g1));
        if len > 1 {
            push_char(&mut result, b64_digit_exec(g2));
        } else {
            push_char(&mut result, '=');
        }
        if len > 2 {
            push_char(&mut result, b64_digit_exec(g3));
        } else {
            push_char(&mut result, '=');
        }
        assert(result@ =~= before + b64_chunk(chunk));
        proof {
            if rest.len() <= 3 {
                assert(data@.skip(i + len) =~= Seq::<u8>::empty());
            } else {
                assert(rest.skip(3) =~= data@.skip(i + 3));
            }
        }
        i += len;
    }
    assert(data@.skip(n as int) =~= Seq::<u8>::empty());
    result
}

/// Base64 output has four characters per started group of three bytes.
pub proof fn base64_length(data: Seq<u8>)
    ensures
        base64_spec(data).len() == 4 * ((data.len() + 2) / 3),
    decreases data.len(),
{
    if data.len() > 3 {
        base64_length(data.skip(3));
    }
}

/// Calls `rand::thread_rng().gen()` for sixteen random bytes. Nothing is
/// claimed of the bytes but how many there are.
#[verifier::external_body]
fn random_key_bytes() -> (r: Vec<u8>)
    ensures
        r.len() == 16,
{
    let key: [u8; 16] = rand::Rng::gen(&mut rand::thread_rng());
    key.to_vec()
}

/// A fresh `Sec-WebSocket-Key`: base64 of sixteen random bytes.
pub fn generate_websocket_key() -> (r: String)
    ensures
        exists|b: Seq<u8>| b.len() == 16 && r@ == base64_spec(b),
        r@.len() == 24,
{
    let key = random_key_bytes();
    let r = base64_encode(key.as_slice());
    proof {
        base64_length(key@);
    }
    r
}


/// The message that keeps an idle stream open.
pub open spec fn keep_alive_text() -> Seq<char> {
    "{\"type\":\"KeepAlive\"}"@
}

/// The message that asks the server to end the stream.
pub open spec fn close_stream_text() -> Seq<char> {
    "{\"type\": \"CloseStream\"}"@
}

/// The message that keeps an idle stream open (the server closes streams
/// idle for about ten seconds).
pub fn keep_alive_message() -> (r: String)
    ensures
        r@ == keep_alive_text(),
{
    copy_str("{\"type\":\"KeepAlive\"}")
}

/// The message that asks the server to end the stream.
pub fn close_stream_message() -> (r: String)
    ensures
        r@ == close_stream_text(),
{
    copy_str("{\"type\": \"CloseStream\"}")
}

/// Seconds between keep-alive messages.
pub const KEEPALIVE_INTERVAL_SECS: u64 = 8;

/// Seconds the reader is given to finish when the stream closes.
pub const READER_SHUTDOWN_TIMEOUT_SECS: u64 = 10;

impl DeepgramRealtimeTranscriber {
    /// The URL to connect to, or an error when the proxy or its token is
    /// missing.
    pub fn connection_url(
        &self,
        language_override: Option<&str>,
        cached_proxy: Option<(String, String)>,
    ) -> (r: Result<String, TranscriptionError>)
        ensures
            ({
                match (self.config.proxy_base_url, chosen_jwt(self.config, cached_proxy)) {
                    (Some(base), Some(jwt)) => {
                        let lang = match language_override {
                            Some(l) => l@,
                            None => self.config.language@,
                        };
                        r matches Ok(u) && u@ == websocket_url(base@, jwt, self.config, lang)
                    },
                    _ => r matches Err(TranscriptionError::EngineFailed(m)) && m@
                        == "Deepgram proxy not configured (no proxy_base_url or jwt)"@,
                }
            }),
    {
        match self.build_websocket_url(language_override, cached_proxy) {
            Some(u) => Ok(u),
            None => Err(
                TranscriptionError::EngineFailed(
                    copy_str("Deepgram proxy not configured (no proxy_base_url or jwt)"),
                ),
            ),
        }
    }
}

/// The headers of the WebSocket handshake with the proxy at `url`: its
/// host, the upgrade to WebSocket version 13, and a fresh random key.
pub fn handshake_headers(url: &str) -> (r: Vec<(String, String)>)
    ensures
        r.len() == 5,
        r@[0].0@ == "Host"@ && r@[0].1@ == (match url_parse_result(url@) {
            Ok(p) => match p.1 {
                Some(h) => h,
                None => "localhost"@,
            },
            Err(_) => "localhost"@,
        }),
        r@[1].0@ == "Upgrade"@ && r@[1].1@ == "websocket"@,
        r@[2].0@ == "Connection"@ && r@[2].1@ == "Upgrade"@,
        r@[3].0@ == "Sec-WebSocket-Version"@ && r@[3].1@ == "13"@,
        r@[4].0@ == "Sec-WebSocket-Key"@ && exists|key: Seq<u8>|
            key.len() == 16 && r@[4].1@ == base64_spec(key),
{
    let mut h: Vec<(String, String)> = Vec::new();
    h.push((copy_str("Host"), websocket_host(url)));
    h.push((copy_str("Upgrade"), copy_str("websocket")));
    h.push((copy_str("Connection"), copy_str("Upgrade")));
    h.push((copy_str("Sec-WebSocket-Version"), copy_str("13")));
    h.push((copy_str("Sec-WebSocket-Key"), generate_websocket_key()));
    h
}

} // verus!
