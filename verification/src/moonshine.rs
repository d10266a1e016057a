//! The bookkeeping of the on-device speech engine: the known models and
//! their state on disk, which one is loaded, the downloads under way and
//! their cancellation, and the messages the engine reports.
use vstd::prelude::*;
use crate::num::{decimal, push_decimal};
use crate::text::{copy_str, push_str, str_eq};

verus! {

/// The state of a model on disk.
#[derive(Debug, Clone)]
pub enum ModelStatus {
    Available,
    Missing,
    Downloading { progress: u8 },
    Error(String),
    Corrupted { file_size: u64, expected_min_size: u64 },
}

impl ModelStatus {
    /// A copy of the status.
    pub fn duplicate(&self) -> (r: Self)
        ensures
            r == *self,
    {
        match self {
            ModelStatus::Available => ModelStatus::Available,
            ModelStatus::Missing => ModelStatus::Missing,
            ModelStatus::Downloading { progress } => ModelStatus::Downloading { progress: *progress },
            ModelStatus::Error(e) => ModelStatus::Error(e.clone()),
            ModelStatus::Corrupted { file_size, expected_min_size } => ModelStatus::Corrupted {
                file_size: *file_size,
                expected_min_size: *expected_min_size,
            },
        }
    }
}

/// A known model.
#[derive(Debug, Clone)]
pub struct ModelInfo {
    pub name: String,
    /// The model's directory.
    pub path: String,
    pub size_mb: u32,
    /// How fast it runs, in words.
    pub speed: String,
    pub status: ModelStatus,
    pub description: String,
    /// The language it transcribes.
    pub language: String,
}

impl ModelInfo {
    /// A copy of the model's description.
    pub fn duplicate(&self) -> (r: Self)
        ensures
            r == *self,
    {
        ModelInfo {
            name: self.name.clone(),
            path: self.path.clone(),
            size_mb: self.size_mb,
            speed: self.speed.clone(),
            status: self.status.duplicate(),
            description: self.description.clone(),
            language: self.language.clone(),
        }
    }
}

/// Errors of the speech engine.
#[derive(Debug)]
pub enum MoonshineEngineError {
    ModelNotLoaded,
    ModelNotFound(String),
    TranscriptionFailed(String),
    DownloadFailed(String),
    IoError(String),
    Other(String),
}

/// The message of an engine error.
pub open spec fn engine_error_message(e: MoonshineEngineError) -> Seq<char> {
    match e {
        MoonshineEngineError::ModelNotLoaded => "No Moonshine model loaded"@,
        MoonshineEngineError::ModelNotFound(n) => "Model '"@ + n@ + "' not found"@,
        MoonshineEngineError::TranscriptionFailed(m) => "Transcription failed: "@ + m@,
        MoonshineEngineError::DownloadFailed(m) => "Download failed: "@ + m@,
        MoonshineEngineError::IoError(m) => "IO error: "@ + m@,
        MoonshineEngineError::Other(m) => "Error: "@ + m@,
    }
}

impl MoonshineEngineError {
    /// The message of the error.
    pub fn message(&self) -> (r: String)
        ensures
            r@ == engine_error_message(*self),
    {
        match self {
            MoonshineEngineError::ModelNotLoaded => copy_str("No Moonshine model loaded"),
            MoonshineEngineError::ModelNotFound(n) => {
                let mut r = copy_str("Model '");
                push_str(&mut r, n.as_str());
                push_str(&mut r, "' not found");
                r
            },
            MoonshineEngineError::TranscriptionFailed(m) => {
                let mut r = copy_str("Transcription failed: ");
                push_str(&mut r, m.as_str());
                r
            },
            MoonshineEngineError::DownloadFailed(m) => {
                let mut r = copy_str("Download failed: ");
                push_str(&mut r, m.as_str());
                r
            },
            MoonshineEngineError::IoError(m) => {
                let mut r = copy_str("IO error: ");
                push_str(&mut r, m.as_str());
                r
            },
            MoonshineEngineError::Other(m) => {
                let mut r = copy_str("Error: ");
                push_str(&mut r, m.as_str());
                r
            },
        }
    }
}

/// What was found of one model file: whether it exists, and its size or
/// the error met reading it.
pub struct FileState {
    pub exists: bool,
    pub size: Result<u64, String>,
}

/// What was found of the files of a model directory.
pub struct ModelProbe {
    pub encoder: FileState,
    pub decoder: FileState,
    pub decoder_with_past: FileState,
    pub tokenizer: FileState,
}

/// The smallest acceptable sizes of the model files.
pub const MIN_ENCODER_BYTES: u64 = 65_000_000;
/// The smallest acceptable size of the first-step decoder.
pub const MIN_DECODER_BYTES: u64 = 130_000_000;
/// The smallest acceptable size of the later-step decoder.
pub const MIN_DECODER_WITH_PAST_BYTES: u64 = 120_000_000;
/// The smallest acceptable size of the tokenizer.
pub const MIN_TOKENIZER_BYTES: u64 = 1_000;

/// The verdict on one file in the size pass: not found, unreadable, too
/// small, or fine.
pub open spec fn file_verdict(name: Seq<char>, f: FileState, min: u64) -> Option<Seq<char>> {
    if !f.exists {
        Some(name + " not found"@)
    } else {
        match f.size {
            Ok(n) => if n < min {
                Some(
                    name + " is incomplete: "@ + decimal(n as nat) + " bytes (expected at least "@
                        + decimal(min as nat) + " bytes)"@,
                )
            } else {
                None
            },
            Err(e) => Some("Failed to read "@ + name + " metadata: "@ + e@),
        }
    }
}

/// Why a model directory is not usable, if it is not: the presence of the
/// tokenizer, encoder, decoder and decoder-with-cache files is checked
/// first, then each file's size in the order encoder, decoder,
/// decoder-with-cache, tokenizer.
pub open spec fn directory_problem(p: ModelProbe) -> Option<Seq<char>> {
    if !p.tokenizer.exists {
        Some("tokenizer.json not found"@)
    } else if !p.encoder.exists {
        Some("encoder_model.onnx not found"@)
    } else if !p.decoder.exists {
        Some("decoder_model.onnx not found"@)
    } else if !p.decoder_with_past.exists {
        Some("decoder_with_past_model.onnx not found"@)
    } else if file_verdict("encoder_model.onnx"@, p.encoder, MIN_ENCODER_BYTES) is Some {
        file_verdict("encoder_model.onnx"@, p.encoder, MIN_ENCODER_BYTES)
    } else if file_verdict("decoder_model.onnx"@, p.decoder, MIN_DECODER_BYTES) is Some {
        file_verdict("decoder_model.onnx"@, p.decoder, MIN_DECODER_BYTES)
    } else if file_verdict(
        "decoder_with_past_model.onnx"@,
        p.decoder_with_past,
        MIN_DECODER_WITH_PAST_BYTES,
    ) is Some {
        file_verdict(
            "decoder_with_past_model.onnx"@,
            p.decoder_with_past,
            MIN_DECODER_WITH_PAST_BYTES,
        )
    } else {
        file_verdict("tokenizer.json"@, p.tokenizer, MIN_TOKENIZER_BYTES)
    }
}

/// A file that exists, whose size could be read, and that holds at least
/// `min` bytes.
pub open spec fn file_complete(f: FileState, min: u64) -> bool {
    f.exists && (f.size matches Ok(n) && n >= min)
}

/// A model directory passes validation exactly when each of its four files
/// is complete: the encoder at least 65 MB, the first-step decoder 130 MB,
/// the later-step decoder 120 MB and the tokenizer 1 kB.
pub proof fn valid_directory_has_every_file_complete(p: ModelProbe)
    ensures
        directory_problem(p) is None <==> (file_complete(p.encoder, 65_000_000) && file_complete(
            p.decoder,
            130_000_000,
        ) && file_complete(p.decoder_with_past, 120_000_000) && file_complete(
            p.tokenizer,
            1_000,
        )),
{
}

/// A model is reported available only when each of its four files is
/// complete, and it is reported corrupted when the files all exist but one
/// of them is not.
pub proof fn available_model_has_every_file_complete(d: ModelDirProbe, size_mb: u32)
    ensures
        status_found(false, d, size_mb) is Available ==> file_complete(d.files.encoder, 65_000_000)
            && file_complete(d.files.decoder, 130_000_000) && file_complete(
            d.files.decoder_with_past,
            120_000_000,
        ) && file_complete(d.files.tokenizer, 1_000),
        d.dir_exists && d.files.encoder.exists && d.files.decoder.exists
            && d.files.decoder_with_past.exists && d.files.tokenizer.exists && !(file_complete(
            d.files.encoder,
            65_000_000,
        ) && file_complete(d.files.decoder, 130_000_000) && file_complete(
            d.files.decoder_with_past,
            120_000_000,
        ) && file_complete(d.files.tokenizer, 1_000)) ==> status_found(false, d, size_mb) is Corrupted,
{
    valid_directory_has_every_file_complete(d.files);
}

fn check_file(name: &str, f: &FileState, min: u64) -> (r: Result<(), String>)
    ensures
        match file_verdict(name@, *f, min) {
            Some(m) => r matches Err(e) && e@ == m,
            None => r is Ok,
        },
{
    if !f.exists {
        let mut e = copy_str(name);
        push_str(&mut e, " not found");
        return Err(e);
    }
    match &f.size {
        Ok(n) => {
            if *n < min {
                let mut e = copy_str(name);
                push_str(&mut e, " is incomplete: ");
                push_decimal(&mut e, *n);
                push_str(&mut e, " bytes (expected at least ");
                push_decimal(&mut e, min);
                push_str(&mut e, " bytes)");
                Err(e)
            } else {
                Ok(())
            }
        },
        Err(m) => {
            let mut e = copy_str("Failed to read ");
            push_str(&mut e, name);
            push_str(&mut e, " metadata: ");
            push_str(&mut e, m.as_str());
            Err(e)
        },
    }
}

/// Whether a model directory holds all its files, each large enough; the
/// error says what is wrong.
pub fn validate_model_directory(probe: &ModelProbe) -> (r: Result<(), String>)
    ensures
        match directory_problem(*probe) {
            Some(m) => r matches Err(e) && e@ == m,
            None => r is Ok,
        },
{
    if !probe.tokenizer.exists {
        return Err(copy_str("tokenizer.json not found"));
    }
    if !probe.encoder.exists {
        return Err(copy_str("encoder_model.onnx not found"));
    }
    if !probe.decoder.exists {
        return Err(copy_str("decoder_model.onnx not found"));
    }
    if !probe.decoder_with_past.exists {
        return Err(copy_str("decoder_with_past_model.onnx not found"));
    }
    check_file("encoder_model.onnx", &probe.encoder, MIN_ENCODER_BYTES)?;
    check_file("decoder_model.onnx", &probe.decoder, MIN_DECODER_BYTES)?;
    check_file("decoder_with_past_model.onnx", &probe.decoder_with_past, MIN_DECODER_WITH_PAST_BYTES)?;
    check_file("tokenizer.json", &probe.tokenizer, MIN_TOKENIZER_BYTES)
}

/// The size of a file when it could be read, else nothing.
pub open spec fn readable_size(f: FileState) -> nat {
    match f.size {
        Ok(n) => n as nat,
        Err(_) => 0,
    }
}

/// The total size of the model files that could be read.
pub open spec fn probe_total(p: ModelProbe) -> nat {
    readable_size(p.encoder) + readable_size(p.decoder) + readable_size(p.decoder_with_past)
        + readable_size(p.tokenizer)
}

/// What is found of a model's directory.
pub struct ModelDirProbe {
    /// The model's directory.
    pub path: String,
    pub dir_exists: bool,
    pub files: ModelProbe,
}

/// The status of a model found on disk: downloading while a download runs;
/// available when its directory holds every file, large enough; corrupted
/// (with the size found and the size expected) when the files are there
/// but one is too small or unreadable; otherwise missing.
pub open spec fn status_found(downloading: bool, d: ModelDirProbe, size_mb: u32) -> ModelStatus {
    if downloading {
        ModelStatus::Downloading { progress: 0 }
    } else if d.dir_exists && d.files.encoder.exists && d.files.decoder.exists
        && d.files.decoder_with_past.exists && d.files.tokenizer.exists {
        if directory_problem(d.files) is None {
            ModelStatus::Available
        } else {
            ModelStatus::Corrupted {
                file_size: probe_total(d.files) as u64,
                expected_min_size: (size_mb * 1024 * 1024) as u64,
            }
        }
    } else {
        ModelStatus::Missing
    }
}

fn readable(f: &FileState) -> (r: u64)
    ensures
        r == readable_size(*f),
{
    match &f.size {
        Ok(n) => *n,
        Err(_) => 0,
    }
}

/// The status of a model found on disk.
pub fn discovered_status(downloading: bool, d: &ModelDirProbe, size_mb: u32) -> (r: ModelStatus)
    requires
        probe_total(d.files) <= u64::MAX,
    ensures
        r == status_found(downloading, *d, size_mb),
{
    if downloading {
        return ModelStatus::Downloading { progress: 0 };
    }
    let f = &d.files;
    if d.dir_exists && f.encoder.exists && f.decoder.exists && f.decoder_with_past.exists
        && f.tokenizer.exists {
        match validate_model_directory(f) {
            Ok(()) => ModelStatus::Available,
            Err(_) => {
                let total = readable(&f.encoder) + readable(&f.decoder) + readable(
                    &f.decoder_with_past,
                ) + readable(&f.tokenizer);
                let expected = (size_mb as u64) * 1024 * 1024;
                ModelStatus::Corrupted { file_size: total, expected_min_size: expected }
            },
        }
    } else {
        ModelStatus::Missing
    }
}


/// The index of the first model named `name`.
pub open spec fn model_index(ms: Seq<ModelInfo>, name: Seq<char>) -> Option<int>
    decreases ms.len(),
{
    if ms.len() == 0 {
        None
    } else if ms[0].name@ == name {
        Some(0)
    } else {
        match model_index(ms.drop_first(), name) {
            Some(i) => Some(i + 1),
            None => None,
        }
    }
}

/// The models with the status of the one named `name` replaced.
pub open spec fn with_status(ms: Seq<ModelInfo>, name: Seq<char>, st: ModelStatus) -> Seq<ModelInfo> {
    match model_index(ms, name) {
        Some(i) => ms.update(i, ModelInfo { status: st, ..ms[i] }),
        None => ms,
    }
}

/// The names in a list of names.
pub open spec fn name_set(v: Seq<String>) -> Set<Seq<char>> {
    Set::new(|n: Seq<char>| exists|i: int| 0 <= i < v.len() && #[trigger] v[i]@ == n)
}

fn find_model(ms: &Vec<ModelInfo>, name: &str) -> (r: Option<usize>)
    ensures
        r matches Some(i) ==> model_index(ms@, name@) == Some(i as int) && i < ms.len(),
        r is None ==> model_index(ms@, name@) is None,
{
    let mut i: usize = 0;
    assert(ms@.skip(0) =~= ms@);
    while i < ms.len()
        invariant
            i <= ms.len(),
            model_index(ms@, name@) == match model_index(ms@.skip(i as int), name@) {
                Some(j) => Some(j + i),
                None => None::<int>,
            },
        decreases ms.len() - i,
    {
        assert(ms@.skip(i as int)[0] == ms@[i as int]);
        if str_eq(ms[i].name.as_str(), name) {
            return Some(i);
        }
        assert(ms@.skip(i as int).drop_first() =~= ms@.skip(i + 1));
        i += 1;
    }
    None
}

fn set_status(ms: &mut Vec<ModelInfo>, name: &str, st: ModelStatus)
    ensures
        final(ms)@ == with_status(old(ms)@, name@, st),
{
    match find_model(ms, name) {
        Some(i) => {
            let old_info = ms[i].duplicate();
            let info = ModelInfo { status: st, ..old_info };
            ms.set(i, info);
        },
        None => {},
    }
}

fn contains_name(v: &Vec<String>, name: &str) -> (r: bool)
    ensures
        r == name_set(v@).contains(name@),
{
    let mut i: usize = 0;
    while i < v.len()
        invariant
            i <= v.len(),
            forall|j: int| 0 <= j < i ==> #[trigger] v@[j]@ != name@,
        decreases v.len() - i,
    {
        if str_eq(v[i].as_str(), name) {
            return true;
        }
        i += 1;
    }
    false
}

fn remove_name(v: &mut Vec<String>, name: &str)
    ensures
        name_set(final(v)@) == name_set(old(v)@).remove(name@),
{
    let mut kept: Vec<String> = Vec::new();
    let mut i: usize = 0;
    while i < v.len()
        invariant
            i <= v.len(),
            name_set(kept@) == name_set(v@.take(i as int)).remove(name@),
        decreases v.len() - i,
    {
        let ghost before = kept@;
        let keep_it = !str_eq(v[i].as_str(), name);
        if keep_it {
            kept.push(v[i].clone());
        }
        let ghost x = v@[i as int]@;
        assert(name_set(v@.take(i + 1)) =~= name_set(v@.take(i as int)).insert(x)) by {
            assert forall|n: Seq<char>| name_set(v@.take(i + 1)).contains(n) implies name_set(
                v@.take(i as int),
            ).insert(x).contains(n) by {
                let k = choose|k: int| 0 <= k < i + 1 && #[trigger] v@.take(i + 1)[k]@ == n;
                if k < i {
                    assert(v@.take(i as int)[k]@ == n);
                }
            }
            assert forall|n: Seq<char>| name_set(v@.take(i as int)).insert(x).contains(n) implies name_set(
                v@.take(i + 1),
            ).contains(n) by {
                if n == x {
                    assert(v@.take(i + 1)[i as int]@ == n);
                } else {
                    let k = choose|k: int| 0 <= k < i && #[trigger] v@.take(i as int)[k]@ == n;
                    assert(v@.take(i + 1)[k]@ == n);
                }
            }
        }
        if keep_it {
            assert(name_set(kept@) =~= name_set(before).insert(x)) by {
                assert forall|n: Seq<char>| name_set(kept@).contains(n) implies name_set(before).insert(
                    x,
                ).contains(n) by {
                    let k = choose|k: int| 0 <= k < kept@.len() && #[trigger] kept@[k]@ == n;
                    if k < before.len() {
                        assert(before[k]@ == n);
                    }
                }
                assert forall|n: Seq<char>| name_set(before).insert(x).contains(n) implies name_set(
                    kept@,
                ).contains(n) by {
                    if n == x {
                        assert(kept@[before.len() as int]@ == n);
                    } else {
                        let k = choose|k: int| 0 <= k < before.len() && #[trigger] before[k]@ == n;
                        assert(kept@[k]@ == n);
                    }
                }
            }
        } else {
            assert(kept@ == before);
        }
        assert(name_set(kept@) =~= name_set(v@.take(i + 1)).remove(name@));
        i += 1;
    }
    assert(v@.take(v.len() as int) =~= v@);
    *v = kept;
}

fn add_name(v: &mut Vec<String>, name: &str)
    ensures
        name_set(final(v)@) == name_set(old(v)@).insert(name@),
{
    let ghost before = v@;
    v.push(copy_str(name));
    assert(name_set(v@) =~= name_set(before).insert(name@)) by {
        assert forall|n: Seq<char>| name_set(v@).contains(n) implies name_set(before).insert(
            name@,
        ).contains(n) by {
            let k = choose|k: int| 0 <= k < v@.len() && #[trigger] v@[k]@ == n;
            if k < before.len() {
                assert(before[k]@ == n);
            }
        }
        assert forall|n: Seq<char>| name_set(before).insert(name@).contains(n) implies name_set(
            v@,
        ).contains(n) by {
            if n == name@ {
                assert(v@[before.len() as int]@ == n);
            } else {
                let k = choose|k: int| 0 <= k < before.len() && #[trigger] before[k]@ == n;
                assert(v@[k]@ == n);
            }
        }
    }
}

/// The name of the model the engine knows.
pub open spec fn base_model_name() -> Seq<char> {
    "moonshine-base"@
}

/// What the engine does to load a model.
pub enum LoadPlan {
    /// The model is already loaded: nothing to do.
    AlreadyLoaded,
    /// Load the model from its directory, unloading the current one first.
    Load { path: String, unload_first: bool },
}

/// The bookkeeping of the speech engine (the loaded model itself is kept
/// by its caller).
pub struct MoonshineEngine {
    models_dir: String,
    current_model_name: Option<String>,
    available_models: Vec<ModelInfo>,
    cancel_download_flag: Option<String>,
    active_downloads: Vec<String>,
}

impl MoonshineEngine {
    /// The directory holding the models.
    pub closed spec fn dir(&self) -> Seq<char> {
        self.models_dir@
    }

    /// The name of the loaded model, if any.
    pub closed spec fn current(&self) -> Option<Seq<char>> {
        match self.current_model_name {
            Some(n) => Some(n@),
            None => None,
        }
    }

    /// The known models.
    pub closed spec fn models(&self) -> Seq<ModelInfo> {
        self.available_models@
    }

    /// The model whose download is being cancelled, if any.
    pub closed spec fn cancelling(&self) -> Option<Seq<char>> {
        match self.cancel_download_flag {
            Some(n) => Some(n@),
            None => None,
        }
    }

    /// The models being downloaded.
    pub closed spec fn downloading(&self) -> Set<Seq<char>> {
        name_set(self.active_downloads@)
    }

    /// An engine that keeps its models in `models_dir`, with nothing known,
    /// loaded or downloading.
    pub fn new_with_models_dir(models_dir: String) -> (r: Self)
        ensures
            r.dir() == models_dir@,
            r.current() is None,
            r.models().len() == 0,
            r.cancelling() is None,
            r.downloading() == Set::<Seq<char>>::empty(),
    {
        let r = MoonshineEngine {
            models_dir,
            current_model_name: None,
            available_models: Vec::new(),
            cancel_download_flag: None,
            active_downloads: Vec::new(),
        };
        assert(r.downloading() =~= Set::<Seq<char>>::empty());
        r
    }

    /// The directory holding the models.
    pub fn get_models_directory(&self) -> (r: String)
        ensures
            r@ == self.dir(),
    {
        self.models_dir.clone()
    }

    /// The model loaded, if any.
    pub fn get_current_model(&self) -> (r: Option<String>)
        ensures
            match r {
                Some(n) => self.current() == Some(n@),
                None => self.current() is None,
            },
    {
        match &self.current_model_name {
            Some(n) => Some(n.clone()),
            None => None,
        }
    }

    /// Whether a model is loaded.
    pub fn is_model_loaded(&self) -> (r: bool)
        ensures
            r == self.current() is Some,
    {
        self.current_model_name.is_some()
    }

    /// Records what was found on disk of the known model (`moonshine-base`,
    /// 250 MB, English) and returns the models, now the known ones.
    pub fn discover_models(&mut self, found: &ModelDirProbe) -> (r: Vec<ModelInfo>)
        requires
            probe_total(found.files) <= u64::MAX,
        ensures
            r.len() == 1,
            r@[0].name@ == base_model_name(),
            r@[0].path@ == found.path@,
            r@[0].size_mb == 250,
            r@[0].speed@ == "Ultra Fast"@,
            r@[0].language@ == "en"@,
            r@[0].description@ == "Ultra-fast English model for real-time transcription"@,
            r@[0].status == status_found(
                old(self).downloading().contains(base_model_name()),
                *found,
                250,
            ),
            final(self).models() == r@,
            final(self).dir() == old(self).dir(),
            final(self).current() == old(self).current(),
            final(self).cancelling() == old(self).cancelling(),
            final(self).downloading() == old(self).downloading(),
    {
        let downloading = contains_name(&self.active_downloads, "moonshine-base");
        let status = discovered_status(downloading, found, 250);
        let info = ModelInfo {
            name: copy_str("moonshine-base"),
            path: found.path.clone(),
            size_mb: 250,
            speed: copy_str("Ultra Fast"),
            status,
            description: copy_str("Ultra-fast English model for real-time transcription"),
            language: copy_str("en"),
        };
        let mut models: Vec<ModelInfo> = Vec::new();
        models.push(info.duplicate());
        self.available_models = models;
        let mut r: Vec<ModelInfo> = Vec::new();
        r.push(info);
        r
    }
}


/// What `{:?}` writes for a string: quoted, with escapes.
pub uninterp spec fn str_debug(s: Seq<char>) -> Seq<char>;

/// Formats a string with `{:?}`.
#[verifier::external_body]
fn debug_str(s: &str) -> (r: String)
    ensures
        r@ == str_debug(s@),
{
    format!("{:?}", s)
}

/// What `{:?}` writes for a status.
pub open spec fn status_debug(st: ModelStatus) -> Seq<char> {
    match st {
        ModelStatus::Available => "Available"@,
        ModelStatus::Missing => "Missing"@,
        ModelStatus::Downloading { progress } => "Downloading { progress: "@ + decimal(
            progress as nat,
        ) + " }"@,
        ModelStatus::Error(e) => "Error("@ + str_debug(e@) + ")"@,
        ModelStatus::Corrupted { file_size, expected_min_size } => "Corrupted { file_size: "@
            + decimal(file_size as nat) + ", expected_min_size: "@ + decimal(
            expected_min_size as nat,
        ) + " }"@,
    }
}

fn status_text(st: &ModelStatus) -> (r: String)
    ensures
        r@ == status_debug(*st),
{
    match st {
        ModelStatus::Available => copy_str("Available"),
        ModelStatus::Missing => copy_str("Missing"),
        ModelStatus::Downloading { progress } => {
            let mut r = copy_str("Downloading { progress: ");
            push_decimal(&mut r, *progress as u64);
            push_str(&mut r, " }");
            r
        },
        ModelStatus::Error(e) => {
            let mut r = copy_str("Error(");
            let d = debug_str(e.as_str());
            push_str(&mut r, d.as_str());
            push_str(&mut r, ")");
            r
        },
        ModelStatus::Corrupted { file_size, expected_min_size } => {
            let mut r = copy_str("Corrupted { file_size: ");
            push_decimal(&mut r, *file_size);
            push_str(&mut r, ", expected_min_size: ");
            push_decimal(&mut r, *expected_min_size);
            push_str(&mut r, " }");
            r
        },
    }
}

/// What loading the model named `name` comes to: nothing when it is loaded,
/// a load (after unloading the current model) when it is available, an
/// error otherwise.
pub open spec fn load_outcome(e: MoonshineEngine, name: Seq<char>, r: Result<LoadPlan, String>) -> bool {
    match model_index(e.models(), name) {
        None => r matches Err(m) && m@ == "Model "@ + name + " not found"@,
        Some(i) => match e.models()[i].status {
            ModelStatus::Available => if e.current() == Some(name) {
                r matches Ok(LoadPlan::AlreadyLoaded)
            } else {
                r matches Ok(LoadPlan::Load { path, unload_first }) && path@ == e.models()[i].path@
                    && unload_first == e.current() is Some
            },
            ModelStatus::Missing => r matches Err(m) && m@ == "Moonshine model "@ + name
                + " is not downloaded"@,
            ModelStatus::Downloading { .. } => r matches Err(m) && m@ == "Moonshine model "@ + name
                + " is currently downloading"@,
            ModelStatus::Error(err) => r matches Err(m) && m@ == "Moonshine model "@ + name
                + " has error: "@ + err@,
            ModelStatus::Corrupted { .. } => r matches Err(m) && m@ == "Moonshine model "@ + name
                + " is corrupted and cannot be loaded"@,
        },
    }
}

/// What deleting the model named `name` comes to: its directory to remove
/// when it is available or corrupted, an error otherwise.
pub open spec fn delete_outcome(e: MoonshineEngine, name: Seq<char>, r: Result<String, String>) -> bool {
    match model_index(e.models(), name) {
        None => r matches Err(m) && m@ == "Moonshine model '"@ + name + "' not found"@,
        Some(i) => match e.models()[i].status {
            ModelStatus::Available => r matches Ok(p) && p@ == e.models()[i].path@,
            ModelStatus::Corrupted { .. } => r matches Ok(p) && p@ == e.models()[i].path@,
            _ => r matches Err(m) && m@
                == "Can only delete corrupted or available Moonshine models. Model '"@ + name
                + "' has status: "@ + status_debug(e.models()[i].status),
        },
    }
}

fn message2(a: &str, name: &str, b: &str) -> (r: String)
    ensures
        r@ == a@ + name@ + b@,
{
    let mut r = copy_str(a);
    push_str(&mut r, name);
    push_str(&mut r, b);
    r
}

/// The base address of the model files.
pub open spec fn model_base_url() -> Seq<char> {
    "https://huggingface.co/onnx-community/moonshine-base-ONNX/resolve/main/onnx"@
}

/// The address of the tokenizer description.
pub open spec fn tokenizer_url() -> Seq<char> {
    "https://huggingface.co/onnx-community/moonshine-base-ONNX/resolve/main/tokenizer.json"@
}

/// The files of a download, in order, with their addresses.
pub open spec fn download_list() -> Seq<(Seq<char>, Seq<char>)> {
    seq![
        ("encoder_model.onnx"@, model_base_url() + "/"@ + "encoder_model.onnx"@),
        ("decoder_model.onnx"@, model_base_url() + "/"@ + "decoder_model.onnx"@),
        ("decoder_with_past_model.onnx"@, model_base_url() + "/"@ + "decoder_with_past_model.onnx"@),
        ("tokenizer.json"@, tokenizer_url()),
    ]
}

/// The files to download and their addresses.
pub fn download_files() -> (r: Vec<(String, String)>)
    ensures
        r@.map_values(|p: (String, String)| (p.0@, p.1@)) == download_list(),
{
    let base = "https://huggingface.co/onnx-community/moonshine-base-ONNX/resolve/main/onnx";
    let mut r: Vec<(String, String)> = Vec::new();
    r.push((copy_str("encoder_model.onnx"), message2(base, "/", "encoder_model.onnx")));
    r.push((copy_str("decoder_model.onnx"), message2(base, "/", "decoder_model.onnx")));
    r.push(
        (
            copy_str("decoder_with_past_model.onnx"),
            message2(base, "/", "decoder_with_past_model.onnx"),
        ),
    );
    r.push(
        (
            copy_str("tokenizer.json"),
            copy_str(
                "https://huggingface.co/onnx-community/moonshine-base-ONNX/resolve/main/tokenizer.json",
            ),
        ),
    );
    assert(r@.map_values(|p: (String, String)| (p.0@, p.1@)) =~= download_list());
    r
}

/// The expected size of a model file, for progress when the server does
/// not say (0 for another name).
pub open spec fn expected_size(name: Seq<char>) -> u64 {
    if name == "encoder_model.onnx"@ {
        81_000_000
    } else if name == "decoder_model.onnx"@ {
        158_000_000
    } else if name == "decoder_with_past_model.onnx"@ {
        147_000_000
    } else if name == "tokenizer.json"@ {
        4_000
    } else {
        0
    }
}

/// The expected size of a model file.
pub fn expected_file_size(name: &str) -> (r: u64)
    ensures
        r == expected_size(name@),
{
    if str_eq(name, "encoder_model.onnx") {
        81_000_000
    } else if str_eq(name, "decoder_model.onnx") {
        158_000_000
    } else if str_eq(name, "decoder_with_past_model.onnx") {
        147_000_000
    } else if str_eq(name, "tokenizer.json") {
        4_000
    } else {
        0
    }
}

/// The expected size of a whole download: the sum of the file sizes.
pub const TOTAL_DOWNLOAD_BYTES: u64 = 386_004_000;

impl MoonshineEngine {
    /// Decides how to load the model named `name`.
    pub fn plan_load(&self, model_name: &str) -> (r: Result<LoadPlan, String>)
        ensures
            load_outcome(*self, model_name@, r),
    {
        let i = match find_model(&self.available_models, model_name) {
            Some(i) => i,
            None => {
                return Err(message2("Model ", model_name, " not found"));
            },
        };
        let info = &self.available_models[i];
        match &info.status {
            ModelStatus::Available => {
                match &self.current_model_name {
                    Some(current) => {
                        if str_eq(current.as_str(), model_name) {
                            Ok(LoadPlan::AlreadyLoaded)
                        } else {
                            Ok(LoadPlan::Load { path: info.path.clone(), unload_first: true })
                        }
                    },
                    None => Ok(LoadPlan::Load { path: info.path.clone(), unload_first: false }),
                }
            },
            ModelStatus::Missing => Err(
                message2("Moonshine model ", model_name, " is not downloaded"),
            ),
            ModelStatus::Downloading { .. } => Err(
                message2("Moonshine model ", model_name, " is currently downloading"),
            ),
            ModelStatus::Error(err) => {
                let mut m = message2("Moonshine model ", model_name, " has error: ");
                push_str(&mut m, err.as_str());
                Err(m)
            },
            ModelStatus::Corrupted { .. } => Err(
                message2("Moonshine model ", model_name, " is corrupted and cannot be loaded"),
            ),
        }
    }

    /// Records that the model named `name` is now the loaded one.
    pub fn model_loaded(&mut self, model_name: &str)
        ensures
            final(self).current() == Some(model_name@),
            final(self).models() == old(self).models(),
            final(self).dir() == old(self).dir(),
            final(self).cancelling() == old(self).cancelling(),
            final(self).downloading() == old(self).downloading(),
    {
        self.current_model_name = Some(copy_str(model_name));
    }

    /// Forgets the loaded model; whether there was one.
    pub fn unload_model(&mut self) -> (r: bool)
        ensures
            r == old(self).current() is Some,
            final(self).current() is None,
            final(self).models() == old(self).models(),
            final(self).dir() == old(self).dir(),
            final(self).cancelling() == old(self).cancelling(),
            final(self).downloading() == old(self).downloading(),
    {
        let r = self.current_model_name.is_some();
        self.current_model_name = None;
        r
    }

    /// Decides whether the model named `name` may be deleted, and which
    /// directory to remove.
    pub fn plan_delete(&self, model_name: &str) -> (r: Result<String, String>)
        ensures
            delete_outcome(*self, model_name@, r),
    {
        let i = match find_model(&self.available_models, model_name) {
            Some(i) => i,
            None => {
                return Err(message2("Moonshine model '", model_name, "' not found"));
            },
        };
        let info = &self.available_models[i];
        match &info.status {
            ModelStatus::Available => Ok(info.path.clone()),
            ModelStatus::Corrupted { .. } => Ok(info.path.clone()),
            _ => {
                let mut m = message2(
                    "Can only delete corrupted or available Moonshine models. Model '",
                    model_name,
                    "' has status: ",
                );
                let t = status_text(&info.status);
                push_str(&mut m, t.as_str());
                Err(m)
            },
        }
    }

    /// Records that the model named `name` was deleted: it is missing now.
    pub fn model_deleted(&mut self, model_name: &str) -> (r: String)
        ensures
            r@ == "Successfully deleted Moonshine model '"@ + model_name@ + "'"@,
            final(self).models() == with_status(old(self).models(), model_name@, ModelStatus::Missing),
            final(self).current() == old(self).current(),
            final(self).dir() == old(self).dir(),
            final(self).cancelling() == old(self).cancelling(),
            final(self).downloading() == old(self).downloading(),
    {
        set_status(&mut self.available_models, model_name, ModelStatus::Missing);
        message2("Successfully deleted Moonshine model '", model_name, "'")
    }

    /// Starts a download of the model named `name`: refused while one of it
    /// runs; otherwise the model is marked downloading, any cancellation
    /// forgotten, and its directory returned (an unknown model is refused
    /// after that).
    pub fn begin_download(&mut self, model_name: &str) -> (r: Result<String, String>)
        ensures
            old(self).downloading().contains(model_name@) ==> {
                &&& r matches Err(m) && m@ == "Download already in progress for model: "@
                    + model_name@
                &&& *final(self) == *old(self)
            },
            !old(self).downloading().contains(model_name@) ==> {
                &&& final(self).cancelling() is None
                &&& final(self).current() == old(self).current()
                &&& final(self).dir() == old(self).dir()
                &&& match model_index(old(self).models(), model_name@) {
                    None => {
                        &&& r matches Err(m) && m@ == "Model "@ + model_name@ + " not found"@
                        &&& final(self).downloading() == old(self).downloading()
                        &&& final(self).models() == old(self).models()
                    },
                    Some(i) => {
                        &&& r matches Ok(p) && p@ == old(self).models()[i].path@
                        &&& final(self).downloading() == old(self).downloading().insert(
                            model_name@,
                        )
                        &&& final(self).models() == with_status(
                            old(self).models(),
                            model_name@,
                            ModelStatus::Downloading { progress: 0 },
                        )
                    },
                }
            },
    {
        if contains_name(&self.active_downloads, model_name) {
            let mut m = copy_str("Download already in progress for model: ");
            push_str(&mut m, model_name);
            return Err(m);
        }
        add_name(&mut self.active_downloads, model_name);
        self.cancel_download_flag = None;
        let i = match find_model(&self.available_models, model_name) {
            Some(i) => i,
            None => {
                remove_name(&mut self.active_downloads, model_name);
                assert(self.downloading() =~= old(self).downloading());
                return Err(message2("Model ", model_name, " not found"));
            },
        };
        let path = self.available_models[i].path.clone();
        set_status(&mut self.available_models, model_name, ModelStatus::Downloading { progress: 0 });
        Ok(path)
    }

    /// Whether the download of the model named `name` is being cancelled.
    pub fn is_download_cancelled(&self, model_name: &str) -> (r: bool)
        ensures
            r == (self.cancelling() == Some(model_name@)),
    {
        match &self.cancel_download_flag {
            Some(n) => str_eq(n.as_str(), model_name),
            None => false,
        }
    }

    /// Records the progress of a download.
    pub fn record_download_progress(&mut self, model_name: &str, progress: u8)
        ensures
            final(self).models() == with_status(
                old(self).models(),
                model_name@,
                ModelStatus::Downloading { progress },
            ),
            final(self).current() == old(self).current(),
            final(self).dir() == old(self).dir(),
            final(self).cancelling() == old(self).cancelling(),
            final(self).downloading() == old(self).downloading(),
    {
        set_status(&mut self.available_models, model_name, ModelStatus::Downloading { progress });
    }

    /// Records that a download stopped on an error or a cancellation.
    pub fn abort_download(&mut self, model_name: &str)
        ensures
            final(self).downloading() == old(self).downloading().remove(model_name@),
            final(self).models() == old(self).models(),
            final(self).current() == old(self).current(),
            final(self).dir() == old(self).dir(),
            final(self).cancelling() == old(self).cancelling(),
    {
        remove_name(&mut self.active_downloads, model_name);
    }

    /// Records that a download finished: the model is available, no longer
    /// downloading, and its cancellation (if any) forgotten.
    pub fn complete_download(&mut self, model_name: &str)
        ensures
            final(self).models() == with_status(
                old(self).models(),
                model_name@,
                ModelStatus::Available,
            ),
            final(self).downloading() == old(self).downloading().remove(model_name@),
            old(self).cancelling() == Some(model_name@) ==> final(self).cancelling() is None,
            old(self).cancelling() != Some(model_name@) ==> final(self).cancelling()
                == old(self).cancelling(),
            final(self).current() == old(self).current(),
            final(self).dir() == old(self).dir(),
    {
        set_status(&mut self.available_models, model_name, ModelStatus::Available);
        remove_name(&mut self.active_downloads, model_name);
        if self.is_download_cancelled(model_name) {
            self.cancel_download_flag = None;
        }
    }

    /// Cancels the download of the model named `name`: the download loop
    /// sees the cancellation, the model is no longer downloading and is
    /// missing.
    pub fn cancel_download(&mut self, model_name: &str)
        ensures
            final(self).cancelling() == Some(model_name@),
            final(self).downloading() == old(self).downloading().remove(model_name@),
            final(self).models() == with_status(
                old(self).models(),
                model_name@,
                ModelStatus::Missing,
            ),
            final(self).current() == old(self).current(),
            final(self).dir() == old(self).dir(),
    {
        self.cancel_download_flag = Some(copy_str(model_name));
        remove_name(&mut self.active_downloads, model_name);
        set_status(&mut self.available_models, model_name, ModelStatus::Missing);
    }
}


/// Before a download, the files of a model directory are removed when the
/// directory exists but does not hold a usable model.
pub fn needs_cleanup(dir_exists: bool, probe: &ModelProbe) -> (r: bool)
    ensures
        r == (dir_exists && directory_problem(*probe) is Some),
{
    dir_exists && validate_model_directory(probe).is_err()
}


/// A download that was started and then finished, failed or was cancelled
/// leaves the downloads under way as they were before it started.
pub proof fn finished_download_leaves_no_trace(active: Set<Seq<char>>, name: Seq<char>)
    requires
        !active.contains(name),
    ensures
        active.insert(name).remove(name) == active,
{
    assert(active.insert(name).remove(name) =~= active);
}

} // verus!
