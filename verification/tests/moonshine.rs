use maity::moonshine::{
    discovered_status, download_files, expected_file_size, validate_model_directory, FileState,
    LoadPlan, ModelDirProbe, ModelProbe, ModelStatus, MoonshineEngine, MoonshineEngineError,
    TOTAL_DOWNLOAD_BYTES,
};

fn file(size: u64) -> FileState {
    FileState { exists: true, size: Ok(size) }
}

fn complete_probe() -> ModelProbe {
    ModelProbe {
        encoder: file(81_000_000),
        decoder: file(158_000_000),
        decoder_with_past: file(147_000_000),
        tokenizer: file(4_000),
    }
}

fn dir(files: ModelProbe) -> ModelDirProbe {
    ModelDirProbe { path: "/models/moonshine/moonshine-base".to_string(), dir_exists: true, files }
}

#[test]
fn directory_validation_messages() {
    assert!(validate_model_directory(&complete_probe()).is_ok());
    let mut p = complete_probe();
    p.tokenizer = FileState { exists: false, size: Ok(0) };
    assert_eq!(validate_model_directory(&p).err().unwrap(), "tokenizer.json not found");
    let mut p = complete_probe();
    p.decoder = file(1_000);
    assert_eq!(
        validate_model_directory(&p).err().unwrap(),
        "decoder_model.onnx is incomplete: 1000 bytes (expected at least 130000000 bytes)"
    );
    let mut p = complete_probe();
    p.encoder = FileState { exists: true, size: Err("denied".to_string()) };
    assert_eq!(
        validate_model_directory(&p).err().unwrap(),
        "Failed to read encoder_model.onnx metadata: denied"
    );
}

#[test]
fn discovered_statuses() {
    assert!(matches!(discovered_status(false, &dir(complete_probe()), 250), ModelStatus::Available));
    assert!(matches!(
        discovered_status(true, &dir(complete_probe()), 250),
        ModelStatus::Downloading { progress: 0 }
    ));
    let mut p = complete_probe();
    p.decoder = file(10);
    match discovered_status(false, &dir(p), 250) {
        ModelStatus::Corrupted { file_size, expected_min_size } => {
            assert_eq!(file_size, 81_000_000 + 10 + 147_000_000 + 4_000);
            assert_eq!(expected_min_size, 250 * 1024 * 1024);
        }
        _ => panic!("expected Corrupted"),
    }
    let mut missing = dir(complete_probe());
    missing.dir_exists = false;
    assert!(matches!(discovered_status(false, &missing, 250), ModelStatus::Missing));
}

#[test]
fn loading_and_deleting() {
    let mut e = MoonshineEngine::new_with_models_dir("/models/moonshine".to_string());
    assert!(e.plan_load("moonshine-base").err().unwrap() == "Model moonshine-base not found");
    let found = e.discover_models(&dir(complete_probe()));
    assert_eq!(found.len(), 1);
    assert_eq!(found[0].name, "moonshine-base");
    assert_eq!(found[0].size_mb, 250);
    match e.plan_load("moonshine-base").ok().unwrap() {
        LoadPlan::Load { path, unload_first } => {
            assert_eq!(path, "/models/moonshine/moonshine-base");
            assert!(!unload_first);
        }
        LoadPlan::AlreadyLoaded => panic!("nothing was loaded"),
    }
    e.model_loaded("moonshine-base");
    assert!(e.is_model_loaded());
    assert!(matches!(e.plan_load("moonshine-base").ok().unwrap(), LoadPlan::AlreadyLoaded));
    assert_eq!(e.plan_delete("moonshine-base").ok().unwrap(), "/models/moonshine/moonshine-base");
    assert_eq!(
        e.model_deleted("moonshine-base"),
        "Successfully deleted Moonshine model 'moonshine-base'"
    );
    assert_eq!(
        e.plan_load("moonshine-base").err().unwrap(),
        "Moonshine model moonshine-base is not downloaded"
    );
    assert_eq!(
        e.plan_delete("moonshine-base").err().unwrap(),
        "Can only delete corrupted or available Moonshine models. Model 'moonshine-base' has status: Missing"
    );
    assert!(e.unload_model());
    assert!(!e.unload_model());
    assert_eq!(e.get_current_model(), None);
}

#[test]
fn downloads_are_exclusive_and_cancellable() {
    let mut e = MoonshineEngine::new_with_models_dir("/m".to_string());
    e.discover_models(&dir(complete_probe()));
    assert_eq!(e.begin_download("moonshine-base").ok().unwrap(), "/models/moonshine/moonshine-base");
    assert_eq!(
        e.begin_download("moonshine-base").err().unwrap(),
        "Download already in progress for model: moonshine-base"
    );
    assert_eq!(
        e.plan_load("moonshine-base").err().unwrap(),
        "Moonshine model moonshine-base is currently downloading"
    );
    e.record_download_progress("moonshine-base", 42);
    assert_eq!(
        e.plan_delete("moonshine-base").err().unwrap(),
        "Can only delete corrupted or available Moonshine models. Model 'moonshine-base' has status: Downloading { progress: 42 }"
    );
    e.cancel_download("moonshine-base");
    assert!(e.is_download_cancelled("moonshine-base"));
    assert!(e.begin_download("moonshine-base").is_ok());
    assert!(!e.is_download_cancelled("moonshine-base"));
    e.complete_download("moonshine-base");
    assert!(e.plan_load("moonshine-base").is_ok());
    assert_eq!(e.begin_download("other").err().unwrap(), "Model other not found");
}

#[test]
fn download_plan() {
    let files = download_files();
    assert_eq!(files.len(), 4);
    assert_eq!(
        files[0].1,
        "https://huggingface.co/onnx-community/moonshine-base-ONNX/resolve/main/onnx/encoder_model.onnx"
    );
    assert_eq!(files[3].0, "tokenizer.json");
    let total: u64 = files.iter().map(|(name, _)| expected_file_size(name)).sum();
    assert_eq!(total, TOTAL_DOWNLOAD_BYTES);
    assert_eq!(expected_file_size("other"), 0);
}

#[test]
fn engine_error_messages() {
    assert_eq!(MoonshineEngineError::ModelNotLoaded.message(), "No Moonshine model loaded");
    assert_eq!(
        MoonshineEngineError::ModelNotFound("x".to_string()).message(),
        "Model 'x' not found"
    );
    assert_eq!(MoonshineEngineError::Other("y".to_string()).message(), "Error: y");
}

#[test]
fn aborted_download_and_cleanup_decision() {
    let mut e = MoonshineEngine::new_with_models_dir("/m".to_string());
    assert_eq!(e.get_models_directory(), "/m");
    e.discover_models(&dir(complete_probe()));
    e.begin_download("moonshine-base").unwrap();
    e.abort_download("moonshine-base");
    assert!(e.begin_download("moonshine-base").is_ok());
    assert!(!maity::moonshine::needs_cleanup(true, &complete_probe()));
    let mut broken = complete_probe();
    broken.encoder = file(5);
    assert!(maity::moonshine::needs_cleanup(true, &broken));
    assert!(!maity::moonshine::needs_cleanup(false, &broken));
}
