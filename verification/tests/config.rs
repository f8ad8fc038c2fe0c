use hearsay::config::{
    resolve_child_binary, join_path, Config, ConfigFile, PathsFile, ServerFile, SummarizationFile,
};

fn empty_file() -> ConfigFile {
    ConfigFile { server: None, paths: None, transcription: None, summarization: None }
}

#[test]
fn missing_file_yields_defaults() {
    let cfg = Config::load(Some("/nowhere/nonexistent.toml"), None, |path| {
        assert_eq!(path, "/nowhere/nonexistent.toml");
        Ok::<_, String>(None)
    })
    .unwrap();
    assert_eq!(cfg.server.port, 7717);
    assert_eq!(cfg.summarization.model, "gemma3-12b-q4");
}

#[test]
fn partial_toml_keeps_defaults_for_unspecified_sections() {
    // What a file holding "[server]\nport = 9000\n" says.
    let file = ConfigFile {
        server: Some(ServerFile { host: None, port: Some(9000) }),
        ..empty_file()
    };
    let cfg = Config::load_from(Some(file));
    assert_eq!(cfg.server.port, 9000);
    assert_eq!(cfg.server.host, "127.0.0.1"); // default still applied
    assert_eq!(cfg.transcription.model, "whisper-large-v3-turbo");
}

#[test]
fn empty_toml_yields_defaults() {
    let cfg = Config::load_from(Some(empty_file()));
    assert_eq!(cfg.server.port, 7717);
    assert!(cfg.summarization.keep_loaded);
}

#[test]
fn default_config_values() {
    let cfg = Config::default();
    assert_eq!(cfg.server.host, "127.0.0.1");
    assert_eq!(cfg.server.port, 7717);
    assert!(cfg.paths.data_dir.is_none());
    assert_eq!(cfg.transcription.model, "whisper-large-v3-turbo");
    assert_eq!(cfg.transcription.workers, 2);
    assert_eq!(cfg.transcription.default_language, "auto");
    assert_eq!(cfg.summarization.model, "gemma3-12b-q4");
    assert!(cfg.summarization.keep_loaded);
    assert!(cfg.summarization.child_binary.is_none());
}

#[test]
fn given_keys_override_defaults() {
    let file = ConfigFile {
        paths: Some(PathsFile { data_dir: Some("/data".into()) }),
        summarization: Some(SummarizationFile {
            model: None,
            keep_loaded: Some(false),
            child_binary: Some("/bin/child".into()),
        }),
        ..empty_file()
    };
    let cfg = Config::load_from(Some(file));
    assert_eq!(cfg.paths.data_dir.as_deref(), Some("/data"));
    assert!(!cfg.summarization.keep_loaded);
    assert_eq!(cfg.summarization.model, "gemma3-12b-q4");
    assert_eq!(resolve_child_binary(&cfg, "fallback"), "/bin/child");
    assert_eq!(resolve_child_binary(&Config::default(), "fallback"), "fallback");
    assert_eq!(cfg.resolved_data_dir(Some("/home/u/.local/share")), "/data");
}

#[test]
fn config_path_resolution() {
    assert_eq!(Config::resolved_config_path(Some("/etc/h.toml"), Some("/cfg")), "/etc/h.toml");
    assert_eq!(Config::resolved_config_path(None, Some("/home/u/.config")), "/home/u/.config/hearsay/config.toml");
    assert_eq!(Config::resolved_config_path(None, Some("/cfg/")), "/cfg/hearsay/config.toml");
    assert_eq!(Config::resolved_config_path(None, None), "hearsay.toml");
}

#[test]
fn data_dir_resolution() {
    let cfg = Config::default();
    assert_eq!(cfg.resolved_data_dir(Some("/home/u/.local/share")), "/home/u/.local/share/hearsay");
    assert_eq!(cfg.resolved_data_dir(None), "./hearsay-data");
    assert_eq!(join_path("", "x"), "x");
}

#[test]
fn load_passes_read_errors_on() {
    let r = Config::load(None, Some("/cfg"), |path| {
        assert_eq!(path, "/cfg/hearsay/config.toml");
        Err::<Option<ConfigFile>, String>("bad toml".into())
    });
    assert_eq!(r.unwrap_err(), "bad toml");
}

#[test]
fn model_files_live_under_the_data_directory() {
    let c = Config::default();
    assert_eq!(
        c.transcription.resolved_model_path("/data/hearsay"),
        "/data/hearsay/models/whisper-large-v3-turbo.bin"
    );
    assert_eq!(
        c.summarization.resolved_model_path("/data/hearsay/"),
        "/data/hearsay/models/gemma3-12b-q4.gguf"
    );
}
