//! Daemon settings: their defaults, how a config file's sections override
//! them, and where the config file and the data directory are.
//!
//! A config file may leave out any section and any key; what it leaves out
//! keeps its default. Reading and decoding the file is done by the caller,
//! which hands over what the file says as a [`ConfigFile`].

use vstd::prelude::*;

use crate::text::{chars_of, push_str, string_from_chars};

verus! {

pub const DEFAULT_HOST: &'static str = "127.0.0.1";

pub const DEFAULT_PORT: u16 = 7717;

pub const DEFAULT_TRANSCRIPTION_MODEL: &'static str = "whisper-large-v3-turbo";

pub const DEFAULT_WORKERS: u8 = 2;

pub const DEFAULT_LANGUAGE: &'static str = "auto";

pub const DEFAULT_SUMMARIZATION_MODEL: &'static str = "gemma3-12b-q4";

pub const APP_DIR: &'static str = "hearsay";

pub const CONFIG_FILE_NAME: &'static str = "config.toml";

pub const FALLBACK_CONFIG_PATH: &'static str = "hearsay.toml";

pub const FALLBACK_DATA_DIR: &'static str = "./hearsay-data";

/// The directory under the data directory that holds the models.
pub const MODELS_DIR: &'static str = "models";

/// The file extension of a transcription (whisper.cpp) model.
pub const TRANSCRIPTION_MODEL_EXT: &'static str = ".bin";

/// The file extension of a summarization (GGUF) model.
pub const SUMMARIZATION_MODEL_EXT: &'static str = ".gguf";

/// `base` joined with the relative path `part`: a separator goes between
/// them unless `base` is empty or already ends with one.
pub open spec fn path_join(base: Seq<char>, part: Seq<char>) -> Seq<char> {
    if base.len() == 0 {
        part
    } else if base.last() == '/' {
        base + part
    } else {
        base + seq!['/'] + part
    }
}

/// `base` joined with the relative path `part`.
pub fn join_path(base: &str, part: &str) -> (p: String)
    ensures
        p@ == path_join(base@, part@),
{
    let b = chars_of(base);
    let mut out: Vec<char> = Vec::new();
    let mut i: usize = 0;
    while i < b.len()
        invariant
            i <= b@.len(),
            out@ == b@.subrange(0, i as int),
        decreases b@.len() - i,
    {
        out.push(b[i]);
        proof {
            assert(b@.subrange(0, i + 1) == b@.subrange(0, i as int).push(b@[i as int]));
        }
        i = i + 1;
    }
    assert(b@.subrange(0, b@.len() as int) == b@);
    if b.len() > 0 && b[b.len() - 1] != '/' {
        out.push('/');
    }
    push_str(&mut out, part);
    string_from_chars(&out)
}

#[derive(Clone, Debug)]
pub struct ServerConfig {
    pub host: String,
    pub port: u16,
}

impl Default for ServerConfig {
    fn default() -> (c: Self)
        ensures
            c.host@ == DEFAULT_HOST@,
            c.port == DEFAULT_PORT,
    {
        ServerConfig { host: DEFAULT_HOST.to_owned(), port: DEFAULT_PORT }
    }
}

#[derive(Clone, Debug)]
pub struct PathsConfig {
    /// Where the database and per-session audio files live. Defaults to the
    /// platform's data dir + "hearsay".
    pub data_dir: Option<String>,
}

impl Default for PathsConfig {
    fn default() -> (c: Self)
        ensures
            c.data_dir is None,
    {
        PathsConfig { data_dir: None }
    }
}

#[derive(Clone, Debug)]
pub struct TranscriptionConfig {
    pub model: String,
    pub workers: u8,
    /// ISO-639-1 language, or `"auto"` for the model's detector.
    pub default_language: String,
}

impl Default for TranscriptionConfig {
    fn default() -> (c: Self)
        ensures
            c.model@ == DEFAULT_TRANSCRIPTION_MODEL@,
            c.workers == DEFAULT_WORKERS,
            c.default_language@ == DEFAULT_LANGUAGE@,
    {
        TranscriptionConfig {
            model: DEFAULT_TRANSCRIPTION_MODEL.to_owned(),
            workers: DEFAULT_WORKERS,
            default_language: DEFAULT_LANGUAGE.to_owned(),
        }
    }
}

#[derive(Clone, Debug)]
pub struct SummarizationConfig {
    pub model: String,
    /// When `false`, the model is loaded per job and freed afterwards;
    /// when `true`, it is kept resident for fast follow-ups.
    pub keep_loaded: bool,
    /// The summarize worker binary; `None` means the default location.
    pub child_binary: Option<String>,
}

impl Default for SummarizationConfig {
    fn default() -> (c: Self)
        ensures
            c.model@ == DEFAULT_SUMMARIZATION_MODEL@,
            c.keep_loaded,
            c.child_binary is None,
    {
        SummarizationConfig {
            model: DEFAULT_SUMMARIZATION_MODEL.to_owned(),
            keep_loaded: true,
            child_binary: None,
        }
    }
}

#[derive(Clone, Debug)]
pub struct Config {
    pub server: ServerConfig,
    pub paths: PathsConfig,
    pub transcription: TranscriptionConfig,
    pub summarization: SummarizationConfig,
}

/// The `[server]` section as written in a config file.
#[derive(Clone, Debug)]
pub struct ServerFile {
    pub host: Option<String>,
    pub port: Option<u16>,
}

/// The `[paths]` section as written in a config file.
#[derive(Clone, Debug)]
pub struct PathsFile {
    pub data_dir: Option<String>,
}

/// The `[transcription]` section as written in a config file.
#[derive(Clone, Debug)]
pub struct TranscriptionFile {
    pub model: Option<String>,
    pub workers: Option<u8>,
    pub default_language: Option<String>,
}

/// The `[summarization]` section as written in a config file.
#[derive(Clone, Debug)]
pub struct SummarizationFile {
    pub model: Option<String>,
    pub keep_loaded: Option<bool>,
    pub child_binary: Option<String>,
}

/// What a config file says: each section and key it leaves out is `None`.
#[derive(Clone, Debug)]
pub struct ConfigFile {
    pub server: Option<ServerFile>,
    pub paths: Option<PathsFile>,
    pub transcription: Option<TranscriptionFile>,
    pub summarization: Option<SummarizationFile>,
}

/// `given`'s text, or `default` when it is `None`.
pub open spec fn text_or(given: Option<String>, default: Seq<char>) -> Seq<char> {
    match given {
        Some(s) => s@,
        None => default,
    }
}

/// `given`, or `default` when it is `None`.
pub open spec fn value_or<T>(given: Option<T>, default: T) -> T {
    match given {
        Some(v) => v,
        None => default,
    }
}

/// A setting of the server section after `file` has overridden the defaults.
pub open spec fn server_host(file: Option<ServerFile>) -> Seq<char> {
    match file {
        Some(f) => text_or(f.host, DEFAULT_HOST@),
        None => DEFAULT_HOST@,
    }
}

pub open spec fn server_port(file: Option<ServerFile>) -> u16 {
    match file {
        Some(f) => value_or(f.port, DEFAULT_PORT),
        None => DEFAULT_PORT,
    }
}

pub open spec fn data_dir_setting(file: Option<PathsFile>) -> Option<String> {
    match file {
        Some(f) => f.data_dir,
        None => None,
    }
}

pub open spec fn transcription_model(file: Option<TranscriptionFile>) -> Seq<char> {
    match file {
        Some(f) => text_or(f.model, DEFAULT_TRANSCRIPTION_MODEL@),
        None => DEFAULT_TRANSCRIPTION_MODEL@,
    }
}

pub open spec fn transcription_workers(file: Option<TranscriptionFile>) -> u8 {
    match file {
        Some(f) => value_or(f.workers, DEFAULT_WORKERS),
        None => DEFAULT_WORKERS,
    }
}

pub open spec fn transcription_language(file: Option<TranscriptionFile>) -> Seq<char> {
    match file {
        Some(f) => text_or(f.default_language, DEFAULT_LANGUAGE@),
        None => DEFAULT_LANGUAGE@,
    }
}

pub open spec fn summarization_model(file: Option<SummarizationFile>) -> Seq<char> {
    match file {
        Some(f) => text_or(f.model, DEFAULT_SUMMARIZATION_MODEL@),
        None => DEFAULT_SUMMARIZATION_MODEL@,
    }
}

pub open spec fn summarization_keep_loaded(file: Option<SummarizationFile>) -> bool {
    match file {
        Some(f) => value_or(f.keep_loaded, true),
        None => true,
    }
}

pub open spec fn summarization_child_binary(file: Option<SummarizationFile>) -> Option<String> {
    match file {
        Some(f) => f.child_binary,
        None => None,
    }
}

/// The configuration that `file` (or no file at all) yields: every setting
/// the file gives, and the default for every other.
pub open spec fn configured(c: Config, file: Option<ConfigFile>) -> bool {
    let (server, paths, transcription, summarization) = match file {
        Some(f) => (f.server, f.paths, f.transcription, f.summarization),
        None => (None, None, None, None),
    };
    &&& c.server.host@ == server_host(server)
    &&& c.server.port == server_port(server)
    &&& c.paths.data_dir == data_dir_setting(paths)
    &&& c.transcription.model@ == transcription_model(transcription)
    &&& c.transcription.workers == transcription_workers(transcription)
    &&& c.transcription.default_language@ == transcription_language(transcription)
    &&& c.summarization.model@ == summarization_model(summarization)
    &&& c.summarization.keep_loaded == summarization_keep_loaded(summarization)
    &&& c.summarization.child_binary == summarization_child_binary(summarization)
}

fn text_or_default(given: Option<String>, default: &str) -> (s: String)
    ensures
        s@ == text_or(given, default@),
{
    match given {
        Some(s) => s,
        None => default.to_owned(),
    }
}

impl Default for Config {
    fn default() -> (c: Self)
        ensures
            configured(c, None),
    {
        Config {
            server: ServerConfig::default(),
            paths: PathsConfig::default(),
            transcription: TranscriptionConfig::default(),
            summarization: SummarizationConfig::default(),
        }
    }
}

/// The text of an optional string slice.
pub open spec fn opt_text(o: Option<&str>) -> Option<Seq<char>> {
    match o {
        Some(s) => Some(s@),
        None => None,
    }
}

/// Where the config file is: the override (from the environment) when there
/// is one, else `hearsay/config.toml` in the platform's config directory,
/// else `hearsay.toml`.
pub open spec fn config_path(env_override: Option<Seq<char>>, config_dir: Option<Seq<char>>) -> Seq<
    char,
> {
    match env_override {
        Some(p) => p,
        None => match config_dir {
            Some(d) => path_join(path_join(d, APP_DIR@), CONFIG_FILE_NAME@),
            None => FALLBACK_CONFIG_PATH@,
        },
    }
}

/// Where the data lives: the configured directory when there is one, else
/// `hearsay` in the platform's data directory, else `./hearsay-data`.
pub open spec fn data_dir_path(configured: Option<String>, platform_data_dir: Option<Seq<char>>) -> Seq<
    char,
> {
    match configured {
        Some(d) => d@,
        None => match platform_data_dir {
            Some(d) => path_join(d, APP_DIR@),
            None => FALLBACK_DATA_DIR@,
        },
    }
}

impl Config {
    /// The path of the config file, given the override from the environment
    /// and the platform's config directory (each if there is one).
    pub fn resolved_config_path(env_override: Option<&str>, config_dir: Option<&str>) -> (p: String)
        ensures
            p@ == config_path(opt_text(env_override), opt_text(config_dir)),
    {
        match env_override {
            Some(p) => p.to_owned(),
            None => match config_dir {
                Some(d) => {
                    let app = join_path(d, APP_DIR);
                    join_path(app.as_str(), CONFIG_FILE_NAME)
                },
                None => FALLBACK_CONFIG_PATH.to_owned(),
            },
        }
    }

    /// The data directory, given the platform's data directory (if any).
    pub fn resolved_data_dir(&self, platform_data_dir: Option<&str>) -> (p: String)
        ensures
            p@ == data_dir_path(self.paths.data_dir, opt_text(platform_data_dir)),
    {
        match &self.paths.data_dir {
            Some(d) => d.clone(),
            None => match platform_data_dir {
                Some(d) => join_path(d, APP_DIR),
                None => FALLBACK_DATA_DIR.to_owned(),
            },
        }
    }

    /// Loads the configuration: `read` is handed the config file's path and
    /// says what the file holds (`Ok(None)` when there is no file); its error
    /// is passed on, anything else yields the configuration that file gives.
    pub fn load<E, F: FnOnce(String) -> Result<Option<ConfigFile>, E>>(
        env_override: Option<&str>,
        config_dir: Option<&str>,
        read: F,
    ) -> (r: Result<Config, E>)
        requires
            forall|p: String| call_requires(read, (p,)),
        ensures
            exists|p: String, out: Result<Option<ConfigFile>, E>|
                {
                    &&& p@ == config_path(opt_text(env_override), opt_text(config_dir))
                    &&& call_ensures(read, (p,), out)
                    &&& match out {
                        Ok(file) => r matches Ok(c) && configured(c, file),
                        Err(e) => r == Err::<Config, E>(e),
                    }
                },
    {
        let path = Config::resolved_config_path(env_override, config_dir);
        let out = read(path);
        match out {
            Ok(file) => Ok(Config::load_from(file)),
            Err(e) => Err(e),
        }
    }

    /// The configuration a config file yields; `None` (no file) yields the
    /// defaults.
    pub fn load_from(file: Option<ConfigFile>) -> (c: Self)
        ensures
            configured(c, file),
    {
        let f = match file {
            Some(f) => f,
            None => {
                return Config::default();
            },
        };
        let server = match f.server {
            Some(s) => ServerConfig {
                host: text_or_default(s.host, DEFAULT_HOST),
                port: match s.port {
                    Some(p) => p,
                    None => DEFAULT_PORT,
                },
            },
            None => ServerConfig::default(),
        };
        let paths = match f.paths {
            Some(p) => PathsConfig { data_dir: p.data_dir },
            None => PathsConfig::default(),
        };
        let transcription = match f.transcription {
            Some(t) => TranscriptionConfig {
                model: text_or_default(t.model, DEFAULT_TRANSCRIPTION_MODEL),
                workers: match t.workers {
                    Some(w) => w,
                    None => DEFAULT_WORKERS,
                },
                default_language: text_or_default(t.default_language, DEFAULT_LANGUAGE),
            },
            None => TranscriptionConfig::default(),
        };
        let summarization = match f.summarization {
            Some(s) => SummarizationConfig {
                model: text_or_default(s.model, DEFAULT_SUMMARIZATION_MODEL),
                keep_loaded: match s.keep_loaded {
                    Some(k) => k,
                    None => true,
                },
                child_binary: s.child_binary,
            },
            None => SummarizationConfig::default(),
        };
        Config { server, paths, transcription, summarization }
    }
}

/// Where model `model` with file extension `ext` lives:
/// `<data_dir>/models/<model><ext>`.
pub open spec fn model_path_of(data_dir: Seq<char>, model: Seq<char>, ext: Seq<char>) -> Seq<char> {
    path_join(path_join(data_dir, MODELS_DIR@), model + ext)
}

fn model_file(data_dir: &str, model: &str, ext: &str) -> (p: String)
    ensures
        p@ == model_path_of(data_dir@, model@, ext@),
{
    let dir = join_path(data_dir, MODELS_DIR);
    let mut name = chars_of(model);
    push_str(&mut name, ext);
    let file = string_from_chars(&name);
    join_path(dir.as_str(), file.as_str())
}

impl TranscriptionConfig {
    /// The transcription model's file under the data directory.
    pub fn resolved_model_path(&self, data_dir: &str) -> (p: String)
        ensures
            p@ == model_path_of(data_dir@, self.model@, TRANSCRIPTION_MODEL_EXT@),
    {
        model_file(data_dir, self.model.as_str(), TRANSCRIPTION_MODEL_EXT)
    }
}

impl SummarizationConfig {
    /// The summarization model's file under the data directory.
    pub fn resolved_model_path(&self, data_dir: &str) -> (p: String)
        ensures
            p@ == model_path_of(data_dir@, self.model@, SUMMARIZATION_MODEL_EXT@),
    {
        model_file(data_dir, self.model.as_str(), SUMMARIZATION_MODEL_EXT)
    }
}

/// The summarize worker binary: the configured one, else `default_child`.
pub fn resolve_child_binary(config: &Config, default_child: &str) -> (p: String)
    ensures
        p@ == text_or(config.summarization.child_binary, default_child@),
{
    match &config.summarization.child_binary {
        Some(b) => b.clone(),
        None => default_child.to_owned(),
    }
}

/// Every key a config file gives is taken as it is, and every key it leaves
/// out (or whose whole section it leaves out) has its default.
pub proof fn lemma_file_keys_win(c: Config, file: ConfigFile)
    requires
        configured(c, Some(file)),
    ensures
        match file.server {
            Some(s) => {
                &&& c.server.host@ == match s.host {
                    Some(h) => h@,
                    None => DEFAULT_HOST@,
                }
                &&& c.server.port == match s.port {
                    Some(p) => p,
                    None => DEFAULT_PORT,
                }
            },
            None => c.server.host@ == DEFAULT_HOST@ && c.server.port == DEFAULT_PORT,
        },
        match file.paths {
            Some(p) => c.paths.data_dir == p.data_dir,
            None => c.paths.data_dir is None,
        },
        match file.transcription {
            Some(t) => {
                &&& c.transcription.model@ == match t.model {
                    Some(m) => m@,
                    None => DEFAULT_TRANSCRIPTION_MODEL@,
                }
                &&& c.transcription.workers == match t.workers {
                    Some(w) => w,
                    None => DEFAULT_WORKERS,
                }
                &&& c.transcription.default_language@ == match t.default_language {
                    Some(l) => l@,
                    None => DEFAULT_LANGUAGE@,
                }
            },
            None => c.transcription.model@ == DEFAULT_TRANSCRIPTION_MODEL@ && c.transcription.workers
                == DEFAULT_WORKERS && c.transcription.default_language@ == DEFAULT_LANGUAGE@,
        },
        match file.summarization {
            Some(m) => {
                &&& c.summarization.model@ == match m.model {
                    Some(x) => x@,
                    None => DEFAULT_SUMMARIZATION_MODEL@,
                }
                &&& c.summarization.keep_loaded == match m.keep_loaded {
                    Some(k) => k,
                    None => true,
                }
                &&& c.summarization.child_binary == m.child_binary
            },
            None => c.summarization.model@ == DEFAULT_SUMMARIZATION_MODEL@
                && c.summarization.keep_loaded && c.summarization.child_binary is None,
        },
{
}

/// Without a config file every setting has its default.
pub proof fn lemma_no_file_defaults(c: Config)
    requires
        configured(c, None),
    ensures
        c.server.host@ == DEFAULT_HOST@,
        c.server.port == DEFAULT_PORT,
        c.paths.data_dir is None,
        c.transcription.model@ == DEFAULT_TRANSCRIPTION_MODEL@,
        c.transcription.workers == DEFAULT_WORKERS,
        c.transcription.default_language@ == DEFAULT_LANGUAGE@,
        c.summarization.model@ == DEFAULT_SUMMARIZATION_MODEL@,
        c.summarization.keep_loaded,
        c.summarization.child_binary is None,
{
}

/// Joining keeps the base, then puts exactly one `/` between it and the part
/// (none after an empty base or one that already ends with `/`), then the
/// part.
pub proof fn lemma_path_join(base: Seq<char>, part: Seq<char>)
    ensures
        base.len() == 0 ==> path_join(base, part) == part,
        base.len() > 0 && base.last() == '/' ==> path_join(base, part) == base + part,
        base.len() > 0 && base.last() != '/' ==> path_join(base, part) == base + seq!['/'] + part,
        path_join(base, part).len() >= part.len(),
        path_join(base, part).subrange(
            path_join(base, part).len() - part.len(),
            path_join(base, part).len() as int,
        ) == part,
{
    let j = path_join(base, part);
    assert(j.subrange(j.len() - part.len(), j.len() as int) =~= part);
}

} // verus!
