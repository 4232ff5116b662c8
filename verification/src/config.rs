//! The configuration that the engine is started with.

use crate::content_managers::ContentManagerTypes;
use vstd::prelude::*;
use vstd::string::StringExecFns;

verus! {

/// How much the program logs.
#[derive(Debug, Clone, Copy, PartialEq, Eq, Structural)]
pub enum Level {
    Trace,
    Debug,
    Info,
    Warn,
    Error,
}

/// The log level as the configuration file holds it.
#[derive(Clone, Copy, Debug)]
pub struct LogLevel(pub Level);

/// The lower-case form of a text, as `str::to_lowercase` gives it.
pub uninterp spec fn spec_lowercase(text: Seq<char>) -> Seq<char>;

/// The lower-case form of `text`, computed by `str::to_lowercase`, which
/// follows the Unicode lower-case mapping. The contract only names the result.
#[verifier::external_body]
fn lowercase(text: &str) -> (lowered: String)
    ensures
        lowered@ == spec_lowercase(text@),
{
    text.to_lowercase()
}

/// The level that a lower-case name stands for.
pub open spec fn spec_level_named(name: Seq<char>) -> Option<Level> {
    if name == "trace"@ {
        Some(Level::Trace)
    } else if name == "debug"@ {
        Some(Level::Debug)
    } else if name == "info"@ {
        Some(Level::Info)
    } else if name == "warn"@ {
        Some(Level::Warn)
    } else if name == "error"@ {
        Some(Level::Error)
    } else {
        None
    }
}

/// The name that a level is written with.
pub open spec fn spec_level_name(level: Level) -> Seq<char> {
    match level {
        Level::Trace => "trace"@,
        Level::Debug => "debug"@,
        Level::Info => "info"@,
        Level::Warn => "warn"@,
        Level::Error => "error"@,
    }
}

/// The level that a lower-case name stands for, if it is one of the five
/// names.
pub fn level_named(name: &str) -> (level: Option<Level>)
    ensures
        level == spec_level_named(name@),
{
    let name = name.to_owned();
    if name == "trace".to_owned() {
        Some(Level::Trace)
    } else if name == "debug".to_owned() {
        Some(Level::Debug)
    } else if name == "info".to_owned() {
        Some(Level::Info)
    } else if name == "warn".to_owned() {
        Some(Level::Warn)
    } else if name == "error".to_owned() {
        Some(Level::Error)
    } else {
        None
    }
}

impl LogLevel {
    /// The level itself.
    pub fn inner(&self) -> (level: Level)
        ensures
            level == self.0,
    {
        self.0
    }

    /// The name that the level is written with in a configuration file.
    pub fn name(&self) -> (name: &'static str)
        ensures
            name@ == spec_level_name(self.0),
    {
        match self.0 {
            Level::Trace => "trace",
            Level::Debug => "debug",
            Level::Info => "info",
            Level::Warn => "warn",
            Level::Error => "error",
        }
    }

    /// Reads a level from its name, in any mix of upper and lower case. Any
    /// other text is refused with a message that quotes it.
    pub fn parse(text: &str) -> (parsed: Result<LogLevel, String>)
        ensures
            match parsed {
                Ok(level) => spec_level_named(spec_lowercase(text@)) == Some(level.0),
                Err(message) => spec_level_named(spec_lowercase(text@)) is None && message@
                    == "Unknown log level: "@ + text@,
            },
    {
        let lowered = lowercase(text);
        match level_named(lowered.as_str()) {
            Some(level) => Ok(LogLevel(level)),
            None => Err(String::from_str("Unknown log level: ").concat(text)),
        }
    }
}

/// Where local wallpapers lie, and how many minutes a wallpaper stays.
#[derive(Debug)]
pub struct LocalWallpaperConfig {
    pub location: String,
    pub update_interval: u32,
}

impl Default for LocalWallpaperConfig {
    /// No location, and one rotation per day.
    fn default() -> (config: Self)
        ensures
            config.location@ == Seq::<char>::empty(),
            config.update_interval == 1440,
    {
        LocalWallpaperConfig { location: String::new(), update_interval: 1440 }
    }
}

/// Which repository holds wallpapers, and under which path of it.
#[derive(Debug)]
pub struct GitWallpaperConfig {
    pub url: String,
    pub path: Option<String>,
}

impl Default for GitWallpaperConfig {
    /// No repository, and its root as the path.
    fn default() -> (config: Self)
        ensures
            config.url@ == Seq::<char>::empty(),
            config.path matches Some(path) && path@ == Seq::<char>::empty(),
    {
        GitWallpaperConfig { url: String::new(), path: Some(String::new()) }
    }
}

/// What the configuration file holds.
#[derive(Debug)]
pub struct FileConfig {
    pub log_level: Option<LogLevel>,
    pub content_manager_type: ContentManagerTypes,
    pub local: LocalWallpaperConfig,
    pub git: GitWallpaperConfig,
}

impl FileConfig {
    /// Whether this is what a missing configuration file stands for.
    pub open spec fn is_default(&self) -> bool {
        &&& self.log_level is None
        &&& self.content_manager_type == ContentManagerTypes::Local
        &&& self.local.location@ == Seq::<char>::empty()
        &&& self.local.update_interval == 1440
        &&& self.git.url@ == Seq::<char>::empty()
        &&& self.git.path matches Some(path) && path@ == Seq::<char>::empty()
    }
}

impl Default for FileConfig {
    /// Local wallpapers, one rotation per day, nothing else set.
    fn default() -> (config: Self)
        ensures
            config.is_default(),
    {
        FileConfig {
            content_manager_type: ContentManagerTypes::Local,
            local: LocalWallpaperConfig::default(),
            log_level: None,
            git: GitWallpaperConfig::default(),
        }
    }
}

/// The whole configuration: where the program keeps its data, and what the
/// configuration file holds.
#[derive(Debug)]
pub struct Config {
    pub data_dir: String,
    pub file_config: FileConfig,
}

/// Why a configuration cannot be run with.
#[derive(Debug, Clone, Copy, PartialEq, Eq, Structural)]
pub enum ConfigError {
    /// The interval is zero minutes: a day has no buckets of that width.
    ZeroInterval,
    /// Wallpapers are to come from a repository, and no path in it is set.
    MissingGitPath,
}

impl Config {
    /// What is wrong with the configuration, if anything.
    pub open spec fn spec_validate(&self) -> Result<(), ConfigError> {
        if self.file_config.local.update_interval == 0 {
            Err(ConfigError::ZeroInterval)
        } else if self.file_config.content_manager_type == ContentManagerTypes::Git
            && self.file_config.git.path is None {
            Err(ConfigError::MissingGitPath)
        } else {
            Ok(())
        }
    }

    /// A configuration that needs nothing from the machine: the data under
    /// `/tmp/mirai`, and the defaults of a missing configuration file.
    pub fn create_config() -> (config: Config)
        ensures
            config.data_dir@ == "/tmp/mirai"@,
            config.file_config.is_default(),
            config.spec_validate() is Ok,
    {
        Config { data_dir: String::from_str("/tmp/mirai"), file_config: FileConfig::default() }
    }

    /// The configuration for a data directory and the content of the
    /// configuration file; a missing file stands for the defaults.
    pub fn load_config(data_dir: String, file_config: Option<FileConfig>) -> (config: Config)
        ensures
            config.data_dir == data_dir,
            match file_config {
                Some(file_config) => config.file_config == file_config,
                None => config.file_config.is_default(),
            },
    {
        let file_config = match file_config {
            Some(file_config) => file_config,
            None => FileConfig::default(),
        };
        Config { data_dir, file_config }
    }

    /// Checks the configuration before anything runs with it. An interval of
    /// zero minutes is refused, and so is a repository without a path.
    pub fn validate(&self) -> (checked: Result<(), ConfigError>)
        ensures
            checked == self.spec_validate(),
            checked is Ok ==> self.file_config.local.update_interval > 0,
    {
        if self.file_config.local.update_interval == 0 {
            return Err(ConfigError::ZeroInterval);
        }
        match self.file_config.content_manager_type {
            ContentManagerTypes::Git => {
                if self.file_config.git.path.is_none() {
                    return Err(ConfigError::MissingGitPath);
                }
            },
            ContentManagerTypes::Local => {},
        }
        Ok(())
    }

    /// Minutes that a wallpaper stays before the next rotation is due.
    pub fn update_interval(&self) -> (interval: u32)
        ensures
            interval == self.file_config.local.update_interval,
    {
        self.file_config.local.update_interval
    }
}

} // verus!
