//! The application's settings and where they are kept.

use vstd::prelude::*;

verus! {

/// The mathematical value of the settings.
pub struct ConfigView {
    pub yt_dlp_path: Seq<char>,
    pub download_path: Seq<char>,
    pub max_concurrent_downloads: u32,
}

/// The settings before anybody changed them.
pub open spec fn default_config() -> ConfigView {
    ConfigView {
        yt_dlp_path: "../bin/yt-dlp.exe"@,
        download_path: "../downloads"@,
        max_concurrent_downloads: 3,
    }
}

/// Where the downloader is, where downloads go, and how many may run at
/// the same time.
#[derive(Debug)]
pub struct AppConfig {
    pub yt_dlp_path: String,
    pub download_path: String,
    pub max_concurrent_downloads: u32,
}

impl View for AppConfig {
    type V = ConfigView;

    open spec fn view(&self) -> ConfigView {
        ConfigView {
            yt_dlp_path: self.yt_dlp_path@,
            download_path: self.download_path@,
            max_concurrent_downloads: self.max_concurrent_downloads,
        }
    }
}

impl Clone for AppConfig {
    fn clone(&self) -> (r: Self)
        ensures
            r@ == self@,
    {
        AppConfig {
            yt_dlp_path: self.yt_dlp_path.clone(),
            download_path: self.download_path.clone(),
            max_concurrent_downloads: self.max_concurrent_downloads,
        }
    }
}

impl Default for AppConfig {
    fn default() -> (r: Self)
        ensures
            r@ == default_config(),
    {
        AppConfig {
            yt_dlp_path: "../bin/yt-dlp.exe".to_string(),
            download_path: "../downloads".to_string(),
            max_concurrent_downloads: 3,
        }
    }
}

/// A place that keeps the settings. Loading and saving are the business of
/// whoever implements it, and either may fail with a message.
pub trait ConfigRepository {
    /// The stored settings.
    fn load_config(&self) -> Result<AppConfig, String>;

    /// Stores the settings.
    fn save_config(&self, config: &AppConfig) -> Result<(), String>;
}

/// The settings file of the application.
#[derive(Clone, Copy, Debug)]
pub struct FileConfigRepository;

/// The name of the settings file.
pub open spec fn config_file_name() -> Seq<char> {
    "config.json"@
}

impl FileConfigRepository {
    /// The settings file of the application.
    pub fn new() -> (r: Self) {
        FileConfigRepository
    }

    /// The path of the settings file, relative to the working directory.
    pub fn path(&self) -> (r: &'static str)
        ensures
            r@ == config_file_name(),
    {
        "config.json"
    }

    /// The settings to go by where the file may be missing: what the file
    /// held, or the defaults if there was no file.
    pub fn settings_or_default(&self, stored: Option<AppConfig>) -> (r: AppConfig)
        ensures
            r@ == match stored {
                Some(config) => config@,
                None => default_config(),
            },
    {
        match stored {
            Some(config) => config,
            None => AppConfig::default(),
        }
    }
}

impl Default for FileConfigRepository {
    fn default() -> (r: Self) {
        FileConfigRepository
    }
}

} // verus!
