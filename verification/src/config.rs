//! Settings of the chat application.
//!
//! The settings are plain data. Reading them from disk and writing them back
//! is the business of whoever owns the file system; the functions here only
//! decide which path to use once the platform's directories are known.

use vstd::prelude::*;
use vstd::string::*;
use std::path::PathBuf;

verus! {

/// `std::path::PathBuf`, carried through as it is.
#[verifier::external_type_specification]
#[verifier::external_body]
pub struct ExPathBuf(PathBuf);

/// Calls `PathBuf::clone`. The copy is the same path.
#[verifier::external_body]
fn clone_path(path: &PathBuf) -> (copy: PathBuf)
    ensures
        copy == *path,
{
    path.clone()
}

fn clone_optional_path(path: &Option<PathBuf>) -> (copy: Option<PathBuf>)
    ensures
        copy == *path,
{
    match path {
        Some(p) => Some(clone_path(p)),
        None => None,
    }
}

/// The text of an optional string.
pub open spec fn optional_text(s: Option<String>) -> Option<Seq<char>> {
    match s {
        Some(text) => Some(text@),
        None => None,
    }
}

/// The texts of a list of strings.
pub open spec fn texts_of(list: Seq<String>) -> Seq<Seq<char>> {
    list.map_values(|s: String| s@)
}

/// Settings of the chat application.
#[derive(Debug)]
pub struct Config {
    /// Display name of the user, if one is set.
    pub nickname: Option<String>,
    /// Port to listen on when none is given.
    pub default_port: u16,
    /// Size of the receive buffer in bytes.
    pub buffer_size: usize,
    /// Seconds between two heartbeat messages.
    pub heartbeat_interval_secs: u64,
    /// How many times a failed connection is tried again.
    pub reconnect_attempts: u32,
    /// Seconds between two connection attempts.
    pub reconnect_delay_secs: u64,
    /// Whether messages are encrypted end to end.
    pub enable_encryption: bool,
    /// Logging level: "trace", "debug", "info", "warn" or "error".
    pub log_level: String,
    /// Whether the chat history is saved.
    pub save_history: bool,
    /// Where the chat history is saved, if not in the platform's place.
    pub history_file: Option<PathBuf>,
    /// Largest file that is sent or accepted, in megabytes.
    pub max_file_size_mb: u64,
    /// Where received files are saved, if not in the platform's place.
    pub download_dir: Option<PathBuf>,
    /// Whether received media files are opened at once.
    pub auto_open_media: bool,
    /// File extensions that count as media; case is ignored.
    pub media_extensions: Vec<String>,
}

/// Mathematical view of a [`Config`].
pub struct ConfigView {
    pub nickname: Option<Seq<char>>,
    pub default_port: u16,
    pub buffer_size: usize,
    pub heartbeat_interval_secs: u64,
    pub reconnect_attempts: u32,
    pub reconnect_delay_secs: u64,
    pub enable_encryption: bool,
    pub log_level: Seq<char>,
    pub save_history: bool,
    pub history_file: Option<PathBuf>,
    pub max_file_size_mb: u64,
    pub download_dir: Option<PathBuf>,
    pub auto_open_media: bool,
    pub media_extensions: Seq<Seq<char>>,
}

impl View for Config {
    type V = ConfigView;

    open spec fn view(&self) -> ConfigView {
        ConfigView {
            nickname: optional_text(self.nickname),
            default_port: self.default_port,
            buffer_size: self.buffer_size,
            heartbeat_interval_secs: self.heartbeat_interval_secs,
            reconnect_attempts: self.reconnect_attempts,
            reconnect_delay_secs: self.reconnect_delay_secs,
            enable_encryption: self.enable_encryption,
            log_level: self.log_level@,
            save_history: self.save_history,
            history_file: self.history_file,
            max_file_size_mb: self.max_file_size_mb,
            download_dir: self.download_dir,
            auto_open_media: self.auto_open_media,
            media_extensions: texts_of(self.media_extensions@),
        }
    }
}

/// The media extensions of the default settings.
pub open spec fn default_media_extensions() -> Seq<Seq<char>> {
    seq![
        "jpg"@,
        "jpeg"@,
        "png"@,
        "gif"@,
        "bmp"@,
        "webp"@,
        "svg"@,
        "mp4"@,
        "avi"@,
        "mov"@,
        "wmv"@,
        "mp3"@,
        "wav"@,
        "flac"@,
        "aac"@,
        "pdf"@,
        "doc"@,
        "docx"@,
        "txt"@,
    ]
}

/// The default settings.
pub open spec fn default_config() -> ConfigView {
    ConfigView {
        nickname: None,
        default_port: 8080,
        buffer_size: 8192,
        heartbeat_interval_secs: 30,
        reconnect_attempts: 3,
        reconnect_delay_secs: 5,
        enable_encryption: true,
        log_level: "info"@,
        save_history: true,
        history_file: None,
        max_file_size_mb: 100,
        download_dir: None,
        auto_open_media: true,
        media_extensions: default_media_extensions(),
    }
}

fn clone_texts(list: &Vec<String>) -> (copy: Vec<String>)
    ensures
        texts_of(copy@) == texts_of(list@),
{
    let mut copy: Vec<String> = Vec::new();
    let mut i: usize = 0;
    while i < list.len()
        invariant
            i <= list@.len(),
            copy@.len() == i,
            forall|k: int| 0 <= k < i ==> copy@[k]@ == list@[k]@,
        decreases list@.len() - i,
    {
        copy.push(list[i].clone());
        i += 1;
    }
    assert(texts_of(copy@) =~= texts_of(list@));
    copy
}

impl Clone for Config {
    fn clone(&self) -> (r: Self)
        ensures
            r@ == self@,
    {
        Config {
            nickname: match &self.nickname {
                Some(name) => Some(name.clone()),
                None => None,
            },
            default_port: self.default_port,
            buffer_size: self.buffer_size,
            heartbeat_interval_secs: self.heartbeat_interval_secs,
            reconnect_attempts: self.reconnect_attempts,
            reconnect_delay_secs: self.reconnect_delay_secs,
            enable_encryption: self.enable_encryption,
            log_level: self.log_level.clone(),
            save_history: self.save_history,
            history_file: clone_optional_path(&self.history_file),
            max_file_size_mb: self.max_file_size_mb,
            download_dir: clone_optional_path(&self.download_dir),
            auto_open_media: self.auto_open_media,
            media_extensions: clone_texts(&self.media_extensions),
        }
    }
}

impl Default for Config {
    fn default() -> (config: Config)
        ensures
            config@ == default_config(),
    {
        let mut media_extensions: Vec<String> = Vec::new();
        media_extensions.push("jpg".to_owned());
        media_extensions.push("jpeg".to_owned());
        media_extensions.push("png".to_owned());
        media_extensions.push("gif".to_owned());
        media_extensions.push("bmp".to_owned());
        media_extensions.push("webp".to_owned());
        media_extensions.push("svg".to_owned());
        media_extensions.push("mp4".to_owned());
        media_extensions.push("avi".to_owned());
        media_extensions.push("mov".to_owned());
        media_extensions.push("wmv".to_owned());
        media_extensions.push("mp3".to_owned());
        media_extensions.push("wav".to_owned());
        media_extensions.push("flac".to_owned());
        media_extensions.push("aac".to_owned());
        media_extensions.push("pdf".to_owned());
        media_extensions.push("doc".to_owned());
        media_extensions.push("docx".to_owned());
        media_extensions.push("txt".to_owned());
        assert(texts_of(media_extensions@) =~= default_media_extensions());
        Config {
            nickname: None,
            default_port: 8080,
            buffer_size: 8192,
            heartbeat_interval_secs: 30,
            reconnect_attempts: 3,
            reconnect_delay_secs: 5,
            enable_encryption: true,
            log_level: "info".to_owned(),
            save_history: true,
            history_file: None,
            max_file_size_mb: 100,
            download_dir: None,
            auto_open_media: true,
            media_extensions,
        }
    }
}

impl Config {
    /// Where the chat history goes: the configured file if one is set,
    /// otherwise the platform's place for it, if the platform has one.
    pub fn history_path(&self, platform_default: Option<PathBuf>) -> (path: Option<PathBuf>)
        ensures
            path == match self.history_file {
                Some(custom) => Some(custom),
                None => platform_default,
            },
    {
        match &self.history_file {
            Some(custom) => Some(clone_path(custom)),
            None => platform_default,
        }
    }

    /// Where received files go: the configured directory if one is set,
    /// otherwise the user's download directory if the platform knows one,
    /// otherwise the fallback.
    pub fn download_path(&self, user_downloads: Option<PathBuf>, fallback: PathBuf) -> (path:
        PathBuf)
        ensures
            path == match self.download_dir {
                Some(custom) => custom,
                None => match user_downloads {
                    Some(dir) => dir,
                    None => fallback,
                },
            },
    {
        match &self.download_dir {
            Some(custom) => clone_path(custom),
            None => match user_downloads {
                Some(dir) => dir,
                None => fallback,
            },
        }
    }
}

} // verus!
