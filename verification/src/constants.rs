use vstd::prelude::*;
use vstd::string::StringExecFns;

verus! {

/// The directory of the music when none is given: the working directory.
pub const DEFAULT_MUSIC_DIR: &'static str = ".";

/// The directory of the playlists under the music directory.
pub const DEFAULT_PLAYLIST_DIR: &'static str = "playlists";

/// The log file, in the cache directory.
pub const DEFAULT_LOG_FILE: &'static str = "musing.log";

/// The state file, in the cache directory.
pub const DEFAULT_STATE_FILE: &'static str = "musing.state";

/// The configuration file, in its directory.
pub const DEFAULT_CONFIG_FILE: &'static str = "musing.toml";

/// The directory of the configuration file, in the configuration directory.
pub const DEFAULT_CONFIG_DIR: &'static str = "musing";

/// The file, in the music directory, that lists directories to leave out.
pub const DEFAULT_IGNORE_FILE: &'static str = ".musingignore";

/// The name given to a device whose name cannot be read.
pub const UNKNOWN_DEVICE: &'static str = "[unknown]";

/// The extensions of the audio files that the database takes.
pub open spec fn allowed_exts() -> Seq<Seq<char>> {
    seq!["aac"@, "aif"@, "aifc"@, "aiff"@, "flac"@, "m4a"@, "mp3"@, "oga"@, "ogg"@, "wav"@]
}

/// The extensions of playlist files.
pub open spec fn playlist_exts() -> Seq<Seq<char>> {
    seq!["m3u"@, "m3u8"@]
}

/// The extensions of the audio files that the database takes.
pub fn default_allowed_exts() -> (r: Vec<String>)
    ensures
        crate::text::views_of(r@) == allowed_exts(),
{
    let mut r: Vec<String> = Vec::new();
    r.push(String::from_str("aac"));
    r.push(String::from_str("aif"));
    r.push(String::from_str("aifc"));
    r.push(String::from_str("aiff"));
    r.push(String::from_str("flac"));
    r.push(String::from_str("m4a"));
    r.push(String::from_str("mp3"));
    r.push(String::from_str("oga"));
    r.push(String::from_str("ogg"));
    r.push(String::from_str("wav"));
    assert(crate::text::views_of(r@) =~= allowed_exts());
    r
}

/// The extensions of playlist files.
pub fn default_playlist_exts() -> (r: Vec<String>)
    ensures
        crate::text::views_of(r@) == playlist_exts(),
{
    let mut r: Vec<String> = Vec::new();
    r.push(String::from_str("m3u"));
    r.push(String::from_str("m3u8"));
    assert(crate::text::views_of(r@) =~= playlist_exts());
    r
}

} // verus!
