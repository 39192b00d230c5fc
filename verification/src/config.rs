use vstd::prelude::*;
use vstd::string::StringExecFns;

use crate::path::{join, join_path};
use crate::text::str_eq;

verus! {

/// The port the server listens on by default.
pub const DEFAULT_PORT: u16 = 2137;

/// The options given on the command line; each one overrides the config file.
#[derive(Debug)]
pub struct CliOptions {
    pub audio_device: Option<String>,
    pub music_dir: Option<String>,
    pub playlist_dir: Option<String>,
    pub config_file: Option<String>,
    pub log_file: Option<String>,
    pub state_file: Option<String>,
    pub port: Option<u16>,
    pub log_stderr: bool,
}

/// What the server needs: the port to listen on.
#[derive(Debug)]
pub struct ServerConfig {
    pub port: u16,
}

/// What the player needs: where music and state live, which device to use.
#[derive(Debug)]
pub struct PlayerConfig {
    pub music_dir: String,
    pub state_file: String,
    pub audio_device: Option<String>,
    pub playlist_dir: Option<String>,
}

/// The whole configuration.
#[derive(Debug)]
pub struct Config {
    pub server_config: ServerConfig,
    pub player_config: PlayerConfig,
}

/// Why a configuration could not be built.
#[derive(Debug)]
pub enum ConfigError {
    /// The file is not valid TOML; the parser's description.
    Toml(String),
    /// `port` does not fit in 16 bits.
    PortOutOfRange(i64),
    /// The system has no configuration directory.
    NoConfigDir,
}

/// What a configuration error holds, as plain values.
pub enum ConfigErrorView {
    Toml(Seq<char>),
    PortOutOfRange(i64),
    NoConfigDir,
}

impl View for ConfigError {
    type V = ConfigErrorView;

    open spec fn view(&self) -> ConfigErrorView {
        match self {
            ConfigError::Toml(s) => ConfigErrorView::Toml(s@),
            ConfigError::PortOutOfRange(p) => ConfigErrorView::PortOutOfRange(*p),
            ConfigError::NoConfigDir => ConfigErrorView::NoConfigDir,
        }
    }
}

/// The text a configuration error is shown as.
pub open spec fn config_error_message(e: ConfigErrorView) -> Seq<char> {
    match e {
        ConfigErrorView::Toml(s) => s,
        ConfigErrorView::PortOutOfRange(_) => "out of range integral type conversion attempted"@,
        ConfigErrorView::NoConfigDir => "no config dir found on the system"@,
    }
}

impl ConfigError {
    /// The text this error is shown as.
    pub fn to_message(&self) -> (r: String)
        ensures
            r@ == config_error_message(self@),
    {
        match self {
            ConfigError::Toml(s) => s.clone(),
            ConfigError::PortOutOfRange(_) => String::from_str(
                "out of range integral type conversion attempted",
            ),
            ConfigError::NoConfigDir => String::from_str("no config dir found on the system"),
        }
    }
}

/// A value of a TOML table, as far as the configuration reads it.
#[derive(Debug)]
pub enum TomlScalar {
    Integer(i64),
    Str(String),
    Other,
}

/// What a TOML value holds, as plain values.
pub enum TomlScalarView {
    Integer(i64),
    Str(Seq<char>),
    Other,
}

impl View for TomlScalar {
    type V = TomlScalarView;

    open spec fn view(&self) -> TomlScalarView {
        match self {
            TomlScalar::Integer(i) => TomlScalarView::Integer(*i),
            TomlScalar::Str(s) => TomlScalarView::Str(s@),
            TomlScalar::Other => TomlScalarView::Other,
        }
    }
}

/// The views of the entries of a table.
pub open spec fn entry_views(v: Seq<(String, TomlScalar)>) -> Seq<(Seq<char>, TomlScalarView)> {
    v.map_values(|e: (String, TomlScalar)| (e.0@, e.1@))
}

/// The top-level entries that the `toml` crate reads from `content`, or `None` when
/// `content` is not valid TOML.
pub uninterp spec fn toml_table(content: Seq<char>) -> Option<Seq<(Seq<char>, TomlScalarView)>>;

/// Parses `content` as a TOML table and hands out its top-level entries.
///
/// Trusted: `str::parse::<toml::Table>` succeeds or fails, and gives its entries,
/// as a function of `content` alone. On failure the parser's description of the
/// error is returned; what that text is is not stated.
#[verifier::external_body]
fn parse_toml(content: &str) -> (r: Result<Vec<(String, TomlScalar)>, String>)
    ensures
        match toml_table(content@) {
            Some(t) => r matches Ok(v) && entry_views(v@) == t,
            None => r is Err,
        },
{
    match content.parse::<toml::Table>() {
        Ok(table) => Ok(table.into_iter().map(|(k, v)| (k, match v {
            toml::Value::Integer(i) => TomlScalar::Integer(i),
            toml::Value::String(s) => TomlScalar::Str(s),
            _ => TomlScalar::Other,
        })).collect()),
        Err(e) => Err(e.to_string()),
    }
}

/// The port that the entries set, starting from `port`: the last `port` integer wins,
/// and one that does not fit in 16 bits is an error.
pub open spec fn port_from(entries: Seq<(Seq<char>, TomlScalarView)>, port: u16) -> Result<u16, i64>
    decreases entries.len(),
{
    if entries.len() == 0 {
        Ok(port)
    } else {
        let rest = entries.drop_first();
        match entries[0].1 {
            TomlScalarView::Integer(i) => if entries[0].0 == "port"@ {
                if 0 <= i <= 65535 {
                    port_from(rest, i as u16)
                } else {
                    Err(i)
                }
            } else {
                port_from(rest, port)
            },
            _ => port_from(rest, port),
        }
    }
}

/// The player settings that the entries set, starting from `cfg`: each known key
/// with a string value overrides its setting.
pub open spec fn player_from(
    entries: Seq<(Seq<char>, TomlScalarView)>,
    cfg: (Seq<char>, Seq<char>, Option<Seq<char>>, Option<Seq<char>>),
) -> (Seq<char>, Seq<char>, Option<Seq<char>>, Option<Seq<char>>)
    decreases entries.len(),
{
    if entries.len() == 0 {
        cfg
    } else {
        let rest = entries.drop_first();
        let k = entries[0].0;
        match entries[0].1 {
            TomlScalarView::Str(v) => if k == "music_dir"@ {
                player_from(rest, (v, cfg.1, cfg.2, cfg.3))
            } else if k == "state_file"@ {
                player_from(rest, (cfg.0, v, cfg.2, cfg.3))
            } else if k == "audio_device"@ {
                player_from(rest, (cfg.0, cfg.1, Some(v), cfg.3))
            } else if k == "playlist_dir"@ {
                player_from(rest, (cfg.0, cfg.1, cfg.2, Some(v)))
            } else {
                player_from(rest, cfg)
            },
            _ => player_from(rest, cfg),
        }
    }
}

/// The plain values of an optional string.
pub open spec fn opt_view(o: Option<String>) -> Option<Seq<char>> {
    match o {
        Some(s) => Some(s@),
        None => None,
    }
}

impl PlayerConfig {
    /// The settings as plain values.
    pub open spec fn settings(&self) -> (Seq<char>, Seq<char>, Option<Seq<char>>, Option<Seq<char>>) {
        (self.music_dir@, self.state_file@, opt_view(self.audio_device), opt_view(self.playlist_dir))
    }
}

impl Default for ServerConfig {
    fn default() -> (r: Self)
        ensures
            r.port == DEFAULT_PORT,
    {
        ServerConfig { port: DEFAULT_PORT }
    }
}

impl ServerConfig {
    /// Reads the server settings from the contents of a config file.
    pub fn try_new(content: &str) -> (r: Result<Self, ConfigError>)
        ensures
            match toml_table(content@) {
                None => r matches Err(e) && e@ is Toml,
                Some(t) => match port_from(t, DEFAULT_PORT) {
                    Ok(p) => r matches Ok(c) && c.port == p,
                    Err(i) => r matches Err(e) && e@ == ConfigErrorView::PortOutOfRange(i),
                },
            },
    {
        let entries = match parse_toml(content) {
            Ok(v) => v,
            Err(e) => return Err(ConfigError::Toml(e)),
        };
        let mut port = DEFAULT_PORT;
        let n = entries.len();
        assert(entry_views(entries@).skip(0) =~= entry_views(entries@));
        for i in 0..n
            invariant
                n == entries@.len(),
                toml_table(content@) == Some(entry_views(entries@)),
                port_from(entry_views(entries@).skip(i as int), port) == port_from(
                    entry_views(entries@),
                    DEFAULT_PORT,
                ),
        {
            proof {
                let t = entry_views(entries@).skip(i as int);
                assert(t.drop_first() =~= entry_views(entries@).skip(i + 1));
                assert(t[0] == (entries@[i as int].0@, entries@[i as int].1@));
            }
            if let TomlScalar::Integer(v) = &entries[i] .1 {
                if str_eq(entries[i].0.as_str(), "port") {
                    if 0 <= *v && *v <= 65535 {
                        port = *v as u16;
                    } else {
                        return Err(ConfigError::PortOutOfRange(*v));
                    }
                }
            }
        }
        assert(entry_views(entries@).skip(n as int).len() == 0);
        assert(entry_views(entries@).skip(0) =~= entry_views(entries@));
        Ok(ServerConfig { port })
    }
}

/// The system's cache directory, if it has one.
///
/// Trusted: calls `dirs::cache_dir`. The answer depends on the platform and the
/// environment, so nothing is stated of it.
#[verifier::external_body]
fn system_cache_dir() -> Option<String> {
    dirs::cache_dir().map(|p| p.to_string_lossy().into_owned())
}

/// The system's configuration directory, if it has one.
///
/// Trusted: calls `dirs::config_dir`. The answer depends on the platform and the
/// environment, so nothing is stated of it.
#[verifier::external_body]
fn system_config_dir() -> Option<String> {
    dirs::config_dir().map(|p| p.to_string_lossy().into_owned())
}

/// The default player settings when the cache directory is `cache` (or none).
pub open spec fn default_player(cache: Option<Seq<char>>) -> (
    Seq<char>,
    Seq<char>,
    Option<Seq<char>>,
    Option<Seq<char>>,
) {
    let dir = match cache {
        Some(d) => d,
        None => "."@,
    };
    ("."@, join(dir, "musing.state"@), None, None)
}

/// The default config file: `musing/musing.toml` in the configuration directory.
pub open spec fn config_path_in(dir: Seq<char>) -> Seq<char> {
    join(join(dir, "musing"@), "musing.toml"@)
}

impl PlayerConfig {
    /// The default settings, given the system's cache directory: music in the
    /// current directory, the state file in the cache directory, no device, no
    /// playlist directory.
    pub fn with_cache_dir(cache: Option<String>) -> (r: Self)
        ensures
            r.settings() == default_player(opt_view(cache)),
    {
        let dir = match cache {
            Some(d) => d,
            None => String::from_str("."),
        };
        PlayerConfig {
            music_dir: String::from_str("."),
            state_file: join_path(dir.as_str(), "musing.state"),
            audio_device: None,
            playlist_dir: None,
        }
    }

    /// Reads the player settings from the contents of a config file; what the file
    /// does not set keeps its default.
    pub fn try_new(content: &str) -> (r: Result<Self, ConfigError>)
        ensures
            match toml_table(content@) {
                None => r matches Err(e) && e@ is Toml,
                Some(t) => r matches Ok(c) && exists|d: Option<Seq<char>>|
                    c.settings() == player_from(t, #[trigger] default_player(d)),
            },
    {
        let entries = match parse_toml(content) {
            Ok(v) => v,
            Err(e) => return Err(ConfigError::Toml(e)),
        };
        let cache = system_cache_dir();
        let ghost d = opt_view(cache);
        let mut cfg = PlayerConfig::with_cache_dir(cache);
        let n = entries.len();
        assert(entry_views(entries@).skip(0) =~= entry_views(entries@));
        for i in 0..n
            invariant
                n == entries@.len(),
                toml_table(content@) == Some(entry_views(entries@)),
                player_from(entry_views(entries@).skip(i as int), cfg.settings()) == player_from(
                    entry_views(entries@),
                    default_player(d),
                ),
        {
            proof {
                let t = entry_views(entries@).skip(i as int);
                assert(t.drop_first() =~= entry_views(entries@).skip(i + 1));
                assert(t[0] == (entries@[i as int].0@, entries@[i as int].1@));
            }
            if let TomlScalar::Str(v) = &entries[i].1 {
                let k = entries[i].0.as_str();
                if str_eq(k, "music_dir") {
                    cfg.music_dir = v.clone();
                } else if str_eq(k, "state_file") {
                    cfg.state_file = v.clone();
                } else if str_eq(k, "audio_device") {
                    cfg.audio_device = Some(v.clone());
                } else if str_eq(k, "playlist_dir") {
                    cfg.playlist_dir = Some(v.clone());
                }
            }
        }
        assert(entry_views(entries@).skip(n as int).len() == 0);
        Ok(cfg)
    }
}

impl Default for PlayerConfig {
    fn default() -> (r: Self)
        ensures
            exists|d: Option<Seq<char>>| r.settings() == #[trigger] default_player(d),
    {
        PlayerConfig::with_cache_dir(system_cache_dir())
    }
}

impl Default for Config {
    fn default() -> (r: Self)
        ensures
            r.server_config.port == DEFAULT_PORT,
            exists|d: Option<Seq<char>>| r.player_config.settings() == #[trigger] default_player(d),
    {
        Config { server_config: ServerConfig::default(), player_config: PlayerConfig::default() }
    }
}

impl Config {
    /// The default config file inside the configuration directory `dir`, or an error
    /// when the system has none.
    pub fn path_in(dir: Option<String>) -> (r: Result<String, ConfigError>)
        ensures
            match dir {
                Some(d) => r matches Ok(p) && p@ == config_path_in(d@),
                None => r matches Err(e) && e@ is NoConfigDir,
            },
    {
        match dir {
            Some(d) => {
                let inner = join_path(d.as_str(), "musing");
                Ok(join_path(inner.as_str(), "musing.toml"))
            },
            None => Err(ConfigError::NoConfigDir),
        }
    }

    /// The default config file: `musing/musing.toml` in the system's configuration
    /// directory.
    pub fn default_path() -> (r: Result<String, ConfigError>)
        ensures
            match r {
                Ok(p) => exists|d: Seq<char>| p@ == #[trigger] config_path_in(d),
                Err(e) => e@ is NoConfigDir,
            },
    {
        Config::path_in(system_config_dir())
    }

    /// Reads the whole configuration from the contents of a config file.
    pub fn try_from_content(content: &str) -> (r: Result<Self, ConfigError>)
        ensures
            match toml_table(content@) {
                None => r matches Err(e) && e@ is Toml,
                Some(t) => match port_from(t, DEFAULT_PORT) {
                    Ok(p) => r matches Ok(c) && c.server_config.port == p && exists|
                        d: Option<Seq<char>>,
                    | c.player_config.settings() == player_from(t, #[trigger] default_player(d)),
                    Err(i) => r matches Err(e) && e@ == ConfigErrorView::PortOutOfRange(i),
                },
            },
    {
        let server_config = ServerConfig::try_new(content)?;
        let player_config = PlayerConfig::try_new(content)?;
        Ok(Config { server_config, player_config })
    }

    /// The configuration with every option given on the command line put in place
    /// of the file's.
    pub fn merge_with_cli(self, cli_opts: CliOptions) -> (r: Self)
        ensures
            r.server_config.port == match cli_opts.port {
                Some(p) => p,
                None => self.server_config.port,
            },
            r.player_config.music_dir == match cli_opts.music_dir {
                Some(d) => d,
                None => self.player_config.music_dir,
            },
            r.player_config.state_file == match cli_opts.state_file {
                Some(f) => f,
                None => self.player_config.state_file,
            },
            r.player_config.audio_device == match cli_opts.audio_device {
                Some(d) => Some(d),
                None => self.player_config.audio_device,
            },
            r.player_config.playlist_dir == match cli_opts.playlist_dir {
                Some(d) => Some(d),
                None => self.player_config.playlist_dir,
            },
    {
        let server_config = ServerConfig {
            port: match cli_opts.port {
                Some(p) => p,
                None => self.server_config.port,
            },
        };
        let player_config = PlayerConfig {
            music_dir: match cli_opts.music_dir {
                Some(d) => d,
                None => self.player_config.music_dir,
            },
            state_file: match cli_opts.state_file {
                Some(f) => f,
                None => self.player_config.state_file,
            },
            audio_device: match cli_opts.audio_device {
                Some(d) => Some(d),
                None => self.player_config.audio_device,
            },
            playlist_dir: match cli_opts.playlist_dir {
                Some(d) => Some(d),
                None => self.player_config.playlist_dir,
            },
        };
        Config { server_config, player_config }
    }
}

} // verus!
