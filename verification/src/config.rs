//! The station's settings, their defaults, and how the environment
//! overrides them.
use vstd::prelude::*;
use vstd::string::StringExecFns;
use crate::text::{chars_of, parse_unsigned, parse_unsigned_chars, split_chars, split_on, str_equal,
    string_from_chars, trim, trim_chars};

verus! {

/// All settings of the station.
pub struct Settings {
    pub server: ServerConfig,
    pub database: DatabaseConfig,
    pub flash: FlashConfig,
    pub storage: StorageConfig,
    pub watch: WatchConfig,
}

/// Where and how the HTTP server listens.
pub struct ServerConfig {
    pub host: String,
    pub port: u16,
    pub log_level: String,
    pub frontend_dist: String,
}

/// Where the database lives.
pub struct DatabaseConfig {
    pub url: String,
}

/// How flashing runs.
pub struct FlashConfig {
    pub max_concurrent: u32,
    pub verify: bool,
}

/// Where images, downloads and logs are kept.
pub struct StorageConfig {
    pub iso_path: String,
    pub download_path: String,
    pub log_path: String,
}

/// Which directories are watched for new images.
pub struct WatchConfig {
    pub enabled: bool,
    pub paths: Vec<String>,
}

/// The host the server listens on by default.
pub fn default_host() -> (r: String)
    ensures
        r@ == "0.0.0.0"@,
{
    String::from_str("0.0.0.0")
}

/// The port the server listens on by default.
pub fn default_port() -> (r: u16)
    ensures
        r == 8080,
{
    8080
}

/// The log level by default.
pub fn default_log_level() -> (r: String)
    ensures
        r@ == "info"@,
{
    String::from_str("info")
}

/// Where the web front end is served from by default.
pub fn default_frontend_dist() -> (r: String)
    ensures
        r@ == "/usr/share/usb-station/frontend"@,
{
    String::from_str("/usr/share/usb-station/frontend")
}

/// The database URL by default.
pub fn default_db_url() -> (r: String)
    ensures
        r@ == "sqlite:///data/usb-station.db?mode=rwc"@,
{
    String::from_str("sqlite:///data/usb-station.db?mode=rwc")
}

/// How many flash jobs run at once by default.
pub fn default_max_concurrent() -> (r: u32)
    ensures
        r == 2,
{
    2
}

/// Whether written images are verified by default.
pub fn default_default_verify() -> (r: bool)
    ensures
        r,
{
    true
}

/// Where images are kept by default.
pub fn default_iso_path() -> (r: String)
    ensures
        r@ == "/storage/iso"@,
{
    String::from_str("/storage/iso")
}

/// Where downloads are kept by default.
pub fn default_download_path() -> (r: String)
    ensures
        r@ == "/storage/downloads"@,
{
    String::from_str("/storage/downloads")
}

/// Where logs are written by default.
pub fn default_log_path() -> (r: String)
    ensures
        r@ == "/logs"@,
{
    String::from_str("/logs")
}

/// Whether directory watching is on by default.
pub fn default_enabled() -> (r: bool)
    ensures
        r,
{
    true
}

/// The directories watched by default.
pub fn default_watch_paths() -> (r: Vec<String>)
    ensures
        r.deep_view() == seq!["/storage/iso"@],
{
    let mut v: Vec<String> = Vec::new();
    v.push(String::from_str("/storage/iso"));
    assert(v.deep_view() =~= seq!["/storage/iso"@]);
    v
}

/// The values of the environment variables that override the defaults,
/// `None` where a variable is unset (or not valid Unicode).
pub struct EnvValues {
    /// `SERVER_HOST`
    pub server_host: Option<String>,
    /// `SERVER_PORT`
    pub server_port: Option<String>,
    /// `LOG_LEVEL`
    pub log_level: Option<String>,
    /// `FRONTEND_DIST`
    pub frontend_dist: Option<String>,
    /// `DATABASE_URL`
    pub database_url: Option<String>,
    /// `FLASH_MAX_CONCURRENT`
    pub flash_max_concurrent: Option<String>,
    /// `FLASH_VERIFY`
    pub flash_verify: Option<String>,
    /// `STORAGE_ISO_PATH`
    pub storage_iso_path: Option<String>,
    /// `STORAGE_DOWNLOAD_PATH`
    pub storage_download_path: Option<String>,
    /// `STORAGE_LOG_PATH`
    pub storage_log_path: Option<String>,
    /// `WATCH_ENABLED`
    pub watch_enabled: Option<String>,
    /// `WATCH_PATHS`
    pub watch_paths: Option<String>,
}

/// A text setting: the variable's value where it is set, else the default.
pub open spec fn text_setting(value: Option<String>, default: Seq<char>) -> Seq<char> {
    match value {
        Some(v) => v@,
        None => default,
    }
}

/// A numeric setting: the variable's value where it is set and parses as a
/// number no larger than `max`, else the default.
pub open spec fn number_setting(value: Option<String>, max: nat, default: nat) -> nat {
    match value {
        Some(v) => match parse_unsigned(v@, max) {
            Some(n) => n,
            None => default,
        },
        None => default,
    }
}

/// A switch: on exactly when the variable is set to `true`; the default
/// where it is unset.
pub open spec fn switch_setting(value: Option<String>, default: bool) -> bool {
    match value {
        Some(v) => v@ == "true"@,
        None => default,
    }
}

/// A list of paths: the variable's value cut at each comma, each piece
/// trimmed; the default where it is unset.
pub open spec fn paths_setting(value: Option<String>, default: Seq<Seq<char>>) -> Seq<Seq<char>> {
    match value {
        Some(v) => split_on(v@, ',').map_values(|p: Seq<char>| trim(p)),
        None => default,
    }
}

fn text_or(value: &Option<String>, default: String) -> (r: String)
    ensures
        r@ == text_setting(*value, default@),
{
    match value {
        Some(v) => v.clone(),
        None => default,
    }
}

fn number_or(value: &Option<String>, max: u64, default: u64) -> (r: u64)
    requires
        default <= max,
    ensures
        r == number_setting(*value, max as nat, default as nat),
        r <= max,
{
    match value {
        Some(v) => {
            let cs = chars_of(v.as_str());
            match parse_unsigned_chars(cs.as_slice(), max) {
                Some(n) => n,
                None => default,
            }
        },
        None => default,
    }
}

fn switch_or(value: &Option<String>, default: bool) -> (r: bool)
    ensures
        r == switch_setting(*value, default),
{
    match value {
        Some(v) => str_equal(v.as_str(), "true"),
        None => default,
    }
}

/// Cuts `value` at each comma and trims each piece, as
/// `value.split(',').map(|s| s.trim().to_string())` does.
pub fn split_paths(value: &str) -> (r: Vec<String>)
    ensures
        r.deep_view() == split_on(value@, ',').map_values(|p: Seq<char>| trim(p)),
{
    let cs = chars_of(value);
    let pieces = split_chars(cs.as_slice(), ',');
    proof {
        crate::text::lemma_pieces_view(pieces);
    }
    let ghost want = split_on(value@, ',').map_values(|p: Seq<char>| trim(p));
    let mut out: Vec<String> = Vec::new();
    let mut k: usize = 0;
    while k < pieces.len()
        invariant
            pieces.deep_view() == split_on(value@, ','),
            pieces.deep_view().len() == pieces@.len(),
            forall|i: int| 0 <= i < pieces@.len() ==> #[trigger] pieces.deep_view()[i] == pieces@[i]@,
            want == split_on(value@, ',').map_values(|p: Seq<char>| trim(p)),
            k <= pieces@.len(),
            out.deep_view() =~= want.take(k as int),
        decreases pieces@.len() - k,
    {
        let t = trim_chars(pieces[k].as_slice());
        let piece = string_from_chars(t.as_slice());
        let ghost before = out;
        out.push(piece);
        proof {
            assert(want[k as int] == trim(pieces@[k as int]@));
            assert(out.deep_view() =~= before.deep_view().push(piece@)) by {
                assert forall|i: int| 0 <= i < out@.len() implies #[trigger] out.deep_view()[i]
                    == before.deep_view().push(piece@)[i] by {
                    if i < before@.len() {
                        assert(out@[i] == before@[i]);
                    }
                }
            }
            assert(want.take(k + 1) =~= want.take(k as int).push(want[k as int]));
        }
        k = k + 1;
    }
    assert(want.take(k as int) =~= want);
    out
}

fn paths_or(value: &Option<String>) -> (r: Vec<String>)
    ensures
        r.deep_view() == paths_setting(*value, seq!["/storage/iso"@]),
{
    match value {
        Some(v) => split_paths(v.as_str()),
        None => default_watch_paths(),
    }
}

impl Settings {
    /// The settings that the environment gives: each variable that is set
    /// replaces its default as the `*_setting` functions say.
    pub fn from_env(env: &EnvValues) -> (r: Settings)
        ensures
            r.server.host@ == text_setting(env.server_host, "0.0.0.0"@),
            r.server.port == number_setting(env.server_port, 65535, 8080),
            r.server.log_level@ == text_setting(env.log_level, "info"@),
            r.server.frontend_dist@ == text_setting(
                env.frontend_dist,
                "/usr/share/usb-station/frontend"@,
            ),
            r.database.url@ == text_setting(
                env.database_url,
                "sqlite:///data/usb-station.db?mode=rwc"@,
            ),
            r.flash.max_concurrent == number_setting(env.flash_max_concurrent, 4294967295, 2),
            r.flash.verify == switch_setting(env.flash_verify, true),
            r.storage.iso_path@ == text_setting(env.storage_iso_path, "/storage/iso"@),
            r.storage.download_path@ == text_setting(
                env.storage_download_path,
                "/storage/downloads"@,
            ),
            r.storage.log_path@ == text_setting(env.storage_log_path, "/logs"@),
            r.watch.enabled == switch_setting(env.watch_enabled, true),
            r.watch.paths.deep_view() == paths_setting(env.watch_paths, seq!["/storage/iso"@]),
    {
        let port = number_or(&env.server_port, 65535, default_port() as u64);
        let max_concurrent = number_or(
            &env.flash_max_concurrent,
            4294967295,
            default_max_concurrent() as u64,
        );
        Settings {
            server: ServerConfig {
                host: text_or(&env.server_host, default_host()),
                port: port as u16,
                log_level: text_or(&env.log_level, default_log_level()),
                frontend_dist: text_or(&env.frontend_dist, default_frontend_dist()),
            },
            database: DatabaseConfig { url: text_or(&env.database_url, default_db_url()) },
            flash: FlashConfig {
                max_concurrent: max_concurrent as u32,
                verify: switch_or(&env.flash_verify, default_default_verify()),
            },
            storage: StorageConfig {
                iso_path: text_or(&env.storage_iso_path, default_iso_path()),
                download_path: text_or(&env.storage_download_path, default_download_path()),
                log_path: text_or(&env.storage_log_path, default_log_path()),
            },
            watch: WatchConfig {
                enabled: switch_or(&env.watch_enabled, default_enabled()),
                paths: paths_or(&env.watch_paths),
            },
        }
    }
}

} // verus!
