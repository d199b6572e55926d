//! The configuration values the library works from: the user-facing
//! configuration, the resolved application configuration, and the built-in
//! source table. Reading configuration files and environment variables is
//! the surrounding program's business; the rules for combining the values
//! live here.

use vstd::prelude::*;

verus! {

use crate::source::{SourceConfig, SourceConfigModel};
use crate::text::{concat_str, str_to_string};

/// The cache duration used when the user sets none: one week, in seconds.
pub const DEFAULT_CACHE_DURATION_SECS: u64 = 604800;

/// The user-facing configuration, as read from the configuration file:
/// every knob explicit, with separate switches for the cache and the log.
#[derive(Debug, Clone, PartialEq)]
pub struct UserConfig {
    /// Order matters: it is the tab order.
    pub sources: Vec<SourceConfig>,
    pub use_cache: bool,
    pub auto_refresh_cache: bool,
    pub cache_duration_secs: u64,
    pub cache_dir: String,
    pub enable_logging: bool,
    pub log_level: String,
    pub log_file: String,
}

/// The resolved configuration the application runs from: a switch that is
/// off folds into an absent value.
#[derive(Debug, Clone, PartialEq)]
pub struct AppConfig {
    pub sources: Vec<SourceConfig>,
    pub cache_duration_secs: Option<u64>,
    pub cache_dir: Option<String>,
    pub log_level: String,
    pub log_file: Option<String>,
}

impl AppConfig {
    /// Resolves a user configuration: the cache directory counts only when
    /// the cache is on, the refresh duration only when auto-refresh is on,
    /// the log file only when logging is on.
    pub fn from(value: UserConfig) -> (r: AppConfig)
        ensures
            r.sources == value.sources,
            r.cache_duration_secs == if value.auto_refresh_cache {
                Some(value.cache_duration_secs)
            } else {
                None::<u64>
            },
            r.cache_dir == if value.use_cache {
                Some(value.cache_dir)
            } else {
                None::<String>
            },
            r.log_level == value.log_level,
            r.log_file == if value.enable_logging {
                Some(value.log_file)
            } else {
                None::<String>
            },
    {
        AppConfig {
            sources: value.sources,
            cache_duration_secs: if value.auto_refresh_cache {
                Some(value.cache_duration_secs)
            } else {
                None
            },
            cache_dir: if value.use_cache {
                Some(value.cache_dir)
            } else {
                None
            },
            log_level: value.log_level,
            log_file: if value.enable_logging {
                Some(value.log_file)
            } else {
                None
            },
        }
    }
}

impl UserConfig {
    /// Unfolds a resolved configuration back into user form; an absent
    /// value becomes the switch turned off, with the given default filled
    /// in for the path it replaced.
    pub fn from(value: AppConfig, default_cache_dir: String, default_log_file: String) -> (r:
        UserConfig)
        ensures
            r.sources == value.sources,
            r.use_cache == value.cache_dir is Some,
            r.auto_refresh_cache == value.cache_duration_secs is Some,
            r.cache_duration_secs == match value.cache_duration_secs {
                Some(d) => d,
                None => DEFAULT_CACHE_DURATION_SECS,
            },
            r.cache_dir == match value.cache_dir {
                Some(ref d) => *d,
                None => default_cache_dir,
            },
            r.enable_logging == value.log_file is Some,
            r.log_level == value.log_level,
            r.log_file == match value.log_file {
                Some(ref f) => *f,
                None => default_log_file,
            },
    {
        let use_cache = value.cache_dir.is_some();
        let auto_refresh_cache = value.cache_duration_secs.is_some();
        let enable_logging = value.log_file.is_some();
        UserConfig {
            sources: value.sources,
            use_cache,
            auto_refresh_cache,
            cache_duration_secs: match value.cache_duration_secs {
                Some(d) => d,
                None => DEFAULT_CACHE_DURATION_SECS,
            },
            cache_dir: match value.cache_dir {
                Some(d) => d,
                None => default_cache_dir,
            },
            enable_logging,
            log_level: value.log_level,
            log_file: match value.log_file {
                Some(f) => f,
                None => default_log_file,
            },
        }
    }

    /// The default user configuration, given the platform-dependent default
    /// cache directory and log file: caching and logging on, a one-week
    /// refresh, errors-only logging, and the built-in source table.
    pub fn defaults(default_cache_dir: String, default_log_file: String) -> (r: UserConfig)
        ensures
            r.sources@.map_values(|s: SourceConfig| s.model()) == builtin_models(),
            r.use_cache,
            r.auto_refresh_cache,
            r.cache_duration_secs == DEFAULT_CACHE_DURATION_SECS,
            r.cache_dir == default_cache_dir,
            r.enable_logging,
            r.log_level@ == "error"@,
            r.log_file == default_log_file,
    {
        UserConfig {
            sources: builtin_sources(),
            use_cache: true,
            auto_refresh_cache: true,
            cache_duration_secs: DEFAULT_CACHE_DURATION_SECS,
            cache_dir: default_cache_dir,
            enable_logging: true,
            log_level: str_to_string("error"),
            log_file: default_log_file,
        }
    }
}

/// The opening of the documented default configuration, up to the cache
/// directory value.
pub const CONFIG_TOML_HEAD: &'static str = r#"
# Whether to cache parsed options to disk
use_cache = true

# Whether to automatically refresh cache
auto_refresh_cache = true

# The duration to keep cached results around for before automatically refreshing, if auto_refresh_cache = true.
# Examples of valid duration specifications: "1week", "10days 2hours", "1d 2h 3m"
# For all options see https://docs.rs/humantime/latest/humantime/fn.parse_duration.html
cache_duration = "1week"

# Directory in which to store cached results
cache_dir = ""#;

/// The middle of the documented default configuration, between the cache
/// directory and the log file values.
pub const CONFIG_TOML_MID: &'static str = r#""

# Whether to enable logging to file (mostly useful for debugging during development)
enable_logging = true

# Which events to emit to the log.
# Syntax: https://docs.rs/tracing-subscriber/latest/tracing_subscriber/filter/struct.EnvFilter.html#example-syntax
log_level = "error"

# Location of the log file, if used.
log_file = ""#;

/// The tail of the documented default configuration: the built-in source
/// table, with a comment on each entry's meaning.
pub const CONFIG_TOML_TAIL: &'static str = r#""

### Config sources ###
# Each [[sources]] entry defines a separate config source and corresponding tab in nox.
# The order of entries here determines the order the tabs are displayed in nox.

[[sources]]
# The name of the entry. This will be displayed as the title of the corresponding tab,
# but otherwise has no function.
name = "Nix-Darwin"
# The URL from which to get the data for this entry.
url = "https://nix-darwin.github.io/nix-darwin/manual/index.html"

[[sources]]
name = "NixOS"
url = "https://nixos.org/manual/nixos/stable/options"
# Sometimes, the version number is not contained in the html of the page
# describing the configuration options you might be interested in, but might
# be found in a different page. That can be specified here.
version_url = "https://nixos.org/manual/nixos/stable/"

[[sources]]
# The "NixOS Unstable" name currently triggers special behaviour to fix links to the source
# of each configuration option.
# Namely, leading up to each new NixOS stable release, the Unstable documentation switches to
# linking to the new stable branch of the github.com/nixos/nixpkgs repo before that stable branch
# has been created, resulting in HTTP 404 errors.
# As a special case, for a source with the name "NixOS Unstable", if a substring of the form "release-\d{2}\.\d{2}"
# (e.g. "release-25.11") is detected in links to the source code defining a given option,
# it is replaced with "nixos-unstable".
name = "NixOS Unstable"
url = "https://nixos.org/manual/nixos/unstable/options"
version_url = "https://nixos.org/manual/nixos/unstable/"

[[sources]]
name = "Home Manager"
url = "https://nix-community.github.io/home-manager/options.xhtml"
version_url = "https://nix-community.github.io/home-manager/"

[[sources]]
name = "Home Manager NixOS"
url = "https://nix-community.github.io/home-manager/nixos-options.xhtml"
version_url = "https://nix-community.github.io/home-manager/"

[[sources]]
name = "Home Manager Nix-Darwin"
url = "https://nix-community.github.io/home-manager/nix-darwin-options.xhtml"
version_url = "https://nix-community.github.io/home-manager/"

[[sources]]
name = "Nix Built-ins"
url = "https://nix.dev/manual/nix/2.28/language/builtins.html"
"#;

/// The documented default configuration, with the platform-dependent
/// default cache directory and log file written into it. What it documents
/// is what [`UserConfig::defaults`] builds.
pub fn default_config_toml(default_cache_dir: &str, default_log_file: &str) -> (r: String)
    ensures
        r@ == CONFIG_TOML_HEAD@ + default_cache_dir@ + CONFIG_TOML_MID@ + default_log_file@
            + CONFIG_TOML_TAIL@,
{
    let a = concat_str(CONFIG_TOML_HEAD, default_cache_dir);
    let b = concat_str(a.as_str(), CONFIG_TOML_MID);
    let c = concat_str(b.as_str(), default_log_file);
    concat_str(c.as_str(), CONFIG_TOML_TAIL)
}

/// The built-in source table, as models: name, data URL and, where one
/// exists, version URL of each tracked documentation page, in tab order.
pub open spec fn builtin_models() -> Seq<SourceConfigModel> {
    seq![
        SourceConfigModel {
            name: "Nix-Darwin"@,
            url: "https://nix-darwin.github.io/nix-darwin/manual/index.html"@,
            version_url: None,
        },
        SourceConfigModel {
            name: "NixOS"@,
            url: "https://nixos.org/manual/nixos/stable/options"@,
            version_url: Some("https://nixos.org/manual/nixos/stable/"@),
        },
        SourceConfigModel {
            name: "NixOS Unstable"@,
            url: "https://nixos.org/manual/nixos/unstable/options"@,
            version_url: Some("https://nixos.org/manual/nixos/unstable/"@),
        },
        SourceConfigModel {
            name: "Home Manager"@,
            url: "https://nix-community.github.io/home-manager/options.xhtml"@,
            version_url: Some("https://nix-community.github.io/home-manager/"@),
        },
        SourceConfigModel {
            name: "Home Manager NixOS"@,
            url: "https://nix-community.github.io/home-manager/nixos-options.xhtml"@,
            version_url: Some("https://nix-community.github.io/home-manager/"@),
        },
        SourceConfigModel {
            name: "Home Manager Nix-Darwin"@,
            url: "https://nix-community.github.io/home-manager/nix-darwin-options.xhtml"@,
            version_url: Some("https://nix-community.github.io/home-manager/"@),
        },
        SourceConfigModel {
            name: "Nix Built-ins"@,
            url: "https://nix.dev/manual/nix/2.28/language/builtins.html"@,
            version_url: None,
        },
    ]
}

fn source_entry(name: &str, url: &str) -> (r: SourceConfig)
    ensures
        r.model() == (SourceConfigModel { name: name@, url: url@, version_url: None }),
{
    SourceConfig { name: str_to_string(name), url: str_to_string(url), version_url: None }
}

fn source_entry_versioned(name: &str, url: &str, version_url: &str) -> (r: SourceConfig)
    ensures
        r.model() == (SourceConfigModel {
            name: name@,
            url: url@,
            version_url: Some(version_url@),
        }),
{
    SourceConfig {
        name: str_to_string(name),
        url: str_to_string(url),
        version_url: Some(str_to_string(version_url)),
    }
}

/// The built-in source table.
pub fn builtin_sources() -> (r: Vec<SourceConfig>)
    ensures
        r@.map_values(|s: SourceConfig| s.model()) == builtin_models(),
{
    let mut r: Vec<SourceConfig> = Vec::new();
    r.push(source_entry("Nix-Darwin", "https://nix-darwin.github.io/nix-darwin/manual/index.html"));
    r.push(
        source_entry_versioned(
            "NixOS",
            "https://nixos.org/manual/nixos/stable/options",
            "https://nixos.org/manual/nixos/stable/",
        ),
    );
    r.push(
        source_entry_versioned(
            "NixOS Unstable",
            "https://nixos.org/manual/nixos/unstable/options",
            "https://nixos.org/manual/nixos/unstable/",
        ),
    );
    r.push(
        source_entry_versioned(
            "Home Manager",
            "https://nix-community.github.io/home-manager/options.xhtml",
            "https://nix-community.github.io/home-manager/",
        ),
    );
    r.push(
        source_entry_versioned(
            "Home Manager NixOS",
            "https://nix-community.github.io/home-manager/nixos-options.xhtml",
            "https://nix-community.github.io/home-manager/",
        ),
    );
    r.push(
        source_entry_versioned(
            "Home Manager Nix-Darwin",
            "https://nix-community.github.io/home-manager/nix-darwin-options.xhtml",
            "https://nix-community.github.io/home-manager/",
        ),
    );
    r.push(
        source_entry("Nix Built-ins", "https://nix.dev/manual/nix/2.28/language/builtins.html"),
    );
    assert(r@.map_values(|s: SourceConfig| s.model()) =~= builtin_models());
    r
}

} // verus!
