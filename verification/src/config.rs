//! Configuration of search, cache, selector and preview behaviour.
//!
//! The configuration arrives from the outside world (a file, the
//! environment) as plain data. This module holds the shape of that data,
//! its built-in defaults, the validation rule that rejects out-of-range
//! values before any scan or cache work begins, and the override step that
//! applies environment-supplied texts on top of a loaded configuration.

use vstd::prelude::*;
use crate::errors::NavError;
use crate::text::{lower_ascii, parse_u64, push_u64_dec, spec_lower, spec_parse_u64, str_eq};
use vstd::string::StringExecFns;

verus! {

/// Where and how deep to search for repositories.
#[derive(Debug, Clone)]
pub struct SearchConfig {
    /// Base path to start searching from.
    pub base_path: String,
    /// Maximum directory depth to traverse.
    pub max_depth: usize,
}

/// Whether and how long scan results are cached.
#[derive(Debug, Clone)]
pub struct CacheConfig {
    /// Whether caching is enabled.
    pub enabled: bool,
    /// Time-to-live for cached data in seconds.
    pub ttl_seconds: u64,
}

/// How the interactive selector is laid out.
#[derive(Debug, Clone)]
pub struct UiConfig {
    /// The prompt displayed to the user.
    pub prompt: String,
    /// Header text shown in the selector interface.
    pub header: String,
    /// Width of the preview pane as a percentage (0-100).
    pub preview_width_percent: u8,
    /// Layout style for the selector.
    pub layout: String,
    /// Height of the selector window as a percentage (1-100).
    pub height_percent: u8,
    /// Whether to show a border around the selector window.
    pub show_border: bool,
}

/// Which sections the repository preview shows.
#[derive(Debug, Clone)]
pub struct PreviewConfig {
    /// Whether to show the current branch.
    pub show_branch: bool,
    /// Whether to show the last activity (most recent commit).
    pub show_last_activity: bool,
    /// Whether to show the working tree status.
    pub show_status: bool,
    /// Number of recent commits to display.
    pub recent_commits: usize,
    /// Date format string for timestamps (strftime format).
    pub date_format: String,
}

/// The whole configuration.
#[derive(Debug, Clone)]
pub struct Config {
    pub search: SearchConfig,
    pub cache: CacheConfig,
    pub ui: UiConfig,
    pub preview: PreviewConfig,
}

/// Relies on dirs::home_dir: the user's home directory as the platform
/// reports it, None when it cannot be determined or is not valid UTF-8.
/// The result depends on the environment, so nothing is promised of it.
#[verifier::external_body]
fn home_dir_string() -> (r: Option<String>) {
    dirs::home_dir().and_then(|p| p.to_str().map(|s| s.to_string()))
}

/// Relies on dirs::config_dir: the platform configuration directory, None
/// when it cannot be determined or is not valid UTF-8. The result depends
/// on the environment, so nothing is promised of it.
#[verifier::external_body]
fn config_dir_string() -> (r: Option<String>) {
    dirs::config_dir().and_then(|p| p.to_str().map(|s| s.to_string()))
}

/// Every built-in default except the base path, which comes from the
/// environment (the home directory, or `~` when none can be determined).
pub open spec fn spec_is_default_config(c: Config) -> bool {
    &&& c.search.max_depth == 5
    &&& c.cache.enabled == true
    &&& c.cache.ttl_seconds == 300
    &&& c.ui.prompt@ == "Select repo > "@
    &&& c.ui.header@ == "Repository (\u{2191}/\u{2193}, \u{23ce}, Esc)"@
    &&& c.ui.preview_width_percent == 60
    &&& c.ui.layout@ == "reverse"@
    &&& c.ui.height_percent == 90
    &&& c.ui.show_border == true
    &&& c.preview.show_branch == true
    &&& c.preview.show_last_activity == true
    &&& c.preview.show_status == true
    &&& c.preview.recent_commits == 5
    &&& c.preview.date_format@ == "%Y-%m-%d %H:%M"@
}

impl Default for Config {
    /// The built-in defaults; the base path is the home directory, or `~`
    /// when none can be determined.
    fn default() -> (c: Config)
        ensures
            spec_is_default_config(c),
    {
        let base_path = match home_dir_string() {
            Some(h) => h,
            None => "~".to_owned(),
        };
        Config {
            search: SearchConfig { base_path, max_depth: 5 },
            cache: CacheConfig { enabled: true, ttl_seconds: 300 },
            ui: UiConfig {
                prompt: "Select repo > ".to_owned(),
                header: "Repository (\u{2191}/\u{2193}, \u{23ce}, Esc)".to_owned(),
                preview_width_percent: 60,
                layout: "reverse".to_owned(),
                height_percent: 90,
                show_border: true,
            },
            preview: PreviewConfig {
                show_branch: true,
                show_last_activity: true,
                show_status: true,
                recent_commits: 5,
                date_format: "%Y-%m-%d %H:%M".to_owned(),
            },
        }
    }
}

/// `s` ends with `suffix`.
pub open spec fn spec_ends_with(s: Seq<char>, suffix: Seq<char>) -> bool {
    s.len() >= suffix.len() && s.skip(s.len() - suffix.len()) == suffix
}

/// A configuration is valid when the depth is at least one and the two
/// percentages are in range.
pub open spec fn spec_config_valid(c: Config) -> bool {
    &&& c.search.max_depth >= 1
    &&& c.ui.preview_width_percent <= 100
    &&& 1 <= c.ui.height_percent <= 100
}

impl Config {
    /// The configuration file locations to try, most preferred first: the
    /// home-based location, then the platform configuration directory. Both
    /// depend on the environment; each returned candidate ends with the
    /// fixed `gitnav/config.toml` tail.
    fn default_paths() -> (r: Vec<String>)
        ensures
            forall|i: int|
                0 <= i < r@.len() ==> spec_ends_with(#[trigger] r@[i]@, "/gitnav/config.toml"@),
    {
        let mut paths: Vec<String> = Vec::new();
        match home_dir_string() {
            Some(home) => {
                let mut p = home;
                p.append("/.config/gitnav/config.toml");
                proof {
                    reveal_strlit("/.config/gitnav/config.toml");
                    reveal_strlit("/gitnav/config.toml");
                    assert(p@.skip(p@.len() - 19) =~= "/gitnav/config.toml"@);
                }
                paths.push(p);
            },
            None => {},
        }
        match config_dir_string() {
            Some(conf) => {
                let mut p = conf;
                p.append("/gitnav/config.toml");
                proof {
                    assert(p@.skip(p@.len() - "/gitnav/config.toml"@.len())
                        =~= "/gitnav/config.toml"@);
                }
                paths.push(p);
            },
            None => {},
        }
        paths
    }

    /// The most preferred configuration file location, or None when no
    /// candidate directory can be determined.
    pub fn default_path() -> (r: Option<String>)
        ensures
            r matches Some(p) ==> spec_ends_with(p@, "/gitnav/config.toml"@),
    {
        let mut paths = Config::default_paths();
        if paths.len() > 0 {
            let first = paths.remove(0);
            Some(first)
        } else {
            None
        }
    }

    /// Checks the configuration, reporting the first out-of-range value:
    /// a zero depth, a preview width over one hundred, a height over one
    /// hundred, or a zero height. Valid configurations pass untouched.
    pub fn validate(&self) -> (r: Result<(), NavError>)
        ensures
            r is Ok <==> spec_config_valid(*self),
            self.search.max_depth == 0 ==> (r matches Err(e) && e matches
                NavError::ConfigValidationError { message } && message@
                == "search.max_depth must be at least 1, got 0"@),
            self.search.max_depth >= 1 && self.ui.preview_width_percent > 100 ==> (r matches Err(e)
                && e matches NavError::ConfigValidationError { message } && message@
                == "ui.preview_width_percent cannot exceed 100, got "@ + crate::text::spec_u64_dec(
                self.ui.preview_width_percent as nat,
            )),
            self.search.max_depth >= 1 && self.ui.preview_width_percent <= 100
                && self.ui.height_percent > 100 ==> (r matches Err(e) && e matches
                NavError::ConfigValidationError { message } && message@
                == "ui.height_percent cannot exceed 100, got "@ + crate::text::spec_u64_dec(
                self.ui.height_percent as nat,
            )),
            self.search.max_depth >= 1 && self.ui.preview_width_percent <= 100
                && self.ui.height_percent == 0 ==> (r matches Err(e) && e matches
                NavError::ConfigValidationError { message } && message@
                == "ui.height_percent must be at least 1, got 0"@),
    {
        if self.search.max_depth == 0 {
            let message: String = "search.max_depth must be at least 1, got 0".to_owned();
            return Err(NavError::ConfigValidationError { message });
        }
        if self.ui.preview_width_percent > 100 {
            let mut message: String = "ui.preview_width_percent cannot exceed 100, got "
                .to_owned();
            push_u64_dec(&mut message, self.ui.preview_width_percent as u64);
            return Err(NavError::ConfigValidationError { message });
        }
        if self.ui.height_percent > 100 {
            let mut message: String = "ui.height_percent cannot exceed 100, got ".to_owned();
            push_u64_dec(&mut message, self.ui.height_percent as u64);
            return Err(NavError::ConfigValidationError { message });
        }
        if self.ui.height_percent == 0 {
            let message: String = "ui.height_percent must be at least 1, got 0".to_owned();
            return Err(NavError::ConfigValidationError { message });
        }
        Ok(())
    }
}

/// The environment-supplied override texts, one per overridable setting;
/// None where the environment leaves the setting alone.
#[derive(Debug, Clone, Default)]
pub struct EnvOverrides {
    pub base_path: Option<String>,
    pub max_depth: Option<String>,
    pub cache_enabled: Option<String>,
    pub cache_ttl: Option<String>,
    pub ui_prompt: Option<String>,
    pub ui_header: Option<String>,
    pub ui_preview_width: Option<String>,
    pub ui_layout: Option<String>,
    pub ui_height: Option<String>,
    pub ui_border: Option<String>,
    pub preview_show_branch: Option<String>,
    pub preview_show_activity: Option<String>,
    pub preview_show_status: Option<String>,
    pub preview_recent_commits: Option<String>,
    pub preview_date_format: Option<String>,
}

/// An override text switches a flag on exactly when it lowercases (ASCII)
/// to `true`, or is exactly `1` or `yes`; any other text switches it off.
pub open spec fn spec_truthy(s: Seq<char>) -> bool {
    spec_lower(s) == "true"@ || s == "1"@ || s == "yes"@
}

/// A flag after an override: the truth value of the text when one is given,
/// the old value otherwise.
pub open spec fn spec_bool_override(old: bool, v: Option<String>) -> bool {
    match v {
        Some(s) => spec_truthy(s@),
        None => old,
    }
}

/// A text setting after an override.
pub open spec fn spec_string_override(old: Seq<char>, v: Option<String>) -> Seq<char> {
    match v {
        Some(s) => s@,
        None => old,
    }
}

/// A u64 setting after an override: the parsed value when the text parses,
/// the old value otherwise.
pub open spec fn spec_u64_override(old: u64, v: Option<String>) -> u64 {
    match v {
        Some(s) => match spec_parse_u64(s@) {
            Some(n) => n,
            None => old,
        },
        None => old,
    }
}

/// A usize setting after an override: the parsed value when the text parses
/// and fits, the old value otherwise.
pub open spec fn spec_usize_override(old: usize, v: Option<String>) -> usize {
    match v {
        Some(s) => match spec_parse_u64(s@) {
            Some(n) => if n <= usize::MAX as u64 {
                n as usize
            } else {
                old
            },
            None => old,
        },
        None => old,
    }
}

/// A percentage after an override, accepted only within `lo..=100`.
pub open spec fn spec_percent_override(old: u8, v: Option<String>, lo: u64) -> u8 {
    match v {
        Some(s) => match spec_parse_u64(s@) {
            Some(n) => if lo <= n && n <= 100 {
                n as u8
            } else {
                old
            },
            None => old,
        },
        None => old,
    }
}

fn truthy(v: &str) -> (r: bool)
    ensures
        r == spec_truthy(v@),
{
    let low = lower_ascii(v);
    if str_eq(low.as_str(), "true") {
        true
    } else if str_eq(v, "1") {
        true
    } else {
        str_eq(v, "yes")
    }
}

impl SearchConfig {
    fn apply_overrides(&mut self, base_path: &Option<String>, max_depth: &Option<String>)
        ensures
            final(self).base_path@ == spec_string_override(old(self).base_path@, *base_path),
            final(self).max_depth == spec_usize_override(old(self).max_depth, *max_depth),
    {
        match base_path {
            Some(v) => self.base_path = v.clone(),
            None => {},
        }
        match max_depth {
            Some(v) => match parse_u64(v.as_str()) {
                Some(n) => if n <= usize::MAX as u64 {
                    self.max_depth = n as usize;
                },
                None => {},
            },
            None => {},
        }
    }
}

impl CacheConfig {
    fn apply_overrides(&mut self, enabled: &Option<String>, ttl: &Option<String>)
        ensures
            final(self).enabled == spec_bool_override(old(self).enabled, *enabled),
            final(self).ttl_seconds == spec_u64_override(old(self).ttl_seconds, *ttl),
    {
        match enabled {
            Some(v) => self.enabled = truthy(v.as_str()),
            None => {},
        }
        match ttl {
            Some(v) => match parse_u64(v.as_str()) {
                Some(n) => self.ttl_seconds = n,
                None => {},
            },
            None => {},
        }
    }
}

impl UiConfig {
    fn apply_overrides(
        &mut self,
        prompt: &Option<String>,
        header: &Option<String>,
        preview_width: &Option<String>,
        layout: &Option<String>,
        height: &Option<String>,
        border: &Option<String>,
    )
        ensures
            final(self).prompt@ == spec_string_override(old(self).prompt@, *prompt),
            final(self).header@ == spec_string_override(old(self).header@, *header),
            final(self).preview_width_percent == spec_percent_override(
                old(self).preview_width_percent,
                *preview_width,
                0,
            ),
            final(self).layout@ == spec_string_override(old(self).layout@, *layout),
            final(self).height_percent == spec_percent_override(
                old(self).height_percent,
                *height,
                1,
            ),
            final(self).show_border == spec_bool_override(old(self).show_border, *border),
    {
        match prompt {
            Some(v) => self.prompt = v.clone(),
            None => {},
        }
        match header {
            Some(v) => self.header = v.clone(),
            None => {},
        }
        match preview_width {
            Some(v) => match parse_u64(v.as_str()) {
                Some(n) => if n <= 100 {
                    self.preview_width_percent = n as u8;
                },
                None => {},
            },
            None => {},
        }
        match layout {
            Some(v) => self.layout = v.clone(),
            None => {},
        }
        match height {
            Some(v) => match parse_u64(v.as_str()) {
                Some(n) => if 1 <= n && n <= 100 {
                    self.height_percent = n as u8;
                },
                None => {},
            },
            None => {},
        }
        match border {
            Some(v) => self.show_border = truthy(v.as_str()),
            None => {},
        }
    }
}

impl PreviewConfig {
    fn apply_overrides(
        &mut self,
        show_branch: &Option<String>,
        show_activity: &Option<String>,
        show_status: &Option<String>,
        recent_commits: &Option<String>,
        date_format: &Option<String>,
    )
        ensures
            final(self).show_branch == spec_bool_override(old(self).show_branch, *show_branch),
            final(self).show_last_activity == spec_bool_override(
                old(self).show_last_activity,
                *show_activity,
            ),
            final(self).show_status == spec_bool_override(old(self).show_status, *show_status),
            final(self).recent_commits == spec_usize_override(
                old(self).recent_commits,
                *recent_commits,
            ),
            final(self).date_format@ == spec_string_override(
                old(self).date_format@,
                *date_format,
            ),
    {
        match show_branch {
            Some(v) => self.show_branch = truthy(v.as_str()),
            None => {},
        }
        match show_activity {
            Some(v) => self.show_last_activity = truthy(v.as_str()),
            None => {},
        }
        match show_status {
            Some(v) => self.show_status = truthy(v.as_str()),
            None => {},
        }
        match recent_commits {
            Some(v) => match parse_u64(v.as_str()) {
                Some(n) => if n <= usize::MAX as u64 {
                    self.recent_commits = n as usize;
                },
                None => {},
            },
            None => {},
        }
        match date_format {
            Some(v) => self.date_format = v.clone(),
            None => {},
        }
    }
}

impl Config {
    /// Applies the environment-supplied override texts on top of this
    /// configuration: a text setting is replaced verbatim, a flag follows
    /// the truth rule, and a numeric setting is replaced only when its text
    /// parses as an unsigned decimal number in range (percentages must stay
    /// within 100, the height at least 1).
    pub fn apply_overrides(&mut self, o: &EnvOverrides)
        ensures
            final(self).search.base_path@ == spec_string_override(
                old(self).search.base_path@,
                o.base_path,
            ),
            final(self).search.max_depth == spec_usize_override(
                old(self).search.max_depth,
                o.max_depth,
            ),
            final(self).cache.enabled == spec_bool_override(
                old(self).cache.enabled,
                o.cache_enabled,
            ),
            final(self).cache.ttl_seconds == spec_u64_override(
                old(self).cache.ttl_seconds,
                o.cache_ttl,
            ),
            final(self).ui.prompt@ == spec_string_override(old(self).ui.prompt@, o.ui_prompt),
            final(self).ui.header@ == spec_string_override(old(self).ui.header@, o.ui_header),
            final(self).ui.preview_width_percent == spec_percent_override(
                old(self).ui.preview_width_percent,
                o.ui_preview_width,
                0,
            ),
            final(self).ui.layout@ == spec_string_override(old(self).ui.layout@, o.ui_layout),
            final(self).ui.height_percent == spec_percent_override(
                old(self).ui.height_percent,
                o.ui_height,
                1,
            ),
            final(self).ui.show_border == spec_bool_override(
                old(self).ui.show_border,
                o.ui_border,
            ),
            final(self).preview.show_branch == spec_bool_override(
                old(self).preview.show_branch,
                o.preview_show_branch,
            ),
            final(self).preview.show_last_activity == spec_bool_override(
                old(self).preview.show_last_activity,
                o.preview_show_activity,
            ),
            final(self).preview.show_status == spec_bool_override(
                old(self).preview.show_status,
                o.preview_show_status,
            ),
            final(self).preview.recent_commits == spec_usize_override(
                old(self).preview.recent_commits,
                o.preview_recent_commits,
            ),
            final(self).preview.date_format@ == spec_string_override(
                old(self).preview.date_format@,
                o.preview_date_format,
            ),
    {
        self.search.apply_overrides(&o.base_path, &o.max_depth);
        self.cache.apply_overrides(&o.cache_enabled, &o.cache_ttl);
        self.ui.apply_overrides(
            &o.ui_prompt,
            &o.ui_header,
            &o.ui_preview_width,
            &o.ui_layout,
            &o.ui_height,
            &o.ui_border,
        );
        self.preview.apply_overrides(
            &o.preview_show_branch,
            &o.preview_show_activity,
            &o.preview_show_status,
            &o.preview_recent_commits,
            &o.preview_date_format,
        );
    }
}

} // verus!
