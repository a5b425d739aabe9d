//! User configuration: defaults, environment overrides, and the outcome of
//! reading the config file.
use crate::model::Field;
use crate::text::{dec, eq_ignore_ascii_case, eq_ignore_ascii_case_str, owned, parse_u64, parse_u64_str, push_str};
use crate::model::str_eq;
use vstd::prelude::*;

verus! {

/// Largest config file that is read, in bytes.
pub const CONFIG_SIZE_LIMIT_BYTES: u64 = 102400;

/// Default output layout.
#[derive(Debug, Clone, Copy, PartialEq, Eq, Structural)]
pub enum ViewMode {
    Block,
    Compact,
}

/// Whether icons are shown.
#[derive(Debug, Clone, Copy, PartialEq, Eq, Structural)]
pub enum IconMode {
    Auto,
    On,
    Off,
}

/// Whether ANSI color is used.
#[derive(Debug, Clone, Copy, PartialEq, Eq, Structural)]
pub enum ColorMode {
    Auto,
    On,
    Off,
}

/// What `--plain` prints.
#[derive(Debug, Clone, Copy, PartialEq, Eq, Structural)]
pub enum PlainMode {
    User,
    UserHost,
}

/// Which context detectors run.
#[derive(Debug, Clone, PartialEq, Eq, Structural)]
pub struct ContextConfig {
    pub enabled: bool,
    pub project: bool,
    pub container: bool,
    pub ssh: bool,
    pub git: bool,
}

/// Settings of `--watch`.
#[derive(Debug, Clone, PartialEq, Eq, Structural)]
pub struct WatchConfig {
    pub interval: u64,
}

/// The whole configuration.
#[derive(Debug, Clone)]
pub struct Config {
    pub view: ViewMode,
    pub theme: String,
    pub color: ColorMode,
    pub icons: IconMode,
    pub fields: Vec<Field>,
    pub context: ContextConfig,
    pub watch: WatchConfig,
    pub plain_mode: PlainMode,
}

/// The configuration used when nothing else is known.
pub open spec fn is_default_config(c: Config) -> bool {
    &&& c.view == ViewMode::Block
    &&& c.theme@ == "dark"@
    &&& c.color == ColorMode::Auto
    &&& c.icons == IconMode::Auto
    &&& c.fields@.len() == 0
    &&& c.context == (ContextConfig {
        enabled: true,
        project: true,
        container: true,
        ssh: true,
        git: true,
    })
    &&& c.watch.interval == 1
    &&& c.plain_mode == PlainMode::UserHost
}

impl Default for ContextConfig {
    fn default() -> (r: ContextConfig)
        ensures
            r == (ContextConfig { enabled: true, project: true, container: true, ssh: true, git: true }),
    {
        ContextConfig { enabled: true, project: true, container: true, ssh: true, git: true }
    }
}

impl Default for WatchConfig {
    fn default() -> (r: WatchConfig)
        ensures
            r.interval == 1,
    {
        WatchConfig { interval: 1 }
    }
}

impl Default for Config {
    fn default() -> (r: Config)
        ensures
            is_default_config(r),
    {
        Config {
            view: ViewMode::Block,
            theme: owned("dark"),
            color: ColorMode::Auto,
            icons: IconMode::Auto,
            fields: Vec::new(),
            context: ContextConfig::default(),
            watch: WatchConfig::default(),
            plain_mode: PlainMode::UserHost,
        }
    }
}

/// What happened when the config file was looked for and read. The file
/// system work and the YAML parse are done by the caller.
#[derive(Debug, Clone)]
pub enum LoadOutcome {
    /// There is no home directory, so no config path.
    NoPath,
    /// The missing file could not be created.
    InitFailed { path: String, error: String },
    /// The file is larger than `CONFIG_SIZE_LIMIT_BYTES`.
    TooLarge { path: String },
    /// The file could not be read.
    ReadFailed { path: String, error: String },
    /// The file is not a valid configuration.
    Invalid { path: String },
    /// The file parsed to this configuration.
    Parsed(Config),
}

/// Raw values of the `ME_*` environment variables, where set.
#[derive(Debug, Clone)]
pub struct EnvValues {
    pub view: Option<String>,
    pub icons: Option<String>,
    pub color: Option<String>,
    pub plain_mode: Option<String>,
    pub watch_interval: Option<String>,
}

pub open spec fn spec_parse_view(raw: Seq<char>) -> Option<ViewMode> {
    if raw == "compact"@ {
        Some(ViewMode::Compact)
    } else if raw == "block"@ {
        Some(ViewMode::Block)
    } else {
        None
    }
}

pub open spec fn spec_parse_icon_mode(raw: Seq<char>) -> Option<IconMode> {
    if raw == "on"@ {
        Some(IconMode::On)
    } else if raw == "off"@ {
        Some(IconMode::Off)
    } else if raw == "auto"@ {
        Some(IconMode::Auto)
    } else {
        None
    }
}

pub open spec fn spec_parse_color_mode(raw: Seq<char>) -> Option<ColorMode> {
    if raw == "on"@ {
        Some(ColorMode::On)
    } else if raw == "off"@ {
        Some(ColorMode::Off)
    } else if raw == "auto"@ {
        Some(ColorMode::Auto)
    } else {
        None
    }
}

pub open spec fn spec_parse_plain_mode(raw: Seq<char>) -> Option<PlainMode> {
    if raw == "user"@ {
        Some(PlainMode::User)
    } else if raw == "user_host"@ {
        Some(PlainMode::UserHost)
    } else {
        None
    }
}

pub open spec fn override_view(cur: ViewMode, raw: Option<String>) -> ViewMode {
    match raw {
        Some(r) => match spec_parse_view(r@) {
            Some(v) => v,
            None => cur,
        },
        None => cur,
    }
}

pub open spec fn override_icons(cur: IconMode, raw: Option<String>) -> IconMode {
    match raw {
        Some(r) => match spec_parse_icon_mode(r@) {
            Some(v) => v,
            None => cur,
        },
        None => cur,
    }
}

pub open spec fn override_color(cur: ColorMode, raw: Option<String>) -> ColorMode {
    match raw {
        Some(r) => match spec_parse_color_mode(r@) {
            Some(v) => v,
            None => cur,
        },
        None => cur,
    }
}

pub open spec fn override_plain(cur: PlainMode, raw: Option<String>) -> PlainMode {
    match raw {
        Some(r) => match spec_parse_plain_mode(r@) {
            Some(v) => v,
            None => cur,
        },
        None => cur,
    }
}

pub open spec fn override_interval(cur: u64, raw: Option<String>) -> u64 {
    match raw {
        Some(r) => match parse_u64(r@) {
            Some(v) => v,
            None => cur,
        },
        None => cur,
    }
}

/// The warning that goes with a load outcome.
pub open spec fn load_warning(outcome: LoadOutcome) -> Option<Seq<char>> {
    match outcome {
        LoadOutcome::NoPath => None,
        LoadOutcome::InitFailed { path, error } => Some(
            "warning: could not initialize config at "@ + path@ + ": "@ + error@
                + "; using defaults"@,
        ),
        LoadOutcome::TooLarge { path } => Some(
            "config file is too large at "@ + path@ + "; using defaults"@,
        ),
        LoadOutcome::ReadFailed { path, error } => Some(
            "could not read config at "@ + path@ + ": "@ + error@ + "; using defaults"@,
        ),
        LoadOutcome::Invalid { path } => Some("invalid config at "@ + path@ + "; using defaults"@),
        LoadOutcome::Parsed(_) => None,
    }
}

/// Applies the environment overrides to a configuration.
pub open spec fn with_env(c: Config, env: EnvValues) -> Config {
    Config {
        view: override_view(c.view, env.view),
        icons: override_icons(c.icons, env.icons),
        color: override_color(c.color, env.color),
        plain_mode: override_plain(c.plain_mode, env.plain_mode),
        watch: WatchConfig { interval: override_interval(c.watch.interval, env.watch_interval) },
        ..c
    }
}

impl Config {
    /// Resolves the configuration from what was found on disk and in the
    /// environment: the parsed file, or the defaults with a warning when the
    /// file could not be used; then every valid `ME_*` override.
    pub fn load(outcome: LoadOutcome, env: &EnvValues) -> (r: (Config, Option<String>))
        ensures
            match outcome {
                LoadOutcome::Parsed(c) => r.0 == with_env(c, *env),
                _ => exists|d: Config| is_default_config(d) && r.0 == with_env(d, *env),
            },
            match load_warning(outcome) {
                Some(w) => r.1 matches Some(s) && s@ == w,
                None => r.1 is None,
            },
    {
        let (mut config, warning) = Self::load_from(outcome);
        apply_env_overrides(&mut config, env);
        (config, warning)
    }

    /// The configuration and warning for one load outcome.
    pub fn load_from(outcome: LoadOutcome) -> (r: (Config, Option<String>))
        ensures
            match outcome {
                LoadOutcome::Parsed(c) => r.0 == c,
                _ => is_default_config(r.0),
            },
            match load_warning(outcome) {
                Some(w) => r.1 matches Some(s) && s@ == w,
                None => r.1 is None,
            },
    {
        match outcome {
            LoadOutcome::NoPath => (Config::default(), None),
            LoadOutcome::InitFailed { path, error } => {
                let mut w = owned("warning: could not initialize config at ");
                push_str(&mut w, path.as_str());
                push_str(&mut w, ": ");
                push_str(&mut w, error.as_str());
                push_str(&mut w, "; using defaults");
                (Config::default(), Some(w))
            },
            LoadOutcome::TooLarge { path } => {
                let mut w = owned("config file is too large at ");
                push_str(&mut w, path.as_str());
                push_str(&mut w, "; using defaults");
                (Config::default(), Some(w))
            },
            LoadOutcome::ReadFailed { path, error } => {
                let mut w = owned("could not read config at ");
                push_str(&mut w, path.as_str());
                push_str(&mut w, ": ");
                push_str(&mut w, error.as_str());
                push_str(&mut w, "; using defaults");
                (Config::default(), Some(w))
            },
            LoadOutcome::Invalid { path } => {
                let mut w = owned("invalid config at ");
                push_str(&mut w, path.as_str());
                push_str(&mut w, "; using defaults");
                (Config::default(), Some(w))
            },
            LoadOutcome::Parsed(c) => (c, None),
        }
    }

    /// Whether the configured theme is `light`, ignoring ASCII case.
    pub fn is_light_theme(&self) -> (r: bool)
        ensures
            r == eq_ignore_ascii_case(self.theme@, "light"@),
    {
        eq_ignore_ascii_case_str(self.theme.as_str(), "light")
    }
}

/// Whether a config file of `len` bytes is too large to read.
pub fn exceeds_size_limit(len: u64) -> (r: bool)
    ensures
        r == (len > CONFIG_SIZE_LIMIT_BYTES),
{
    len > CONFIG_SIZE_LIMIT_BYTES
}

/// Replaces each setting whose `ME_*` variable is set to a valid value.
pub fn apply_env_overrides(config: &mut Config, env: &EnvValues)
    ensures
        *final(config) == with_env(*old(config), *env),
{
    let view = match &env.view {
        Some(raw) => match parse_view(raw.as_str()) {
            Some(v) => v,
            None => config.view,
        },
        None => config.view,
    };
    let icons = match &env.icons {
        Some(raw) => match parse_icon_mode(raw.as_str()) {
            Some(v) => v,
            None => config.icons,
        },
        None => config.icons,
    };
    let color = match &env.color {
        Some(raw) => match parse_color_mode(raw.as_str()) {
            Some(v) => v,
            None => config.color,
        },
        None => config.color,
    };
    let plain_mode = match &env.plain_mode {
        Some(raw) => match parse_plain_mode(raw.as_str()) {
            Some(v) => v,
            None => config.plain_mode,
        },
        None => config.plain_mode,
    };
    let interval = match &env.watch_interval {
        Some(raw) => match parse_u64_str(raw.as_str()) {
            Some(v) => v,
            None => config.watch.interval,
        },
        None => config.watch.interval,
    };
    config.view = view;
    config.icons = icons;
    config.color = color;
    config.plain_mode = plain_mode;
    config.watch.interval = interval;
}

/// `ME_VIEW` values.
pub fn parse_view(raw: &str) -> (r: Option<ViewMode>)
    ensures
        r == spec_parse_view(raw@),
{
    if str_eq(raw, "compact") {
        Some(ViewMode::Compact)
    } else if str_eq(raw, "block") {
        Some(ViewMode::Block)
    } else {
        None
    }
}

/// `ME_ICONS` values.
pub fn parse_icon_mode(raw: &str) -> (r: Option<IconMode>)
    ensures
        r == spec_parse_icon_mode(raw@),
{
    if str_eq(raw, "on") {
        Some(IconMode::On)
    } else if str_eq(raw, "off") {
        Some(IconMode::Off)
    } else if str_eq(raw, "auto") {
        Some(IconMode::Auto)
    } else {
        None
    }
}

/// `ME_COLOR` values.
pub fn parse_color_mode(raw: &str) -> (r: Option<ColorMode>)
    ensures
        r == spec_parse_color_mode(raw@),
{
    if str_eq(raw, "on") {
        Some(ColorMode::On)
    } else if str_eq(raw, "off") {
        Some(ColorMode::Off)
    } else if str_eq(raw, "auto") {
        Some(ColorMode::Auto)
    } else {
        None
    }
}

/// `ME_PLAIN_MODE` values.
pub fn parse_plain_mode(raw: &str) -> (r: Option<PlainMode>)
    ensures
        r == spec_parse_plain_mode(raw@),
{
    if str_eq(raw, "user") {
        Some(PlainMode::User)
    } else if str_eq(raw, "user_host") {
        Some(PlainMode::UserHost)
    } else {
        None
    }
}

/// The file written when no config exists yet.
pub fn default_config_yaml() -> (r: &'static str)
    ensures
        r@ == "view: block\ntheme: dark\ncolor: auto\nicons: auto\nfields: []\ncontext:\n  enabled: true\n  project: true\n  container: true\n  ssh: true\n  git: true\nwatch:\n  interval: 1\nplain_mode: user_host\n"@,
{
    "view: block\ntheme: dark\ncolor: auto\nicons: auto\nfields: []\ncontext:\n  enabled: true\n  project: true\n  container: true\n  ssh: true\n  git: true\nwatch:\n  interval: 1\nplain_mode: user_host\n"
}

} // verus!
