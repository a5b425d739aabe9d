//! Choosing fields, layout and decoration from the arguments and the
//! configuration, and rendering the text layouts.
use crate::cli::{Cli, OutputFormat};
use crate::config::{Config, IconMode, PlainMode, ViewMode};
use crate::model::{default_fields, Field, MeInfo};
use crate::output::block::{render_block, spec_render_block};
use crate::output::compact::{render_compact, spec_render_compact};
use crate::output::config_fmt::{render_config, spec_render_config};
use crate::output::json::{
    json_line_text, json_pretty_text, render_json, render_json_line, spec_json_object,
};
use crate::output::semantics::{display_host, spec_display_host};
use crate::output::RenderOptions;
use crate::text::{eq_ignore_ascii_case, push_str};
use crate::util::color::should_color;
use vstd::prelude::*;

verus! {

/// Output layout.
#[derive(Debug, Clone, Copy, PartialEq, Eq, Structural)]
pub enum AppMode {
    Block,
    Compact,
    Config,
    Json,
}

/// Renders the report in the chosen layout.
pub fn render(info: &MeInfo, fields: &[Field], mode: AppMode, options: &RenderOptions) -> (r: String)
    ensures
        r@ == match mode {
            AppMode::Block => spec_render_block(*info, fields@, *options),
            AppMode::Compact => spec_render_compact(*info, fields@),
            AppMode::Config => spec_render_config(*info, fields@),
            AppMode::Json => json_pretty_text(spec_json_object(*info, fields@)) + "\n"@,
        },
{
    match mode {
        AppMode::Block => render_block(info, fields, options),
        AppMode::Compact => render_compact(info, fields),
        AppMode::Config => render_config(info, fields, options),
        AppMode::Json => render_json(info, fields),
    }
}

/// The selection if any, else the configured fields, else the defaults.
pub fn resolve_fields(selected: Vec<Field>, config: &Config) -> (r: Vec<Field>)
    ensures
        r@ == if selected@.len() > 0 {
            selected@
        } else if config.fields@.len() > 0 {
            config.fields@
        } else {
            default_fields()
        },
{
    if selected.len() > 0 {
        selected
    } else if config.fields.len() > 0 {
        let mut r: Vec<Field> = Vec::new();
        let mut i: usize = 0;
        while i < config.fields.len()
            invariant
                i <= config.fields.len(),
                r@ == config.fields@.take(i as int),
            decreases config.fields.len() - i,
        {
            r.push(config.fields[i]);
            i += 1;
            assert(r@ =~= config.fields@.take(i as int));
        }
        assert(config.fields@.take(config.fields@.len() as int) =~= config.fields@);
        r
    } else {
        Field::defaults()
    }
}

/// Network addresses are collected in every mode.
pub fn should_collect_network(_fast: bool, _explicit_network: bool) -> (r: bool)
    ensures
        r,
{
    true
}

/// `--json` wins, then `--format config`, then compact from the flag or the
/// configured view, else block.
pub fn resolve_mode(cli: &Cli, config: &Config) -> (r: AppMode)
    ensures
        r == if cli.json {
            AppMode::Json
        } else if cli.format == OutputFormat::Config {
            AppMode::Config
        } else if cli.compact || config.view == ViewMode::Compact {
            AppMode::Compact
        } else {
            AppMode::Block
        },
{
    if cli.json {
        AppMode::Json
    } else if cli.format == OutputFormat::Config {
        AppMode::Config
    } else if cli.compact || config.view == ViewMode::Compact {
        AppMode::Compact
    } else {
        AppMode::Block
    }
}

/// Decoration from the flags, the configuration and the terminal: color as
/// `should_color` decides, icons off under `--no-color`.
pub fn resolve_render_options(cli: &Cli, config: &Config, no_color_env: bool, stdout_tty: bool) -> (r:
    RenderOptions)
    ensures
        r.color == crate::util::color::spec_should_color(cli.no_color, config.color, no_color_env, stdout_tty),
        r.icons == if cli.no_color {
            IconMode::Off
        } else {
            config.icons
        },
        r.full == cli.full,
        r.light_theme == eq_ignore_ascii_case(config.theme@, "light"@),
{
    RenderOptions {
        color: should_color(cli.no_color, config.color, no_color_env, stdout_tty),
        icons: if cli.no_color {
            IconMode::Off
        } else {
            config.icons
        },
        full: cli.full,
        light_theme: config.is_light_theme(),
    }
}

/// `--interval`, else the configured interval.
pub fn watch_interval(cli: &Cli, config: &Config) -> (r: u64)
    ensures
        r == match cli.interval {
            Some(i) => i,
            None => config.watch.interval,
        },
{
    match cli.interval {
        Some(i) => i,
        None => config.watch.interval,
    }
}

pub open spec fn spec_plain(info: MeInfo, mode: PlainMode) -> Seq<char> {
    match mode {
        PlainMode::User => info.identity.user@ + "\n"@,
        PlainMode::UserHost => info.identity.user@ + "@"@ + spec_display_host(info.identity.host@)
            + "\n"@,
    }
}

/// `--plain`: the user, or `user@host`, and a newline.
pub fn plain(info: &MeInfo, mode: PlainMode) -> (r: String)
    ensures
        r@ == spec_plain(*info, mode),
{
    let mut r = info.identity.user.clone();
    match mode {
        PlainMode::User => {
            push_str(&mut r, "\n");
        },
        PlainMode::UserHost => {
            push_str(&mut r, "@");
            let h = display_host(info.identity.host.as_str());
            push_str(&mut r, h.as_str());
            push_str(&mut r, "\n");
        },
    }
    r
}

/// Seconds between two frames of `--watch`: the interval, at least one.
pub fn watch_sleep_seconds(interval: u64) -> (r: u64)
    ensures
        r == if interval < 1 {
            1
        } else {
            interval
        },
{
    if interval < 1 {
        1
    } else {
        interval
    }
}

/// One frame of `--watch` for a text layout: the screen is cleared and the
/// cursor sent home before the rendered text.
pub fn watch_frame(rendered: &str) -> (r: String)
    ensures
        r@ == "\x1b[2J\x1b[H"@ + rendered@,
{
    let mut r = crate::text::owned("\x1b[2J\x1b[H");
    push_str(&mut r, rendered);
    r
}

/// What one `--watch` round writes: a JSON line for the JSON layout, else
/// a cleared screen and the rendered text.
pub fn watch_text(info: &MeInfo, fields: &[Field], mode: AppMode, options: &RenderOptions) -> (r:
    String)
    ensures
        r@ == match mode {
            AppMode::Json => json_line_text(spec_json_object(*info, fields@)) + "\n"@,
            AppMode::Block => "\x1b[2J\x1b[H"@ + spec_render_block(*info, fields@, *options),
            AppMode::Compact => "\x1b[2J\x1b[H"@ + spec_render_compact(*info, fields@),
            AppMode::Config => "\x1b[2J\x1b[H"@ + spec_render_config(*info, fields@),
        },
{
    match mode {
        AppMode::Json => render_json_line(info, fields),
        _ => {
            let rendered = render(info, fields, mode, options);
            watch_frame(rendered.as_str())
        },
    }
}

/// Whether `--watch` ends with a newline when interrupted: for every layout
/// but JSON lines.
pub fn watch_ends_with_newline(mode: AppMode) -> (r: bool)
    ensures
        r == (mode != AppMode::Json),
{
    mode != AppMode::Json
}

} // verus!
