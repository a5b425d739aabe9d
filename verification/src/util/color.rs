//! Whether output is colored.
use crate::config::{with_env, ColorMode, Config, EnvValues};
use vstd::prelude::*;

verus! {

pub open spec fn spec_should_color(no_color: bool, mode: ColorMode, no_color_env: bool, stdout_tty: bool) -> bool {
    !no_color && !no_color_env && match mode {
        ColorMode::On => true,
        ColorMode::Off => false,
        ColorMode::Auto => stdout_tty,
    }
}

/// Color is used unless `--no-color` or `NO_COLOR` says otherwise; then
/// `color: on` forces it, `off` refuses it, and `auto` follows whether
/// standard output is a terminal.
pub fn should_color(no_color: bool, mode: ColorMode, no_color_env: bool, stdout_tty: bool) -> (r: bool)
    ensures
        r == spec_should_color(no_color, mode, no_color_env, stdout_tty),
{
    if no_color || no_color_env {
        return false;
    }
    match mode {
        ColorMode::On => true,
        ColorMode::Off => false,
        ColorMode::Auto => stdout_tty,
    }
}

/// `ME_COLOR` decides the color mode over the configuration file: `on`
/// forces color and `off` refuses it, whatever the file says and whether or
/// not standard output is a terminal (short of `--no-color` or `NO_COLOR`);
/// `auto` follows the terminal; any other value leaves the file's mode.
pub proof fn lemma_env_color_decides(c: Config, env: EnvValues, raw: String, stdout_tty: bool)
    requires
        env.color == Some(raw),
    ensures
        raw@ == "on"@ ==> with_env(c, env).color == ColorMode::On && spec_should_color(
            false,
            with_env(c, env).color,
            false,
            stdout_tty,
        ),
        raw@ == "off"@ ==> with_env(c, env).color == ColorMode::Off && !spec_should_color(
            false,
            with_env(c, env).color,
            false,
            stdout_tty,
        ),
        raw@ == "auto"@ ==> with_env(c, env).color == ColorMode::Auto && spec_should_color(
            false,
            with_env(c, env).color,
            false,
            stdout_tty,
        ) == stdout_tty,
        !(raw@ == "on"@ || raw@ == "off"@ || raw@ == "auto"@) ==> with_env(c, env).color == c.color,
{
    reveal_strlit("on");
    reveal_strlit("off");
    reveal_strlit("auto");
    assert("on"@.len() == 2 && "off"@.len() == 3 && "auto"@.len() == 4);
    assert("off"@ != "on"@);
    assert("auto"@ != "on"@ && "auto"@ != "off"@);
}

} // verus!

