//! Icons: every mode currently renders as plain text.
use crate::config::IconMode;
use vstd::prelude::*;

verus! {

/// The prefix shown before the shell name; empty in every mode.
pub fn shell_prefix(mode: IconMode) -> (r: &'static str)
    ensures
        r@ == ""@,
{
    match mode {
        IconMode::Auto | IconMode::On | IconMode::Off => "",
    }
}

/// The icon of a field; empty for every field.
pub fn field_icon(field: &str) -> (r: &'static str)
    ensures
        r@ == ""@,
{
    let _ = field;
    ""
}

} // verus!
