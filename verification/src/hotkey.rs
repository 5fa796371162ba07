//! The global hotkey (Alt+Space by default, user-configurable).

use vstd::prelude::*;

use crate::text::{is_blank, owned, trim_seq};

verus! {

pub const DEFAULT_HOTKEY: &'static str = "Alt+Space";

#[derive(Debug)]
pub struct HotkeyConfig {
    pub shortcut: String,
}

/// The shortcut registered at start-up: the configured one, or the default
/// when the setting is blank.
pub fn initial_hotkey(configured: &str) -> (s: String)
    ensures
        trim_seq(configured@).len() == 0 ==> s@ == DEFAULT_HOTKEY@,
        trim_seq(configured@).len() != 0 ==> s@ == configured@,
{
    if is_blank(configured) {
        owned(DEFAULT_HOTKEY)
    } else {
        owned(configured)
    }
}

} // verus!
