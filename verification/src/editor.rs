//! Which editor the edit command opens.
//!
//! The editor named by the environment is used when one is set; otherwise a
//! fixed fallback. Reading the environment is the caller's business.

use vstd::prelude::*;

verus! {

/// The command to run when the environment names no editor.
pub const FALLBACK_EDITOR: &'static str = "vim";

/// The editor command the edit command runs: the environment's choice when
/// present, the fallback otherwise.
pub fn editor_command(env_editor: Option<String>) -> (r: String)
    ensures
        match env_editor {
            Some(e) => r@ == e@,
            None => r@ == FALLBACK_EDITOR@,
        },
{
    match env_editor {
        Some(e) => e,
        None => FALLBACK_EDITOR.to_owned(),
    }
}

} // verus!
