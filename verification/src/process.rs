//! How a process of the browser carries on once the engine has looked at its command line.
use vstd::prelude::*;

use crate::text::{push_signed_decimal, signed_decimal};

verus! {

/// What the process does next.
#[derive(Debug, PartialEq, Eq)]
pub enum ProcessStart {
    /// A helper process whose work the engine has finished; the process exits.
    HelperFinished,
    /// The browser process: initialize the engine and run the window.
    RunBrowser,
}

/// The outcome for a process whose command line does (`helper`) or does not carry a process
/// type, given the engine's `execute_process` code: helpers succeed on a non-negative code;
/// the browser process goes on only on `-1`, and any other code is an error that names it.
pub open spec fn process_start(helper: bool, code: i32) -> Result<ProcessStart, Seq<char>> {
    if helper {
        if code >= 0 {
            Ok(ProcessStart::HelperFinished)
        } else {
            Err("CEF subprocess failed"@)
        }
    } else if code != -1 {
        Err("CEF browser process returned unexpected code "@ + signed_decimal(code as int))
    } else {
        Ok(ProcessStart::RunBrowser)
    }
}

/// Decides how the process carries on (see `process_start`).
pub fn classify_process(helper: bool, code: i32) -> (r: Result<ProcessStart, String>)
    ensures
        match r {
            Ok(s) => process_start(helper, code) == Ok::<ProcessStart, Seq<char>>(s),
            Err(e) => process_start(helper, code) == Err::<ProcessStart, Seq<char>>(e@),
        },
{
    if helper {
        if code >= 0 {
            Ok(ProcessStart::HelperFinished)
        } else {
            Err(String::from_str("CEF subprocess failed"))
        }
    } else if code != -1 {
        let mut message = String::from_str("CEF browser process returned unexpected code ");
        push_signed_decimal(&mut message, code);
        Err(message)
    } else {
        Ok(ProcessStart::RunBrowser)
    }
}

} // verus!
