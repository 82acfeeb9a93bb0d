//! The mode the system runs in, as its execution-mode file sets it.
use vstd::prelude::*;

verus! {

/// `Learning` familiarises the system with the background; `Execution`
/// watches for what is new against it.
#[derive(PartialEq, Eq, Structural, Clone, Copy, Debug)]
pub enum RuntimeMode {
    Learning,
    Execution,
}

/// How long Learning lasts after the mode was set: seven days, in seconds.
pub open spec fn learning_period() -> int {
    604800
}

/// The mode that the readable lines of the execution-mode file select, at
/// the time `now`, for a file last set at the time `mode_set_at` (both in
/// seconds since the Unix epoch). The first readable line decides: only
/// the exact text `LEARNING` selects `Learning`, and only until seven days
/// after the file was set; after that, or for any other text, or for a
/// file without a readable line, the mode is `Execution`.
pub open spec fn mode_of_lines(lines: Seq<String>, mode_set_at: u64, now: u64) -> RuntimeMode {
    if lines.len() > 0 && lines[0]@ == "LEARNING"@ && now < mode_set_at + learning_period() {
        RuntimeMode::Learning
    } else {
        RuntimeMode::Execution
    }
}

/// The runtime mode that the readable lines of the execution-mode file
/// select, in file order, at the time `now`, where the file was last set
/// at `mode_set_at` (seconds since the Unix epoch). Learning switches to
/// Execution seven days after it was set; writing the file again sets it
/// anew.
pub fn execution_mode(lines: &Vec<String>, mode_set_at: u64, now: u64) -> (r: RuntimeMode)
    ensures
        r == mode_of_lines(lines@, mode_set_at, now),
{
    let mut retval: RuntimeMode = RuntimeMode::Execution;
    if lines.len() > 0 {
        let learning: String = String::from_str("LEARNING");
        let within_period: bool = now <= mode_set_at || now - mode_set_at < 604800;
        retval = if lines[0] == learning && within_period {
            RuntimeMode::Learning
        } else {
            RuntimeMode::Execution
        };
    }
    retval
}

} // verus!
