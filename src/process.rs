use vstd::prelude::*;
use vstd::string::*;

verus! {

/// The code a finished process reports: its exit code where it exited
/// normally, else the number of the signal that ended it, if any.
pub fn exit_code_of(code: Option<i32>, signal: Option<i32>) -> (r: Option<i32>)
    ensures
        r == exit_code_of_spec(code, signal),
{
    match code {
        Some(c) => Some(c),
        None => signal,
    }
}

/// A process ended by a signal, with no exit code, reports that signal.
pub proof fn lemma_signal_reported(signal: i32)
    ensures
        exit_code_of_spec(None, Some(signal)) == Some(signal),
{
}

/// The code reported for an exit code and a terminating signal.
pub open spec fn exit_code_of_spec(code: Option<i32>, signal: Option<i32>) -> Option<i32> {
    if code.is_some() {
        code
    } else {
        signal
    }
}

/// The text written to a process's input for one line: the line and its
/// terminator.
pub fn stdin_frame(line: &str) -> (r: String)
    ensures
        r@ == line@.push('\n'),
{
    let r = String::from_str(line).concat("\n");
    proof {
        reveal_strlit("\n");
        assert(r@ =~= line@.push('\n'));
    }
    r
}

} // verus!
