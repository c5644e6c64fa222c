use vstd::prelude::*;

use crate::judge::Status;

verus! {

/// The status published for a handled submission: code that does not
/// compile is a compilation error; otherwise the judge's verdict, or a
/// system error when judging itself failed.
pub open spec fn final_status_spec(compiled: bool, judged: Option<Status>) -> Status {
    match (compiled, judged) {
        (false, _) => Status::CompileError,
        (true, Some(verdict)) => verdict,
        (true, None) => Status::SystemError,
    }
}

/// The status to publish for a submission, from whether its code compiled
/// and what judging gave (`None` when judging failed).
pub fn final_status(compiled: bool, judged: Option<Status>) -> (s: Status)
    ensures
        s == final_status_spec(compiled, judged),
{
    if !compiled {
        return Status::CompileError;
    }
    match judged {
        Some(verdict) => verdict,
        None => Status::SystemError,
    }
}

/// What is published for a handled submission: whatever verdict judging
/// gave, unchanged, when the code compiled; a compilation error when it did
/// not, whatever judging gave; a system error when judging failed.
pub proof fn lemma_final_status_cases(compiled: bool, judged: Option<Status>, v: Status)
    ensures
        final_status_spec(true, Some(v)) == v,
        final_status_spec(false, judged) == Status::CompileError,
        final_status_spec(true, None) == Status::SystemError,
        final_status_spec(compiled, judged) == Status::SystemError ==> compiled && (judged is None
            || judged == Some(Status::SystemError)),
{
}

} // verus!
