use vstd::prelude::*;

use crate::decimal::{parse_u64, parse_u64_spec};
use crate::executor::{run_succeeded, run_succeeded_spec, Problem};
use crate::text::{same_up_to_trailing_white_space, trim_end};

verus! {

/// The state of a submission, as reported back to the platform.
#[derive(Clone, Copy, Debug, PartialEq, Eq, Structural)]
pub enum Status {
    Accepted,
    Proceeding,
    WrongAnswer,
    TimeLimitExceeded,
    MemoryLimitExceeded,
    CompileError,
    RuntimeError,
    SystemError,
}

/// The name under which a status is reported.
pub open spec fn status_name(s: Status) -> Seq<char> {
    match s {
        Status::Accepted => "Accepted"@,
        Status::Proceeding => "Proceeding"@,
        Status::WrongAnswer => "WrongAnswer"@,
        Status::TimeLimitExceeded => "TimeLimitExceeded"@,
        Status::MemoryLimitExceeded => "MemoryLimitExceeded"@,
        Status::CompileError => "CompileError"@,
        Status::RuntimeError => "RuntimeError"@,
        Status::SystemError => "SystemError"@,
    }
}

impl Status {
    /// The name of the status, the variant's own name.
    pub fn to_string(&self) -> (s: String)
        ensures
            s@ == status_name(*self),
    {
        match self {
            Status::Accepted => String::from_str("Accepted"),
            Status::Proceeding => String::from_str("Proceeding"),
            Status::WrongAnswer => String::from_str("WrongAnswer"),
            Status::TimeLimitExceeded => String::from_str("TimeLimitExceeded"),
            Status::MemoryLimitExceeded => String::from_str("MemoryLimitExceeded"),
            Status::CompileError => String::from_str("CompileError"),
            Status::RuntimeError => String::from_str("RuntimeError"),
            Status::SystemError => String::from_str("SystemError"),
        }
    }
}

/// Distinct statuses are reported under distinct names.
pub proof fn lemma_status_names_distinct(a: Status, b: Status)
    ensures
        status_name(a) == status_name(b) <==> a == b,
{
    reveal_strlit("Accepted");
    reveal_strlit("Proceeding");
    reveal_strlit("WrongAnswer");
    reveal_strlit("TimeLimitExceeded");
    reveal_strlit("MemoryLimitExceeded");
    reveal_strlit("CompileError");
    reveal_strlit("RuntimeError");
    reveal_strlit("SystemError");
    if a != b {
        assert(status_name(a).len() != status_name(b).len() || status_name(a)[0] != status_name(
            b,
        )[0]);
    }
}

/// The result of judging one submission, as published to the platform.
pub struct JudgeResult {
    pub result: String,
    pub time: u64,
    pub memory: u64,
    pub answer_id: u64,
}

impl JudgeResult {
    /// The result of a submission from its final status and the texts of the
    /// time and memory records that the runs left.
    pub fn from_result_files(status: Status, answer_id: u64, memory_text: &str, time_text: &str) -> (r: Self)
        requires
            parse_u64_spec(memory_text@) is Some,
            parse_u64_spec(time_text@) is Some,
        ensures
            r.result@ == status_name(status),
            Some(r.memory) == parse_u64_spec(memory_text@),
            Some(r.time) == parse_u64_spec(time_text@),
            r.answer_id == answer_id,
    {
        let memory = match parse_u64(memory_text) {
            Some(m) => m,
            None => 0,
        };
        let time = match parse_u64(time_text) {
            Some(t) => t,
            None => 0,
        };
        JudgeResult { answer_id, time, memory, result: status.to_string() }
    }
}

/// Whether every produced output equals the expected one once the trailing
/// white space of each is removed.
pub open spec fn outputs_accepted(expected: Seq<Seq<char>>, produced: Seq<Seq<char>>) -> bool {
    forall|i: int| 0 <= i < expected.len() ==> trim_end(#[trigger] expected[i]) == trim_end(produced[i])
}

/// Whether some run failed: exited with a nonzero code or was killed by a
/// signal, as its wait status tells.
pub open spec fn some_run_failed(run_statuses: Seq<i32>) -> bool {
    exists|i: int| 0 <= i < run_statuses.len() && !run_succeeded_spec(#[trigger] run_statuses[i])
}

/// The verdict on a submission: exceeding the time limit outweighs
/// exceeding the memory limit (a run that exceeds a limit may well be killed
/// for it), which outweighs a failed run, which outweighs a wrong answer.
/// Limits are given in thousands of the unit of the usage records.
pub open spec fn verdict(
    expected: Seq<Seq<char>>,
    produced: Seq<Seq<char>>,
    run_statuses: Seq<i32>,
    memory_usage: nat,
    time_usage: nat,
    memory_limit: nat,
    time_limit: nat,
) -> Status {
    if time_usage > time_limit * 1000 {
        Status::TimeLimitExceeded
    } else if memory_usage > memory_limit * 1000 {
        Status::MemoryLimitExceeded
    } else if some_run_failed(run_statuses) {
        Status::RuntimeError
    } else if outputs_accepted(expected, produced) {
        Status::Accepted
    } else {
        Status::WrongAnswer
    }
}

/// Judges a submission: `expected[i]` is the expected output of test case
/// `i`, `produced[i]` what the program wrote, `run_statuses[i]` the wait
/// status that reports how its run ended, and the two texts are the records
/// of the peak memory and the CPU time of the runs.
pub fn evaluate(
    problem: &Problem,
    expected: &Vec<String>,
    produced: &Vec<String>,
    run_statuses: &Vec<i32>,
    memory_text: &str,
    time_text: &str,
) -> (status: Status)
    requires
        expected.len() == produced.len(),
        run_statuses.len() == expected.len(),
        parse_u64_spec(memory_text@) is Some,
        parse_u64_spec(time_text@) is Some,
        problem.memory_limit * 1000 <= u64::MAX,
        problem.time_limit * 1000 <= u64::MAX,
    ensures
        status == verdict(
            expected.deep_view(),
            produced.deep_view(),
            run_statuses@,
            parse_u64_spec(memory_text@)->Some_0 as nat,
            parse_u64_spec(time_text@)->Some_0 as nat,
            problem.memory_limit as nat,
            problem.time_limit as nat,
        ),
{
    let ghost exp = expected.deep_view();
    let ghost pro = produced.deep_view();
    let n = expected.len();
    let mut all_same = true;
    let mut i: usize = 0;
    while i < n && all_same
        invariant
            n == expected.len() == produced.len(),
            exp == expected.deep_view(),
            pro == produced.deep_view(),
            exp.len() == n,
            i <= n,
            all_same ==> forall|j: int|
                0 <= j < i ==> trim_end(#[trigger] exp[j]) == trim_end(pro[j]),
            !all_same ==> !outputs_accepted(exp, pro),
        decreases n - i,
    {
        let same = same_up_to_trailing_white_space(produced[i].as_str(), expected[i].as_str());
        assert(exp[i as int] == expected@[i as int]@);
        assert(pro[i as int] == produced@[i as int]@);
        if same {
            i = i + 1;
        } else {
            assert(trim_end(exp[i as int]) != trim_end(pro[i as int]));
            all_same = false;
            i = n;
        }
    }
    let mut status = if all_same {
        Status::Accepted
    } else {
        Status::WrongAnswer
    };
    let mut k: usize = 0;
    let mut failed = false;
    while k < run_statuses.len() && !failed
        invariant
            k <= run_statuses.len(),
            !failed ==> forall|j: int| 0 <= j < k ==> run_succeeded_spec(#[trigger] run_statuses@[j]),
            failed ==> some_run_failed(run_statuses@),
        decreases run_statuses.len() - k,
    {
        if run_succeeded(run_statuses[k]) {
            k = k + 1;
        } else {
            failed = true;
            k = run_statuses.len();
        }
    }
    if failed {
        status = Status::RuntimeError;
    }
    let memory_usage = match parse_u64(memory_text) {
        Some(m) => m,
        None => 0,
    };
    let time_usage = match parse_u64(time_text) {
        Some(t) => t,
        None => 0,
    };
    if memory_usage > problem.memory_limit * 1000 {
        status = Status::MemoryLimitExceeded;
    }
    if time_usage > problem.time_limit * 1000 {
        status = Status::TimeLimitExceeded;
    }
    status
}

/// Judges a submission once its runs are all accounted for: `None` (judging
/// failed) when the number of run statuses differs from the number of test
/// cases, else the verdict of `evaluate`.
pub fn judge_runs(
    problem: &Problem,
    expected: &Vec<String>,
    produced: &Vec<String>,
    run_statuses: &Vec<i32>,
    memory_text: &str,
    time_text: &str,
) -> (judged: Option<Status>)
    requires
        expected.len() == produced.len(),
        parse_u64_spec(memory_text@) is Some,
        parse_u64_spec(time_text@) is Some,
        problem.memory_limit * 1000 <= u64::MAX,
        problem.time_limit * 1000 <= u64::MAX,
    ensures
        judged == if run_statuses.len() == expected.len() {
            Some(
                verdict(
                    expected.deep_view(),
                    produced.deep_view(),
                    run_statuses@,
                    parse_u64_spec(memory_text@)->Some_0 as nat,
                    parse_u64_spec(time_text@)->Some_0 as nat,
                    problem.memory_limit as nat,
                    problem.time_limit as nat,
                ),
            )
        } else {
            None
        },
{
    if run_statuses.len() != expected.len() {
        return None;
    }
    Some(evaluate(problem, expected, produced, run_statuses, memory_text, time_text))
}

/// Exceeding the time limit decides the verdict, whatever the outputs and
/// the memory used.
pub proof fn lemma_time_limit_dominates(
    expected: Seq<Seq<char>>,
    produced: Seq<Seq<char>>,
    run_statuses: Seq<i32>,
    memory_usage: nat,
    time_usage: nat,
    memory_limit: nat,
    time_limit: nat,
)
    requires
        time_usage > time_limit * 1000,
    ensures
        verdict(expected, produced, run_statuses, memory_usage, time_usage, memory_limit, time_limit)
            == Status::TimeLimitExceeded,
{
}

/// Within the time limit, exceeding the memory limit decides the verdict,
/// whatever the outputs and however the runs ended.
pub proof fn lemma_memory_limit_over_outputs(
    expected: Seq<Seq<char>>,
    produced: Seq<Seq<char>>,
    run_statuses: Seq<i32>,
    memory_usage: nat,
    time_usage: nat,
    memory_limit: nat,
    time_limit: nat,
)
    requires
        time_usage <= time_limit * 1000,
        memory_usage > memory_limit * 1000,
    ensures
        verdict(expected, produced, run_statuses, memory_usage, time_usage, memory_limit, time_limit)
            == Status::MemoryLimitExceeded,
{
}

/// A submission is accepted exactly when it stays within both limits, every
/// run exits normally with code 0 and every output matches.
pub proof fn lemma_accepted_iff(
    expected: Seq<Seq<char>>,
    produced: Seq<Seq<char>>,
    run_statuses: Seq<i32>,
    memory_usage: nat,
    time_usage: nat,
    memory_limit: nat,
    time_limit: nat,
)
    ensures
        verdict(expected, produced, run_statuses, memory_usage, time_usage, memory_limit, time_limit)
            == Status::Accepted <==> (time_usage <= time_limit * 1000 && memory_usage
            <= memory_limit * 1000 && !some_run_failed(run_statuses) && outputs_accepted(
            expected,
            produced,
        )),
{
}

/// The verdict is one of the five outcomes of judging, never `Proceeding`,
/// `CompileError` or `SystemError`.
pub proof fn lemma_verdict_outcomes(
    expected: Seq<Seq<char>>,
    produced: Seq<Seq<char>>,
    run_statuses: Seq<i32>,
    memory_usage: nat,
    time_usage: nat,
    memory_limit: nat,
    time_limit: nat,
)
    ensures
        ({
            let v = verdict(expected, produced, run_statuses, memory_usage, time_usage, memory_limit, time_limit);
            v == Status::Accepted || v == Status::WrongAnswer || v == Status::TimeLimitExceeded
                || v == Status::MemoryLimitExceeded || v == Status::RuntimeError
        }),
{
}

/// Within both limits, a run that exits with a nonzero code or is killed by
/// a signal makes the verdict a runtime error, whatever the outputs.
pub proof fn lemma_failed_run_is_runtime_error(
    expected: Seq<Seq<char>>,
    produced: Seq<Seq<char>>,
    run_statuses: Seq<i32>,
    k: int,
    memory_usage: nat,
    time_usage: nat,
    memory_limit: nat,
    time_limit: nat,
)
    requires
        time_usage <= time_limit * 1000,
        memory_usage <= memory_limit * 1000,
        0 <= k < run_statuses.len(),
        !run_succeeded_spec(run_statuses[k]),
    ensures
        verdict(expected, produced, run_statuses, memory_usage, time_usage, memory_limit, time_limit)
            == Status::RuntimeError,
{
    assert(some_run_failed(run_statuses));
}

/// An accepted submission stayed within both limits, every run exited
/// normally with code 0, and each produced output equals its expected
/// output once trailing white space is removed from both.
pub proof fn lemma_accepted_means_equal_outputs(
    expected: Seq<Seq<char>>,
    produced: Seq<Seq<char>>,
    run_statuses: Seq<i32>,
    memory_usage: nat,
    time_usage: nat,
    memory_limit: nat,
    time_limit: nat,
)
    requires
        verdict(expected, produced, run_statuses, memory_usage, time_usage, memory_limit, time_limit)
            == Status::Accepted,
    ensures
        time_usage <= time_limit * 1000,
        memory_usage <= memory_limit * 1000,
        forall|k: int| 0 <= k < run_statuses.len() ==> run_succeeded_spec(#[trigger] run_statuses[k]),
        forall|i: int|
            0 <= i < expected.len() ==> trim_end(#[trigger] produced[i]) == trim_end(expected[i]),
{
    assert forall|k: int| 0 <= k < run_statuses.len() implies run_succeeded_spec(
        #[trigger] run_statuses[k],
    ) by {
        if !run_succeeded_spec(run_statuses[k]) {
            assert(some_run_failed(run_statuses));
        }
    }
    assert forall|i: int| 0 <= i < expected.len() implies trim_end(#[trigger] produced[i]) == trim_end(
        expected[i],
    ) by {
        assert(trim_end(expected[i]) == trim_end(produced[i]));
    }
}

/// Within both limits and with every run exiting normally with code 0, the
/// outputs decide: Accepted when each produced output equals its expected
/// output up to trailing white space, WrongAnswer as soon as one differs.
pub proof fn lemma_clean_runs_verdict(
    expected: Seq<Seq<char>>,
    produced: Seq<Seq<char>>,
    run_statuses: Seq<i32>,
    memory_usage: nat,
    time_usage: nat,
    memory_limit: nat,
    time_limit: nat,
)
    requires
        time_usage <= time_limit * 1000,
        memory_usage <= memory_limit * 1000,
        forall|k: int| 0 <= k < run_statuses.len() ==> run_succeeded_spec(#[trigger] run_statuses[k]),
    ensures
        (forall|i: int|
            0 <= i < expected.len() ==> trim_end(#[trigger] produced[i]) == trim_end(expected[i]))
            ==> verdict(expected, produced, run_statuses, memory_usage, time_usage, memory_limit, time_limit)
            == Status::Accepted,
        (exists|i: int|
            0 <= i < expected.len() && trim_end(#[trigger] produced[i]) != trim_end(expected[i]))
            ==> verdict(expected, produced, run_statuses, memory_usage, time_usage, memory_limit, time_limit)
            == Status::WrongAnswer,
{
    assert(!some_run_failed(run_statuses));
    if exists|i: int| 0 <= i < expected.len() && trim_end(#[trigger] produced[i]) != trim_end(expected[i]) {
        let i = choose|i: int| 0 <= i < expected.len() && trim_end(#[trigger] produced[i]) != trim_end(expected[i]);
        assert(trim_end(expected[i]) != trim_end(produced[i]));
        assert(!outputs_accepted(expected, produced));
    }
}

/// Trailing white space that a program adds to one of its outputs does not
/// change the verdict.
pub proof fn lemma_trailing_white_space_ignored(
    expected: Seq<Seq<char>>,
    produced: Seq<Seq<char>>,
    run_statuses: Seq<i32>,
    i: int,
    ws: Seq<char>,
    memory_usage: nat,
    time_usage: nat,
    memory_limit: nat,
    time_limit: nat,
)
    requires
        0 <= i < produced.len(),
        expected.len() == produced.len(),
        forall|k: int| 0 <= k < ws.len() ==> crate::text::is_white_space(#[trigger] ws[k]),
    ensures
        verdict(
            expected,
            produced.update(i, produced[i] + ws),
            run_statuses,
            memory_usage,
            time_usage,
            memory_limit,
            time_limit,
        ) == verdict(expected, produced, run_statuses, memory_usage, time_usage, memory_limit, time_limit),
{
    crate::text::lemma_trim_end_ignores_white_space_suffix(produced[i], ws);
    let p2 = produced.update(i, produced[i] + ws);
    assert forall|j: int| 0 <= j < produced.len() implies trim_end(#[trigger] p2[j]) == trim_end(
        produced[j],
    ) by {}
    assert(outputs_accepted(expected, p2) == outputs_accepted(expected, produced));
}


/// What is published for a submission is never `Proceeding` and never an
/// empty name: the code did not compile, or judging failed, or the status
/// is the verdict on the runs.
pub proof fn lemma_published_status(
    compiled: bool,
    judging_succeeded: bool,
    expected: Seq<Seq<char>>,
    produced: Seq<Seq<char>>,
    run_statuses: Seq<i32>,
    memory_usage: nat,
    time_usage: nat,
    memory_limit: nat,
    time_limit: nat,
)
    ensures
        ({
            let judged = if judging_succeeded {
                Some(
                    verdict(
                        expected,
                        produced,
                        run_statuses,
                        memory_usage,
                        time_usage,
                        memory_limit,
                        time_limit,
                    ),
                )
            } else {
                None
            };
            let published = crate::consumer::final_status_spec(compiled, judged);
            &&& published != Status::Proceeding
            &&& status_name(published).len() > 0
        }),
{
    reveal_strlit("Accepted");
    reveal_strlit("WrongAnswer");
    reveal_strlit("TimeLimitExceeded");
    reveal_strlit("MemoryLimitExceeded");
    reveal_strlit("CompileError");
    reveal_strlit("RuntimeError");
    reveal_strlit("SystemError");
}

} // verus!
