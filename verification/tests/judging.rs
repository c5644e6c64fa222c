use judge_server::consumer::final_status;
use judge_server::executor::{Problem, TestCase};
use judge_server::judge::{evaluate, judge_runs, JudgeResult, Status};

fn problem(time_limit: u64, memory_limit: u64) -> Problem {
    Problem {
        answer_id: 17,
        language: "c".to_string(),
        code: "int main(){}".to_string(),
        time_limit,
        memory_limit,
        testcases: vec![TestCase { input: "1 2".to_string(), output: "3".to_string() }],
    }
}

fn ok(n: usize) -> Vec<i32> {
    vec![0; n]
}

fn texts(v: &[&str]) -> Vec<String> {
    v.iter().map(|s| s.to_string()).collect()
}

#[test]
fn status_names() {
    assert_eq!(Status::Accepted.to_string(), "Accepted");
    assert_eq!(Status::Proceeding.to_string(), "Proceeding");
    assert_eq!(Status::WrongAnswer.to_string(), "WrongAnswer");
    assert_eq!(Status::TimeLimitExceeded.to_string(), "TimeLimitExceeded");
    assert_eq!(Status::MemoryLimitExceeded.to_string(), "MemoryLimitExceeded");
    assert_eq!(Status::CompileError.to_string(), "CompileError");
    assert_eq!(Status::RuntimeError.to_string(), "RuntimeError");
    assert_eq!(Status::SystemError.to_string(), "SystemError");
}

#[test]
fn status_names_are_distinct() {
    let all = [
        Status::Accepted, Status::Proceeding, Status::WrongAnswer, Status::TimeLimitExceeded,
        Status::MemoryLimitExceeded, Status::CompileError, Status::RuntimeError, Status::SystemError,
    ];
    for a in all {
        for b in all {
            assert_eq!(a.to_string() == b.to_string(), a == b);
        }
    }
}

#[test]
fn judge_result_from_records() {
    let r = JudgeResult::from_result_files(Status::WrongAnswer, 9, "2048", "+15");
    assert_eq!(r.result, "WrongAnswer");
    assert_eq!(r.memory, 2048);
    assert_eq!(r.time, 15);
    assert_eq!(r.answer_id, 9);
}

#[test]
fn accepted_when_outputs_match_and_within_limits() {
    let p = problem(1, 256);
    let expected = texts(&["3\n", "hello world"]);
    let produced = texts(&["3", "hello world \n"]);
    assert_eq!(evaluate(&p, &expected, &produced, &ok(expected.len()), "256000", "1000"), Status::Accepted);
}

#[test]
fn no_test_cases_is_accepted() {
    let p = problem(1, 1);
    assert_eq!(evaluate(&p, &vec![], &vec![], &vec![], "0", "0"), Status::Accepted);
}

#[test]
fn wrong_answer_on_any_mismatch() {
    let p = problem(1, 256);
    let expected = texts(&["3", "4", "5"]);
    let produced = texts(&["3", "4 ", "6"]);
    assert_eq!(evaluate(&p, &expected, &produced, &ok(expected.len()), "10", "10"), Status::WrongAnswer);
    let produced = texts(&[" 3", "4", "5"]);
    assert_eq!(evaluate(&p, &expected, &produced, &ok(expected.len()), "10", "10"), Status::WrongAnswer);
}

#[test]
fn memory_limit_outweighs_wrong_answer() {
    let p = problem(1, 256);
    let expected = texts(&["3"]);
    let produced = texts(&["4"]);
    assert_eq!(evaluate(&p, &expected, &produced, &ok(expected.len()), "256001", "10"), Status::MemoryLimitExceeded);
}

#[test]
fn time_limit_outweighs_everything() {
    let p = problem(2, 256);
    let expected = texts(&["3"]);
    let produced = texts(&["4"]);
    assert_eq!(evaluate(&p, &expected, &produced, &ok(expected.len()), "999999", "2001"), Status::TimeLimitExceeded);
    assert_eq!(evaluate(&p, &expected, &expected, &ok(expected.len()), "0", "2001"), Status::TimeLimitExceeded);
    assert_eq!(evaluate(&p, &expected, &expected, &ok(expected.len()), "0", "2000"), Status::Accepted);
}

#[test]
fn trailing_white_space_does_not_change_the_verdict() {
    let p = problem(1, 1);
    let expected = texts(&["a b", "c"]);
    let plain = texts(&["a b", "x"]);
    let padded = texts(&["a b", "x \t\n"]);
    assert_eq!(
        evaluate(&p, &expected, &plain, &ok(2), "0", "0"),
        evaluate(&p, &expected, &padded, &ok(2), "0", "0")
    );
}

#[test]
fn failed_run_is_runtime_error() {
    let p = problem(1, 256);
    let expected = texts(&["", "3"]);
    // killed by SIGABRT on the first test case, with matching (empty) output
    assert_eq!(evaluate(&p, &expected, &expected, &vec![6, 0], "10", "10"), Status::RuntimeError);
    // exited with code 1
    assert_eq!(evaluate(&p, &expected, &expected, &vec![0, 1 << 8], "10", "10"), Status::RuntimeError);
    // a failed run outweighs a wrong answer
    let produced = texts(&["x", "4"]);
    assert_eq!(evaluate(&p, &expected, &produced, &vec![9, 0], "10", "10"), Status::RuntimeError);
}

#[test]
fn limits_outweigh_a_failed_run() {
    let p = problem(1, 256);
    let expected = texts(&["3"]);
    assert_eq!(evaluate(&p, &expected, &expected, &vec![24], "10", "1001"), Status::TimeLimitExceeded);
    assert_eq!(evaluate(&p, &expected, &expected, &vec![9], "256001", "10"), Status::MemoryLimitExceeded);
}

#[test]
fn final_status_of_a_submission() {
    assert_eq!(final_status(false, Some(Status::Accepted)), Status::CompileError);
    assert_eq!(final_status(false, None), Status::CompileError);
    assert_eq!(final_status(true, None), Status::SystemError);
    assert_eq!(final_status(true, Some(Status::WrongAnswer)), Status::WrongAnswer);
    assert_eq!(final_status(true, Some(Status::RuntimeError)), Status::RuntimeError);
    assert_eq!(final_status(true, Some(Status::Accepted)), Status::Accepted);
}

#[test]
fn judging_needs_one_status_per_test_case() {
    let p = problem(1, 256);
    let expected = texts(&["3", "4"]);
    assert_eq!(judge_runs(&p, &expected, &expected, &vec![0], "1", "1"), None);
    assert_eq!(judge_runs(&p, &expected, &expected, &vec![0, 0, 0], "1", "1"), None);
    assert_eq!(judge_runs(&p, &expected, &expected, &vec![0, 0], "1", "1"), Some(Status::Accepted));
    assert_eq!(judge_runs(&p, &expected, &expected, &vec![0, 6], "1", "1"), Some(Status::RuntimeError));
    assert_eq!(final_status(true, judge_runs(&p, &expected, &expected, &vec![0], "1", "1")), Status::SystemError);
}
