use judge_server::executor::{
    child_exit_code, compile_command, compile_result_text, run_succeeded, sandbox_limits, count_txt_files, cpu_time_millis, input_file_path, is_txt_file,
    memory_growth, output_file_path, result_file_path, updated_record, Limits, Problem, TestCase,
};
use judge_server::decimal::parse_i64;

#[test]
fn limits_new() {
    let l = Limits::new(5, 1_000_000_000);
    assert_eq!(l.time, 5);
    assert_eq!(l.memory, 1_000_000_000);
}

#[test]
fn test_case_paths() {
    assert_eq!(input_file_path(0), "test_cases/input/input0.txt");
    assert_eq!(output_file_path(12), "test_cases/output/output12.txt");
    assert_eq!(result_file_path(305), "test_cases/result/result305.txt");
}

#[test]
fn test_case_paths_are_distinct() {
    let mut all = Vec::new();
    for i in 0..50 {
        all.push(input_file_path(i));
        all.push(output_file_path(i));
        all.push(result_file_path(i));
    }
    let mut sorted = all.clone();
    sorted.sort();
    sorted.dedup();
    assert_eq!(sorted.len(), all.len());
}

#[test]
fn testcase_files_in_order() {
    let p = Problem {
        answer_id: 1,
        language: "c".to_string(),
        code: String::new(),
        time_limit: 1,
        memory_limit: 1,
        testcases: vec![
            TestCase { input: "1".to_string(), output: "one".to_string() },
            TestCase { input: "2".to_string(), output: "two".to_string() },
        ],
    };
    let files = p.testcase_files();
    assert_eq!(
        files,
        vec![
            ("test_cases/input/input0.txt".to_string(), "1".to_string()),
            ("test_cases/output/output0.txt".to_string(), "one".to_string()),
            ("test_cases/input/input1.txt".to_string(), "2".to_string()),
            ("test_cases/output/output1.txt".to_string(), "two".to_string()),
        ]
    );
}

#[test]
fn txt_extension_as_path_reads_it() {
    for name in ["input0.txt", "a.txt", "..txt", "a.b.txt", ".txt", "txt", "a.txt.bak", "a.TXT",
        "a.txtx", "..", "a.", ".", "x.tx"]
    {
        let std_answer = std::path::Path::new(name).extension().map_or(false, |e| e == "txt");
        assert_eq!(is_txt_file(name), std_answer, "{:?}", name);
    }
}

#[test]
fn counting_input_files() {
    let names: Vec<String> = ["input0.txt", "input1.txt", ".txt", "notes.md", "input2.txt"]
        .iter()
        .map(|s| s.to_string())
        .collect();
    assert_eq!(count_txt_files(&names), 3);
    assert_eq!(count_txt_files(&Vec::new()), 0);
}

#[test]
fn cpu_time_in_millis() {
    assert_eq!(cpu_time_millis(0, 0), 0);
    assert_eq!(cpu_time_millis(2, 345_678), 2345);
    assert_eq!(cpu_time_millis(1, 999), 1000);
    assert_eq!(cpu_time_millis(1, -1500), 1000 + (-1500i64 / 1000));
}

#[test]
fn memory_growth_is_difference() {
    assert_eq!(memory_growth(1000, 4096), 3096);
    assert_eq!(memory_growth(4096, 1000), -3096);
}

#[test]
fn record_keeps_the_maximum() {
    assert_eq!(updated_record("0", 15), Some("15".to_string()));
    assert_eq!(updated_record("20", 15), None);
    assert_eq!(updated_record("15", 15), None);
    assert_eq!(updated_record("-3", -1), Some("-1".to_string()));
    let mut record = "0".to_string();
    for measured in [5i64, 3, 12, 12, 7] {
        if let Some(t) = updated_record(&record, measured) {
            record = t;
        }
    }
    assert_eq!(parse_i64(&record), Some(12));
}

#[test]
fn compile_result_marker() {
    assert_eq!(compile_result_text(true), "0");
    assert_eq!(compile_result_text(false), "1");
}

#[test]
fn wait_statuses() {
    assert!(run_succeeded(0));
    assert!(!run_succeeded(1 << 8));
    assert!(!run_succeeded(6));
    assert!(!run_succeeded(9 | 0x80));
    for status in [0, 1 << 8, 6, 9, 0x7f, 255 << 8, 11 | 0x80] {
        assert_eq!(run_succeeded(status), libc::WIFEXITED(status) && libc::WEXITSTATUS(status) == 0);
    }
}

#[test]
fn supervisor_reports_the_run() {
    for status in [0, 1 << 8, 6, 9, 42 << 8] {
        let code = child_exit_code(status);
        assert_eq!(code, if run_succeeded(status) { 0 } else { 1 });
        assert_eq!(run_succeeded(code << 8), run_succeeded(status));
    }
}

#[test]
fn sandbox_resource_limits() {
    let l = sandbox_limits();
    assert_eq!(l.time, 5);
    assert_eq!(l.memory, 1_000_000_000);
}

#[test]
fn compile_command_by_language() {
    let c = vec!["gcc", "-O2", "-Wall", "-std=c99", "-static", "main.c"];
    let cpp = vec!["g++", "-O2", "-Wall", "-std=c++17", "-static", "-x", "c++", "main.c"];
    assert_eq!(compile_command("c"), c);
    assert_eq!(compile_command("C"), c);
    assert_eq!(compile_command("python"), c);
    assert_eq!(compile_command(""), c);
    assert_eq!(compile_command("cpp"), cpp);
    assert_eq!(compile_command("C++"), cpp);
    assert_eq!(compile_command("CPP"), cpp);
    assert_eq!(compile_command("cpp17"), c);
}
