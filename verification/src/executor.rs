use vstd::prelude::*;

use crate::decimal::{
    decimal, format_i64, format_u64, lemma_decimal_injective, parse_i64, parse_i64_spec,
    signed_decimal,
};

verus! {

/// One test case of a problem: the input given to the program and the
/// output it is expected to produce.
pub struct TestCase {
    pub input: String,
    pub output: String,
}

/// A submission to judge: the code, its language, the limits it runs under
/// and the test cases it is judged on.
pub struct Problem {
    pub answer_id: u64,
    pub language: String,
    pub code: String,
    pub time_limit: u64,
    pub memory_limit: u64,
    pub testcases: Vec<TestCase>,
}

/// Resource limits of a run: CPU time and address space.
pub struct Limits {
    pub time: u64,
    pub memory: u64,
}

impl Limits {
    pub fn new(time: u64, memory: u64) -> (l: Self)
        ensures
            l.time == time,
            l.memory == memory,
    {
        Limits { time, memory }
    }
}

/// Where the input of test case `i` is written.
pub open spec fn input_path_spec(i: nat) -> Seq<char> {
    "test_cases/input/input"@ + decimal(i) + ".txt"@
}

/// Where the expected output of test case `i` is written.
pub open spec fn output_path_spec(i: nat) -> Seq<char> {
    "test_cases/output/output"@ + decimal(i) + ".txt"@
}

/// Where the output that the program produced on test case `i` is written.
pub open spec fn result_path_spec(i: nat) -> Seq<char> {
    "test_cases/result/result"@ + decimal(i) + ".txt"@
}

/// `prefix + decimal(i) + suffix`, built from string literals.
fn numbered_path(prefix: &str, i: usize, suffix: &str) -> (p: String)
    ensures
        p@ == prefix@ + decimal(i as nat) + suffix@,
{
    let number = format_u64(i as u64);
    let mut p = String::from_str(prefix);
    p.append(number.as_str());
    p.append(suffix);
    p
}

/// The path of the input file of test case `i`.
pub fn input_file_path(i: usize) -> (p: String)
    ensures
        p@ == input_path_spec(i as nat),
{
    numbered_path("test_cases/input/input", i, ".txt")
}

/// The path of the expected-output file of test case `i`.
pub fn output_file_path(i: usize) -> (p: String)
    ensures
        p@ == output_path_spec(i as nat),
{
    numbered_path("test_cases/output/output", i, ".txt")
}

/// The path of the file that receives what the program printed on test
/// case `i`.
pub fn result_file_path(i: usize) -> (p: String)
    ensures
        p@ == result_path_spec(i as nat),
{
    numbered_path("test_cases/result/result", i, ".txt")
}

proof fn lemma_numbered_injective(prefix: Seq<char>, suffix: Seq<char>, i: nat, j: nat)
    requires
        prefix + decimal(i) + suffix == prefix + decimal(j) + suffix,
    ensures
        i == j,
{
    let a = prefix + decimal(i) + suffix;
    let b = prefix + decimal(j) + suffix;
    assert(a.len() == b.len());
    assert(a.subrange(prefix.len() as int, a.len() - suffix.len()) =~= decimal(i));
    assert(b.subrange(prefix.len() as int, b.len() - suffix.len()) =~= decimal(j));
    lemma_decimal_injective(i, j);
}

/// Distinct test cases never share a file: each kind of path is injective
/// in the index, and inputs, expected outputs and produced outputs live in
/// distinct directories.
pub proof fn lemma_test_case_paths_distinct(i: nat, j: nat)
    ensures
        input_path_spec(i) == input_path_spec(j) ==> i == j,
        output_path_spec(i) == output_path_spec(j) ==> i == j,
        result_path_spec(i) == result_path_spec(j) ==> i == j,
        input_path_spec(i) != output_path_spec(j),
        input_path_spec(i) != result_path_spec(j),
        output_path_spec(i) != result_path_spec(j),
{
    reveal_strlit("test_cases/input/input");
    reveal_strlit("test_cases/output/output");
    reveal_strlit("test_cases/result/result");
    if input_path_spec(i) == input_path_spec(j) {
        lemma_numbered_injective("test_cases/input/input"@, ".txt"@, i, j);
    }
    if output_path_spec(i) == output_path_spec(j) {
        lemma_numbered_injective("test_cases/output/output"@, ".txt"@, i, j);
    }
    if result_path_spec(i) == result_path_spec(j) {
        lemma_numbered_injective("test_cases/result/result"@, ".txt"@, i, j);
    }
    assert(input_path_spec(i)[11] == 'i');
    assert(output_path_spec(j)[11] == 'o');
    assert(result_path_spec(j)[11] == 'r');
    assert(output_path_spec(i)[11] == 'o');
}

impl Problem {
    /// The files that hold the test cases, in the order they are written:
    /// for each test case `i`, its input file, then its expected-output
    /// file, each with its contents.
    pub fn testcase_files(&self) -> (files: Vec<(String, String)>)
        ensures
            files.len() == 2 * self.testcases.len(),
            forall|i: int|
                0 <= i < self.testcases.len() ==> {
                    &&& (#[trigger] files@[2 * i]).0@ == input_path_spec(i as nat)
                    &&& files@[2 * i].1@ == self.testcases@[i].input@
                    &&& files@[2 * i + 1].0@ == output_path_spec(i as nat)
                    &&& files@[2 * i + 1].1@ == self.testcases@[i].output@
                },
    {
        let mut files: Vec<(String, String)> = Vec::new();
        let n = self.testcases.len();
        for i in 0..n
            invariant
                n == self.testcases.len(),
                files.len() == 2 * i,
                forall|k: int|
                    0 <= k < i ==> {
                        &&& (#[trigger] files@[2 * k]).0@ == input_path_spec(k as nat)
                        &&& files@[2 * k].1@ == self.testcases@[k].input@
                        &&& files@[2 * k + 1].0@ == output_path_spec(k as nat)
                        &&& files@[2 * k + 1].1@ == self.testcases@[k].output@
                    },
        {
            let case = &self.testcases[i];
            files.push((input_file_path(i), case.input.clone()));
            files.push((output_file_path(i), case.output.clone()));
        }
        files
    }
}

/// The position of the last `.` in a file name, if it has one.
pub open spec fn last_dot(name: Seq<char>) -> Option<int>
    decreases name.len(),
{
    if name.len() == 0 {
        None
    } else if name.last() == '.' {
        Some(name.len() - 1)
    } else {
        last_dot(name.drop_last())
    }
}

/// The extension of a file name, as `Path::extension` gives it: what follows
/// the last `.`, unless that `.` opens the name or the name is `..`.
pub open spec fn extension(name: Seq<char>) -> Option<Seq<char>> {
    if name == ".."@ {
        None
    } else {
        match last_dot(name) {
            Some(p) => if p == 0 {
                None
            } else {
                Some(name.skip(p + 1))
            },
            None => None,
        }
    }
}

/// Whether a file name has the extension `txt`.
pub open spec fn is_txt_name(name: Seq<char>) -> bool {
    extension(name) == Some("txt"@)
}

/// How many of the names have the extension `txt`.
pub open spec fn count_txt_names(names: Seq<Seq<char>>) -> nat
    decreases names.len(),
{
    if names.len() == 0 {
        0
    } else {
        count_txt_names(names.drop_last()) + if is_txt_name(names.last()) {
            1nat
        } else {
            0nat
        }
    }
}

proof fn lemma_last_dot_of_suffix(p: Seq<char>, q: Seq<char>)
    requires
        forall|j: int| 0 <= j < q.len() ==> #[trigger] q[j] != '.',
    ensures
        last_dot(p + q) == last_dot(p),
    decreases q.len(),
{
    if q.len() == 0 {
        assert(p + q =~= p);
    } else {
        assert((p + q).drop_last() =~= p + q.drop_last());
        assert((p + q).last() == q.last());
        lemma_last_dot_of_suffix(p, q.drop_last());
    }
}

proof fn lemma_last_dot_found(name: Seq<char>)
    ensures
        last_dot(name) matches Some(p) ==> 0 <= p < name.len() && name[p] == '.' && forall|j: int|
            p < j < name.len() ==> #[trigger] name[j] != '.',
        last_dot(name) is None ==> forall|j: int| 0 <= j < name.len() ==> #[trigger] name[j] != '.',
    decreases name.len(),
{
    if name.len() > 0 && name.last() != '.' {
        let dl = name.drop_last();
        lemma_last_dot_found(dl);
        assert(last_dot(name) == last_dot(dl));
        assert forall|j: int| 0 <= j < name.len() - 1 implies name[j] == #[trigger] dl[j] by {}
        match last_dot(dl) {
            Some(p) => {
                assert(name[p] == dl[p]);
                assert forall|j: int| p < j < name.len() implies #[trigger] name[j] != '.' by {
                    if j < name.len() - 1 {
                        assert(name[j] == dl[j]);
                    }
                }
            },
            None => {
                assert forall|j: int| 0 <= j < name.len() implies #[trigger] name[j] != '.' by {
                    if j < name.len() - 1 {
                        assert(name[j] == dl[j]);
                    }
                }
            },
        }
    }
}

/// A file name has the extension `txt` exactly when it is a nonempty stem
/// followed by `.txt`, whatever its length.
pub proof fn lemma_txt_name_characterised(name: Seq<char>)
    ensures
        is_txt_name(name) <==> (name.len() >= 5 && name.subrange(name.len() - 4, name.len() as int)
            == ".txt"@),
{
    reveal_strlit(".txt");
    reveal_strlit("txt");
    reveal_strlit("..");
    lemma_last_dot_found(name);
    if name.len() >= 5 && name.subrange(name.len() - 4, name.len() as int) == ".txt"@ {
        let stem = name.subrange(0, name.len() - 4);
        let suf = name.subrange(name.len() - 4, name.len() as int);
        let tail = name.subrange(name.len() - 3, name.len() as int);
        assert(".txt"@.len() == 4 && "txt"@.len() == 3);
        assert(".txt"@[0] == '.' && ".txt"@[1] == 't' && ".txt"@[2] == 'x' && ".txt"@[3] == 't');
        assert("txt"@[0] == 't' && "txt"@[1] == 'x' && "txt"@[2] == 't');
        assert(tail[0] == suf[1] && tail[1] == suf[2] && tail[2] == suf[3]);
        assert(tail =~= "txt"@);
        assert(name[name.len() - 4] == suf[0]);
        assert(name =~= stem.push('.') + tail);
        assert forall|j: int| 0 <= j < tail.len() implies #[trigger] tail[j] != '.' by {
            assert(tail[j] == "txt"@[j]);
        }
        lemma_last_dot_of_suffix(stem.push('.'), tail);
        assert(last_dot(stem.push('.')) == Some(name.len() - 4));
        assert(name.skip(name.len() - 3) =~= "txt"@);
        assert(name != ".."@);
    }
    if is_txt_name(name) {
        let p = last_dot(name)->Some_0;
        assert(name.skip(p + 1) == "txt"@);
        assert(name.len() - p - 1 == 3);
        assert(name.subrange(name.len() - 4, name.len() as int) =~= ".txt"@) by {
            assert(name[name.len() - 4] == '.');
            assert(name[name.len() - 3] == name.skip(p + 1)[0]);
            assert(name[name.len() - 2] == name.skip(p + 1)[1]);
            assert(name[name.len() - 1] == name.skip(p + 1)[2]);
        }
    }
}

/// The names of the input files are counted: `input` followed by any
/// number and `.txt` has the extension `txt`.
pub proof fn lemma_input_names_counted(i: nat)
    ensures
        is_txt_name("input"@ + decimal(i) + ".txt"@),
{
    reveal_strlit("input");
    reveal_strlit(".txt");
    let name = "input"@ + decimal(i) + ".txt"@;
    lemma_txt_name_characterised(name);
    assert(name.subrange(name.len() - 4, name.len() as int) =~= ".txt"@);
}

/// Counting goes name by name: no names count nothing, and one more name
/// adds one exactly when it has the extension `txt`, whatever its length.
pub proof fn lemma_count_txt_names_step(names: Seq<Seq<char>>, x: Seq<char>)
    ensures
        count_txt_names(Seq::<Seq<char>>::empty()) == 0,
        count_txt_names(names.push(x)) == count_txt_names(names) + if is_txt_name(x) {
            1nat
        } else {
            0nat
        },
        count_txt_names(names) <= names.len(),
    decreases names.len(),
{
    assert(names.push(x).drop_last() =~= names);
    if names.len() > 0 {
        lemma_count_txt_names_step(names.drop_last(), names.last());
        assert(names.drop_last().push(names.last()) =~= names);
    }
}

/// Whether a file name has the extension `txt`.
#[verifier::rlimit(40)]
pub fn is_txt_file(name: &str) -> (b: bool)
    ensures
        b == is_txt_name(name@),
{
    proof {
        reveal_strlit("..");
        reveal_strlit("txt");
    }
    let chars = crate::text::chars_of(name);
    let n = chars.len();
    if n == 2 && chars[0] == '.' && chars[1] == '.' {
        assert(name@ =~= ".."@);
        return false;
    }
    if n == 2 {
        assert(name@ != ".."@) by {
            if name@ == ".."@ {
                assert(chars@[0] == ".."@[0]);
            }
        }
    } else {
        assert(name@.len() != ".."@.len());
    }
    let mut k = n;
    assert(name@.take(n as int) =~= name@);
    while k > 0 && chars[k - 1] != '.'
        invariant
            k <= n == chars@.len(),
            chars@ == name@,
            last_dot(name@) == last_dot(name@.take(k as int)),
        decreases k,
    {
        assert(name@.take(k as int).drop_last() =~= name@.take(k - 1));
        k = k - 1;
    }
    if k == 0 {
        assert(name@.take(0) =~= Seq::<char>::empty());
        return false;
    }
    assert(last_dot(name@.take(k as int)) == Some(k - 1));
    if k == 1 {
        return false;
    }
    let ext_len = n - k;
    let is_txt = ext_len == 3 && chars[k] == 't' && chars[k + 1] == 'x' && chars[k + 2] == 't';
    if is_txt {
        assert(name@.skip(k as int) =~= "txt"@);
    } else {
        assert(name@.skip(k as int) != "txt"@) by {
            if name@.skip(k as int) == "txt"@ {
                assert("txt"@.len() == 3);
                assert("txt"@[0] == 't' && "txt"@[1] == 'x' && "txt"@[2] == 't');
                assert(chars@[k as int] == name@.skip(k as int)[0]);
                assert(chars@[k + 1] == name@.skip(k as int)[1]);
                assert(chars@[k + 2] == name@.skip(k as int)[2]);
                assert(name@.skip(k as int)[0] == 't');
                assert(name@.skip(k as int)[1] == 'x');
                assert(name@.skip(k as int)[2] == 't');
            }
        }
    }
    is_txt
}

/// How many of the names have the extension `txt`: the number of test
/// cases, counted over the names of the files in the input directory.
pub fn count_txt_files(names: &Vec<String>) -> (count: usize)
    ensures
        count == count_txt_names(names.deep_view()),
{
    let ghost all = names.deep_view();
    let mut count: usize = 0;
    for i in 0..names.len()
        invariant
            all == names.deep_view(),
            count == count_txt_names(all.take(i as int)),
            count <= i,
    {
        assert(all.take(i + 1).drop_last() =~= all.take(i as int));
        assert(all.take(i + 1).last() == names@[i as int]@);
        if is_txt_file(names[i].as_str()) {
            count = count + 1;
        }
    }
    assert(all.take(names.len() as int) =~= all);
    count
}

/// Division of integers rounded toward zero, as `/` computes on `i64`.
pub open spec fn div_toward_zero(a: int, b: int) -> int {
    if a >= 0 {
        a / b
    } else {
        -((-a) / b)
    }
}

/// The CPU time of a run in milliseconds, from the seconds and microseconds
/// that `getrusage` reports.
pub fn cpu_time_millis(sec: i64, usec: i64) -> (ms: i64)
    requires
        i64::MIN <= sec * 1000 <= i64::MAX,
        i64::MIN <= sec * 1000 + div_toward_zero(usec as int, 1000) <= i64::MAX,
    ensures
        ms == sec * 1000 + div_toward_zero(usec as int, 1000),
{
    let part: i64 = if usec >= 0 {
        usec / 1000
    } else {
        let magnitude: u64 = if usec == i64::MIN {
            0x8000_0000_0000_0000
        } else {
            (-usec) as u64
        };
        let q = (magnitude / 1000) as i64;
        -q
    };
    sec * 1000 + part
}

/// The peak memory of a run: the growth of the maximum resident set size.
pub fn memory_growth(start: i64, end: i64) -> (growth: i64)
    requires
        i64::MIN <= end - start <= i64::MAX,
    ensures
        growth == end - start,
{
    end - start
}

/// The new text of a usage record after a run: the record keeps the largest
/// value seen, so it is rewritten with `measured` exactly when the value it
/// holds is smaller.
pub fn updated_record(recorded_text: &str, measured: i64) -> (r: Option<String>)
    requires
        parse_i64_spec(recorded_text@) is Some,
    ensures
        match r {
            Some(t) => parse_i64_spec(recorded_text@)->Some_0 < measured && t@ == signed_decimal(
                measured as int,
            ),
            None => measured <= parse_i64_spec(recorded_text@)->Some_0,
        },
{
    let recorded = match parse_i64(recorded_text) {
        Some(v) => v,
        None => i64::MIN,
    };
    if recorded < measured {
        Some(format_i64(measured))
    } else {
        None
    }
}

/// After a run, the record holds the larger of what it held and what was
/// measured.
pub proof fn lemma_record_keeps_maximum(recorded_text: Seq<char>, measured: i64, updated: Option<Seq<char>>)
    requires
        parse_i64_spec(recorded_text) is Some,
        match updated {
            Some(t) => parse_i64_spec(recorded_text)->Some_0 < measured && t == signed_decimal(
                measured as int,
            ),
            None => measured <= parse_i64_spec(recorded_text)->Some_0,
        },
    ensures
        ({
            let after = match updated {
                Some(t) => t,
                None => recorded_text,
            };
            let old_value = parse_i64_spec(recorded_text)->Some_0;
            parse_i64_spec(after) == Some(if old_value < measured { measured } else { old_value })
        }),
{
    crate::decimal::lemma_parse_format_i64(measured);
}

/// The value a usage record holds after runs that measured `runs`, in
/// order, when it started out holding `start` and each run rewrote it as
/// `updated_record` says.
pub open spec fn record_after(start: int, runs: Seq<i64>) -> int
    decreases runs.len(),
{
    if runs.len() == 0 {
        start
    } else {
        let before = record_after(start, runs.drop_last());
        if before < runs.last() {
            runs.last() as int
        } else {
            before
        }
    }
}

/// Over any number of runs the record holds the maximum of its start value
/// and every value measured.
pub proof fn lemma_record_after_is_maximum(start: int, runs: Seq<i64>)
    ensures
        record_after(start, runs) >= start,
        forall|i: int| 0 <= i < runs.len() ==> record_after(start, runs) >= #[trigger] runs[i],
        record_after(start, runs) == start || exists|i: int|
            0 <= i < runs.len() && record_after(start, runs) == #[trigger] runs[i],
    decreases runs.len(),
{
    if runs.len() > 0 {
        let prefix = runs.drop_last();
        lemma_record_after_is_maximum(start, prefix);
        assert forall|i: int| 0 <= i < runs.len() implies record_after(start, runs) >= #[trigger] runs[i] by {
            if i < runs.len() - 1 {
                assert(runs[i] == prefix[i]);
            }
        }
        if record_after(start, runs) != start {
            if record_after(start, runs) == runs.last() {
                assert(record_after(start, runs) == runs[runs.len() - 1]);
            } else {
                let k = choose|k: int| 0 <= k < prefix.len() && record_after(start, prefix) == #[trigger] prefix[k];
                assert(record_after(start, runs) == runs[k]);
            }
        }
    }
}

/// Whether a wait status is that of a process that exited normally with
/// code 0, rather than with another code or killed by a signal: on Linux a
/// normal exit has no signal in the low 7 bits (`WIFEXITED`) and holds its
/// code in bits 8 to 15 (`WEXITSTATUS`).
pub open spec fn run_succeeded_spec(status: i32) -> bool {
    status & 0x7f == 0 && (status >> 8) & 0xff == 0
}

/// Every wait status made of an exit code `ret` and a signal number `sig`
/// (`ret << 8 | sig`, as the kernel reports how a process ended) is a
/// success exactly when the process exited normally (no signal) with code 0:
/// a process killed by any signal is never a success.
pub proof fn lemma_run_succeeded_characterised(ret: i32, sig: i32)
    requires
        0 <= ret < 256,
        0 <= sig < 128,
    ensures
        run_succeeded_spec((ret << 8) | sig) <==> (ret == 0 && sig == 0),
{
    assert(0 <= ret < 256 && 0 <= sig < 128 ==> ((((ret << 8) | sig) & 0x7f == 0 && ((((ret << 8)
        | sig) >> 8) & 0xff) == 0) <==> (ret == 0 && sig == 0))) by (bit_vector);
}

/// A wait status with a signal in its low 7 bits is never a success.
pub proof fn lemma_signalled_run_fails(status: i32)
    requires
        status & 0x7f != 0,
    ensures
        !run_succeeded_spec(status),
{
}

/// Whether a run, given its wait status, exited normally with code 0.
pub fn run_succeeded(status: i32) -> (ok: bool)
    ensures
        ok == run_succeeded_spec(status),
{
    (status & 0x7f) == 0 && ((status >> 8) & 0xff) == 0
}

/// The exit code with which the process supervising a run reports it: 0
/// when the program exited normally with code 0, 1 when it failed or was
/// killed by a signal.
pub fn child_exit_code(run_status: i32) -> (code: i32)
    ensures
        code == if run_succeeded_spec(run_status) {
            0i32
        } else {
            1i32
        },
{
    if run_succeeded(run_status) {
        0
    } else {
        1
    }
}

/// The supervising process passes a run's outcome on faithfully: the wait
/// status of a process that exits with the code `child_exit_code` gives
/// for a run (`code << 8`) reads as a success exactly when the run was one.
pub proof fn lemma_child_exit_code_reports_run(run_status: i32, code: i32)
    requires
        code == if run_succeeded_spec(run_status) {
            0i32
        } else {
            1i32
        },
    ensures
        run_succeeded_spec(code << 8) == run_succeeded_spec(run_status),
{
    assert(0i32 << 8 == 0i32 && 0i32 & 0x7f == 0i32 && (0i32 >> 8) & 0xff == 0i32) by (bit_vector);
    assert((1i32 << 8) & 0x7f == 0i32 && ((1i32 << 8) >> 8) & 0xff == 1i32) by (bit_vector);
}

/// The soft resource limits of every run of a submission: 5 seconds of CPU
/// time and 1 000 000 000 bytes of address space (the hard limits are left
/// unlimited).
pub fn sandbox_limits() -> (l: Limits)
    ensures
        l.time == 5,
        l.memory == 1_000_000_000,
{
    Limits::new(5, 1_000_000_000)
}

/// Whether a submission's language is C++: `cpp` or `c++`, in any ASCII
/// case.
pub open spec fn is_cpp_language(language: Seq<char>) -> bool {
    crate::filter::eq_ignore_ascii_case(language, "cpp"@) || crate::filter::eq_ignore_ascii_case(
        language,
        "c++"@,
    )
}

/// The command that compiles a submission's `main.c`, program name first.
pub open spec fn compile_command_spec(language: Seq<char>) -> Seq<Seq<char>> {
    if is_cpp_language(language) {
        seq!["g++"@, "-O2"@, "-Wall"@, "-std=c++17"@, "-static"@, "-x"@, "c++"@, "main.c"@]
    } else {
        seq!["gcc"@, "-O2"@, "-Wall"@, "-std=c99"@, "-static"@, "main.c"@]
    }
}

/// Whether a text equals `expected` once ASCII capitals are lowered;
/// `expected` holds no capitals.
fn eq_lowered(text: &Vec<char>, expected: &str) -> (same: bool)
    ensures
        same == crate::filter::eq_ignore_ascii_case(text@, expected@),
{
    let e = crate::text::chars_of(expected);
    if text.len() != e.len() {
        return false;
    }
    let mut i: usize = 0;
    while i < text.len()
        invariant
            text@.len() == e@.len(),
            e@ == expected@,
            i <= text@.len(),
            forall|j: int|
                0 <= j < i ==> crate::filter::ascii_lower(#[trigger] text@[j])
                    == crate::filter::ascii_lower(e@[j]),
        decreases text@.len() - i,
    {
        if lower(text[i]) != lower(e[i]) {
            return false;
        }
        i = i + 1;
    }
    true
}

/// A character with an ASCII capital lowered.
fn lower(c: char) -> (l: char)
    ensures
        l == crate::filter::ascii_lower(c),
{
    let n = c as u32;
    if 65 <= n && n <= 90 {
        char_from_ascii_capital(c)
    } else {
        c
    }
}

/// The lower-case letter of an ASCII capital.
fn char_from_ascii_capital(c: char) -> (l: char)
    requires
        65 <= (c as u32) <= 90,
    ensures
        l == ((((c as u32) + 32) as u32) as char),
{
    let n = (c as u32 - 65) as u8;
    let l = (97u8 + n) as char;
    assert(l == ((((c as u32) + 32) as u32) as char));
    l
}

/// The command that compiles a submission, program name first: C++ 17 with
/// g++ for the languages `cpp` and `c++` (any ASCII case), C99 with gcc for
/// every other language; both optimised, with all warnings, statically
/// linked, from `main.c`.
pub fn compile_command(language: &str) -> (argv: Vec<String>)
    ensures
        argv.deep_view() == compile_command_spec(language@),
{
    let name = crate::text::chars_of(language);
    let cpp = eq_lowered(&name, "cpp") || eq_lowered(&name, "c++");
    let mut argv: Vec<String> = Vec::new();
    if cpp {
        argv.push(String::from_str("g++"));
        argv.push(String::from_str("-O2"));
        argv.push(String::from_str("-Wall"));
        argv.push(String::from_str("-std=c++17"));
        argv.push(String::from_str("-static"));
        argv.push(String::from_str("-x"));
        argv.push(String::from_str("c++"));
        argv.push(String::from_str("main.c"));
    } else {
        argv.push(String::from_str("gcc"));
        argv.push(String::from_str("-O2"));
        argv.push(String::from_str("-Wall"));
        argv.push(String::from_str("-std=c99"));
        argv.push(String::from_str("-static"));
        argv.push(String::from_str("main.c"));
    }
    assert(argv.deep_view() =~= compile_command_spec(language@));
    argv
}

/// What the compile step records: `0` when the compiler succeeded, `1`
/// when it failed.
pub fn compile_result_text(success: bool) -> (t: &'static str)
    ensures
        t@ == (if success {
            "0"@
        } else {
            "1"@
        }),
{
    if success {
        "0"
    } else {
        "1"
    }
}

} // verus!
