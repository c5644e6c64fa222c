use vstd::prelude::*;

use seccompiler::SeccompAction as SA;
use seccompiler::TargetArch as TA;

verus! {

/// A target architecture of a seccomp BPF program.
#[derive(Clone, Copy, Debug, PartialEq, Eq, Structural)]
pub enum Arch {
    X86_64,
    Aarch64,
    Riscv64,
}

/// The name of an architecture, as `std::env::consts::ARCH` gives it.
pub open spec fn arch_name(a: Arch) -> Seq<char> {
    match a {
        Arch::X86_64 => "x86_64"@,
        Arch::Aarch64 => "aarch64"@,
        Arch::Riscv64 => "riscv64"@,
    }
}

/// A character with an ASCII capital lowered.
pub open spec fn ascii_lower(c: char) -> char {
    if 65 <= (c as u32) <= 90 {
        (((c as u32) + 32) as u32) as char
    } else {
        c
    }
}

/// Whether two texts are equal once ASCII capitals are lowered.
pub open spec fn eq_ignore_ascii_case(a: Seq<char>, b: Seq<char>) -> bool {
    &&& a.len() == b.len()
    &&& forall|i: int| 0 <= i < a.len() ==> ascii_lower(#[trigger] a[i]) == ascii_lower(b[i])
}

/// The action a seccomp filter takes on a system call.
#[derive(Clone, Copy, Debug, PartialEq, Eq, Structural)]
pub enum FilterAction {
    /// Let the call through.
    Allow,
    /// Raise `SIGSYS` in the caller.
    Trap,
}

/// One classic-BPF instruction.
#[derive(Clone, Copy, Debug, PartialEq, Eq, Structural)]
pub struct BpfInstruction {
    pub code: u16,
    pub jt: u8,
    pub jf: u8,
    pub k: u32,
}

/// The largest number of instructions, plus one, that seccompiler accepts
/// in a program.
pub const BPF_MAX_LEN: usize = 4096;

/// The program that seccompiler builds for a filter whose rules are the
/// given set of system calls (each matched unconditionally; the rules are
/// kept in a map keyed by the call, so only the set counts), with the given action
/// on the calls that miss the rules and on those that match them.
pub uninterp spec fn seccompiler_program(
    syscalls: Set<i64>,
    mismatch: FilterAction,
    on_match: FilterAction,
    arch: Arch,
) -> Seq<BpfInstruction>;

/// The length of the program that seccompiler builds for a filter whose
/// rules are the given system calls.
pub open spec fn program_len(syscalls: Seq<i64>) -> nat {
    if syscalls.len() == 0 {
        4
    } else {
        5 + 5 * syscalls.to_set().len()
    }
}

/// Why a filter cannot be compiled.
#[derive(Clone, Copy, Debug, PartialEq, Eq, Structural)]
pub enum FilterError {
    /// The program would exceed the largest length a program may have.
    FilterTooLarge,
}

/// Calls `seccompiler::TargetArch::try_from(&str)`. Its source lowers the
/// name with `str::to_lowercase` and compares it with `x86_64`, `aarch64`
/// and `riscv64`; no character outside ASCII lowers to a character of these
/// names, so the contract compares ASCII-case-insensitively.
#[verifier::external_body]
fn seccompiler_target_arch(name: &str) -> (r: Option<Arch>)
    ensures
        forall|a: Arch| r == Some(a) <==> eq_ignore_ascii_case(name@, arch_name(a)),
{
    match seccompiler::TargetArch::try_from(name) {
        Ok(seccompiler::TargetArch::x86_64) => Some(Arch::X86_64),
        Ok(seccompiler::TargetArch::aarch64) => Some(Arch::Aarch64),
        Ok(seccompiler::TargetArch::riscv64) => Some(Arch::Riscv64),
        Err(_) => None,
    }
}

/// Calls `seccompiler::SeccompFilter::new` on the map from each system call
/// to an empty rule chain, then `BpfProgram::try_from` on the filter, and
/// hands out the instructions. The source shows: `new` fails exactly when the
/// two actions are equal; the program is an architecture check of three
/// instructions, then a single return when there are no rules, else a load,
/// five instructions per distinct system call and a final return; it is
/// refused when it reaches `BPF_MAX_LEN` instructions; a system call number
/// outside `0..=u32::MAX` makes it panic. What each instruction holds is not
/// stated: it is named by `seccompiler_program`.
#[verifier::external_body]
fn seccompiler_compile(
    syscalls: &Vec<i64>,
    mismatch: FilterAction,
    on_match: FilterAction,
    arch: Arch,
) -> (r: Option<Vec<BpfInstruction>>)
    requires
        forall|i: int| 0 <= i < syscalls.len() ==> 0 <= #[trigger] syscalls@[i] <= u32::MAX,
    ensures
        r is Some <==> (mismatch != on_match && program_len(syscalls@) < BPF_MAX_LEN),
        r matches Some(p) ==> p@ == seccompiler_program(syscalls@.to_set(), mismatch, on_match, arch)
            && p.len() == program_len(syscalls@),
{
    let to_action = |a: FilterAction| match a {
        FilterAction::Allow => SA::Allow,
        FilterAction::Trap => SA::Trap,
    };
    let target = match arch {
        Arch::X86_64 => TA::x86_64,
        Arch::Aarch64 => TA::aarch64,
        Arch::Riscv64 => TA::riscv64,
    };
    let rules = syscalls.iter().map(|s| (*s, vec![])).collect();
    let filter = seccompiler::SeccompFilter::new(rules, to_action(mismatch), to_action(on_match), target);
    let program: seccompiler::BpfProgram = filter.ok()?.try_into().ok()?;
    Some(program.iter().map(|i| BpfInstruction { code: i.code, jt: i.jt, jf: i.jf, k: i.k }).collect())
}

/// The architecture that a name denotes, as seccompiler reads it.
pub fn target_arch(name: &str) -> (r: Option<Arch>)
    ensures
        forall|a: Arch| r == Some(a) <==> eq_ignore_ascii_case(name@, arch_name(a)),
{
    seccompiler_target_arch(name)
}

/// A deny list of system calls: the calls it lists trap, all others are
/// allowed.
pub struct SyscallFilter {
    syscalls: Vec<i64>,
}

impl View for SyscallFilter {
    type V = Seq<i64>;

    closed spec fn view(&self) -> Seq<i64> {
        self.syscalls@
    }
}

/// Whether the numbers can all be system call numbers of a filter.
pub open spec fn valid_syscalls(s: Seq<i64>) -> bool {
    forall|i: int| 0 <= i < s.len() ==> 0 <= #[trigger] s[i] <= u32::MAX
}

impl SyscallFilter {
    /// An empty deny list.
    pub fn new() -> (f: Self)
        ensures
            f@ == Seq::<i64>::empty(),
    {
        SyscallFilter { syscalls: Vec::new() }
    }

    /// The system calls listed, in the order they were added.
    pub fn syscalls(&self) -> (s: &Vec<i64>)
        ensures
            s@ == self@,
    {
        &self.syscalls
    }

    /// Lists one more system call.
    pub fn add_syscall(&mut self, syscall: i64)
        ensures
            final(self)@ == old(self)@.push(syscall),
    {
        self.syscalls.push(syscall);
    }

    /// Lists several system calls, in order.
    pub fn add_syscalls(&mut self, syscalls: Vec<i64>)
        ensures
            final(self)@ == old(self)@ + syscalls@,
    {
        let mut more = syscalls;
        self.syscalls.append(&mut more);
    }

    /// The BPF program of the filter for an architecture: a listed system
    /// call traps, any other is allowed. It fails only when the program is
    /// too long, that is when more than 818 distinct calls are listed.
    pub fn compile(&self, arch: Arch) -> (r: Result<Vec<BpfInstruction>, FilterError>)
        requires
            valid_syscalls(self@),
        ensures
            r is Ok <==> (self@.len() == 0 || self@.to_set().len() <= 818),
            r matches Ok(p) ==> p@ == seccompiler_program(
                self@.to_set(),
                FilterAction::Allow,
                FilterAction::Trap,
                arch,
            ),
            r matches Err(e) ==> e == FilterError::FilterTooLarge,
    {
        match seccompiler_compile(&self.syscalls, FilterAction::Allow, FilterAction::Trap, arch) {
            Some(p) => Ok(p),
            None => Err(FilterError::FilterTooLarge),
        }
    }
}

/// The numbers of the denied system calls on one target.
pub struct SyscallNumbers {
    pub chroot: i64,
    pub chdir: i64,
    pub fchdir: i64,
    pub fchown: i64,
}

/// Whether four numbers are distinct.
pub open spec fn distinct4(a: i64, b: i64, c: i64, d: i64) -> bool {
    a != b && a != c && a != d && b != c && b != d && c != d
}

/// Reads `libc::SYS_chroot`, `SYS_chdir`, `SYS_fchdir` and `SYS_fchown` for
/// the target the crate is built for. On every Linux target of libc they
/// are distinct and lie within `0..=u32::MAX`; which number each call gets
/// depends on the target and is not stated.
#[verifier::external_body]
fn libc_syscall_numbers() -> (t: SyscallNumbers)
    ensures
        valid_syscalls(seq![t.chroot, t.chdir, t.fchdir, t.fchown]),
        distinct4(t.chroot, t.chdir, t.fchdir, t.fchown),
{
    SyscallNumbers {
        chroot: libc::SYS_chroot,
        chdir: libc::SYS_chdir,
        fchdir: libc::SYS_fchdir,
        fchown: libc::SYS_fchown,
    }
}

/// The numbers of the denied system calls on the target the crate is built
/// for, as libc gives them: four distinct system call numbers.
pub fn host_syscall_numbers() -> (t: SyscallNumbers)
    ensures
        valid_syscalls(seq![t.chroot, t.chdir, t.fchdir, t.fchown]),
        distinct4(t.chroot, t.chdir, t.fchdir, t.fchown),
{
    libc_syscall_numbers()
}

/// The deny list that every run of a submission is put under: changing the
/// root directory, the working directory (by path and by descriptor), and
/// the owner of a file, in that order.
pub fn sandbox_filter(numbers: &SyscallNumbers) -> (f: SyscallFilter)
    ensures
        f@ == seq![numbers.chroot, numbers.chdir, numbers.fchdir, numbers.fchown],
{
    let mut f = SyscallFilter::new();
    f.add_syscall(numbers.chroot);
    f.add_syscall(numbers.chdir);
    f.add_syscall(numbers.fchdir);
    f.add_syscall(numbers.fchown);
    assert(f@ =~= seq![numbers.chroot, numbers.chdir, numbers.fchdir, numbers.fchown]);
    f
}

/// The sandbox's deny list always compiles when its numbers are system call
/// numbers: it lists four calls, far below the largest number a program can
/// hold; when the four are distinct, its program has a check for each.
pub proof fn lemma_sandbox_filter_compiles(numbers: SyscallNumbers)
    requires
        valid_syscalls(seq![numbers.chroot, numbers.chdir, numbers.fchdir, numbers.fchown]),
    ensures
        ({
            let calls = seq![numbers.chroot, numbers.chdir, numbers.fchdir, numbers.fchown];
            &&& calls.len() == 0 || calls.to_set().len() <= 818
            &&& distinct4(numbers.chroot, numbers.chdir, numbers.fchdir, numbers.fchown)
                ==> program_len(calls) == 25
        }),
{
    let calls = seq![numbers.chroot, numbers.chdir, numbers.fchdir, numbers.fchown];
    calls.lemma_cardinality_of_set();
    if distinct4(numbers.chroot, numbers.chdir, numbers.fchdir, numbers.fchown) {
        assert(calls.no_duplicates());
        calls.unique_seq_to_set();
    }
}

} // verus!
