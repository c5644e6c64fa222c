use judge_server::filter::{
    host_syscall_numbers, sandbox_filter, target_arch, Arch, FilterError, SyscallFilter, SyscallNumbers,
};
use judge_server::jail::{SeccompAction, SeccompFilter, SCMP_ACT_ALLOW};

#[test]
fn action_codes() {
    assert_eq!(SeccompAction::Allow.to_u32(), 0x7fff0000);
    assert_eq!(SeccompAction::Trap.to_u32(), 0x00030000);
    assert_eq!(SeccompAction::Kill.to_u32(), 0);
    assert_eq!(SeccompAction::Errno(1).to_u32(), 0x00050001);
    assert_eq!(SeccompAction::Errno(0x12345).to_u32(), 0x00052345);
    assert_eq!(SeccompAction::Trace(7).to_u32(), 0x7ff00007);
}

#[test]
fn jail_filter_rules() {
    let mut f = SeccompFilter::new(SeccompAction::Kill);
    assert_eq!(f.init_code(), 0);
    f.add_rule(0, SeccompAction::Allow);
    f.add_rule(60, SeccompAction::Trap);
    assert_eq!(f.rules.len(), 2);
    assert_eq!(f.load_plan(), vec![(SCMP_ACT_ALLOW, 0), (SCMP_ACT_ALLOW, 60)]);
}

#[test]
fn syscall_filter_lists() {
    let mut f = SyscallFilter::new();
    assert!(f.syscalls().is_empty());
    f.add_syscall(161);
    f.add_syscalls(vec![80, 81]);
    f.add_syscall(93);
    assert_eq!(f.syscalls(), &vec![161, 80, 81, 93]);
}

#[test]
fn target_arch_names() {
    assert_eq!(target_arch("x86_64"), Some(Arch::X86_64));
    assert_eq!(target_arch("X86_64"), Some(Arch::X86_64));
    assert_eq!(target_arch("aArch64"), Some(Arch::Aarch64));
    assert_eq!(target_arch("riscv64"), Some(Arch::Riscv64));
    assert_eq!(target_arch("x8664"), None);
    assert_eq!(target_arch(""), None);
}

#[test]
fn compile_program_length() {
    let empty = SyscallFilter::new();
    assert_eq!(empty.compile(Arch::X86_64).map(|p| p.len()), Ok(4));
    let mut f = SyscallFilter::new();
    f.add_syscall(161);
    f.add_syscall(80);
    f.add_syscall(161);
    let p = f.compile(Arch::X86_64).unwrap();
    assert_eq!(p.len(), 5 + 5 * 2);
    // the listed calls trap, the others are allowed
    assert!(p.iter().any(|i| i.k == 0x00030000));
    assert_eq!(p.last().unwrap().k, 0x7fff0000);
}

#[test]
fn compile_refuses_too_many_calls() {
    let mut f = SyscallFilter::new();
    f.add_syscalls((0..818).collect());
    assert!(f.compile(Arch::Aarch64).is_ok());
    f.add_syscall(818);
    assert_eq!(f.compile(Arch::Aarch64), Err(FilterError::FilterTooLarge));
    f.add_syscall(0);
    assert_eq!(f.compile(Arch::Aarch64), Err(FilterError::FilterTooLarge));
}

#[test]
fn syscall_numbers_come_from_libc() {
    let t = host_syscall_numbers();
    assert_eq!((t.chroot, t.chdir, t.fchdir, t.fchown),
        (libc::SYS_chroot, libc::SYS_chdir, libc::SYS_fchdir, libc::SYS_fchown));
    let all = [t.chroot, t.chdir, t.fchdir, t.fchown];
    for i in 0..4 {
        for j in 0..4 {
            assert_eq!(all[i] == all[j], i == j);
        }
    }
}

#[test]
fn sandbox_deny_list() {
    let t = SyscallNumbers { chroot: 161, chdir: 80, fchdir: 81, fchown: 93 };
    let f = sandbox_filter(&t);
    assert_eq!(f.syscalls(), &vec![161, 80, 81, 93]);
    let p = f.compile(Arch::X86_64).unwrap();
    assert_eq!(p.len(), 5 + 5 * 4);
    let g = sandbox_filter(&host_syscall_numbers());
    assert_eq!(g.syscalls(), &vec![libc::SYS_chroot, libc::SYS_chdir, libc::SYS_fchdir, libc::SYS_fchown]);
    assert_eq!(g.compile(Arch::Aarch64).map(|p| p.len()), Ok(25));
}

#[test]
fn program_depends_on_the_set_of_calls() {
    let mut a = SyscallFilter::new();
    a.add_syscalls(vec![80, 161, 80]);
    let mut b = SyscallFilter::new();
    b.add_syscalls(vec![161, 80]);
    assert_eq!(a.compile(Arch::X86_64), b.compile(Arch::X86_64));
}
