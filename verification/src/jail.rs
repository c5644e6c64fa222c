use vstd::prelude::*;

verus! {

/// What the kernel does with a system call that a libseccomp rule matches.
#[derive(Clone, Copy, Debug, PartialEq, Eq, Structural)]
pub enum SeccompAction {
    Allow,
    Trap,
    Errno(u32),
    Trace(u32),
    Kill,
}

/// libseccomp's `SCMP_ACT_ALLOW`.
pub const SCMP_ACT_ALLOW: u32 = 0x7fff0000;

/// libseccomp's `SCMP_ACT_TRAP`.
pub const SCMP_ACT_TRAP: u32 = 0x00030000;

/// libseccomp's `SCMP_ACT_KILL`.
pub const SCMP_ACT_KILL: u32 = 0x00000000;

/// The libseccomp code of an action: `SCMP_ACT_ERRNO(x)` and
/// `SCMP_ACT_TRACE(x)` carry the low 16 bits of their argument.
pub open spec fn action_code(a: SeccompAction) -> u32 {
    match a {
        SeccompAction::Allow => SCMP_ACT_ALLOW,
        SeccompAction::Trap => SCMP_ACT_TRAP,
        SeccompAction::Errno(e) => 0x00050000 | (e & 0x0000ffff),
        SeccompAction::Trace(s) => 0x7ff00000 | (s & 0x0000ffff),
        SeccompAction::Kill => SCMP_ACT_KILL,
    }
}

impl SeccompAction {
    /// The libseccomp code of the action.
    pub fn to_u32(&self) -> (code: u32)
        ensures
            code == action_code(*self),
    {
        match self {
            SeccompAction::Allow => SCMP_ACT_ALLOW,
            SeccompAction::Trap => SCMP_ACT_TRAP,
            SeccompAction::Errno(errno) => 0x00050000 | (*errno & 0x0000ffff),
            SeccompAction::Trace(sig) => 0x7ff00000 | (*sig & 0x0000ffff),
            SeccompAction::Kill => SCMP_ACT_KILL,
        }
    }
}

/// The kind of an action sits in the high 16 bits of its code; `Errno`
/// and `Trace` carry the low 16 bits of their data, whatever the data.
pub proof fn lemma_action_code_bits(a: SeccompAction)
    ensures
        a matches SeccompAction::Errno(e) ==> action_code(a) & 0xffff == e & 0xffff && action_code(
            a,
        ) & 0xffff0000 == 0x00050000,
        a matches SeccompAction::Trace(s) ==> action_code(a) & 0xffff == s & 0xffff && action_code(
            a,
        ) & 0xffff0000 == 0x7ff00000,
        a is Allow ==> action_code(a) & 0xffff0000 == 0x7fff0000 && action_code(a) & 0xffff == 0,
        a is Trap ==> action_code(a) & 0xffff0000 == 0x00030000 && action_code(a) & 0xffff == 0,
        a is Kill ==> action_code(a) & 0xffff0000 == 0 && action_code(a) & 0xffff == 0,
{
    match a {
        SeccompAction::Errno(e) => {
            assert((0x00050000u32 | (e & 0x0000ffffu32)) & 0xffffu32 == e & 0xffffu32
                && (0x00050000u32 | (e & 0x0000ffffu32)) & 0xffff0000u32 == 0x00050000u32)
                by (bit_vector);
        },
        SeccompAction::Trace(s) => {
            assert((0x7ff00000u32 | (s & 0x0000ffffu32)) & 0xffffu32 == s & 0xffffu32
                && (0x7ff00000u32 | (s & 0x0000ffffu32)) & 0xffff0000u32 == 0x7ff00000u32)
                by (bit_vector);
        },
        SeccompAction::Allow => {
            assert(0x7fff0000u32 & 0xffff0000u32 == 0x7fff0000u32 && 0x7fff0000u32 & 0xffffu32
                == 0u32) by (bit_vector);
        },
        SeccompAction::Trap => {
            assert(0x00030000u32 & 0xffff0000u32 == 0x00030000u32 && 0x00030000u32 & 0xffffu32
                == 0u32) by (bit_vector);
        },
        SeccompAction::Kill => {
            assert(0u32 & 0xffff0000u32 == 0u32 && 0u32 & 0xffffu32 == 0u32) by (bit_vector);
        },
    }
}

/// Two actions have the same code exactly when they are the same action,
/// when the data of `Errno` and `Trace` fits in 16 bits.
pub proof fn lemma_action_code_injective(a: SeccompAction, b: SeccompAction)
    requires
        a matches SeccompAction::Errno(e) ==> e <= 0xffff,
        a matches SeccompAction::Trace(s) ==> s <= 0xffff,
        b matches SeccompAction::Errno(e) ==> e <= 0xffff,
        b matches SeccompAction::Trace(s) ==> s <= 0xffff,
    ensures
        action_code(a) == action_code(b) <==> a == b,
{
    lemma_action_code_bits(a);
    lemma_action_code_bits(b);
    assert(forall|x: u32| x <= 0xffff ==> #[trigger] (x & 0xffffu32) == x) by (bit_vector);
}

/// A libseccomp rule: a system call number and the action taken on it.
#[derive(Clone, Copy, Debug, PartialEq, Eq, Structural)]
pub struct SeccompRule {
    pub syscall: i32,
    pub action: SeccompAction,
}

/// A libseccomp filter being put together: its default action and the
/// rules added to it, in order.
pub struct SeccompFilter {
    pub rules: Vec<SeccompRule>,
    pub default_action: SeccompAction,
}

impl SeccompFilter {
    /// An empty filter with the given default action.
    pub fn new(default_action: SeccompAction) -> (f: Self)
        ensures
            f.rules@ == Seq::<SeccompRule>::empty(),
            f.default_action == default_action,
    {
        SeccompFilter { rules: Vec::new(), default_action }
    }

    /// The code that initialises the libseccomp context: that of the default
    /// action.
    pub fn init_code(&self) -> (code: u32)
        ensures
            code == action_code(self.default_action),
    {
        self.default_action.to_u32()
    }

    /// Adds a rule at the end.
    pub fn add_rule(&mut self, syscall: i32, action: SeccompAction)
        ensures
            final(self).rules@ == old(self).rules@.push(SeccompRule { syscall, action }),
            final(self).default_action == old(self).default_action,
    {
        self.rules.push(SeccompRule { syscall, action });
    }

    /// The rules as loading installs them, in order: each rule's system call
    /// with the code `SCMP_ACT_ALLOW`, whatever action the rule was added
    /// with.
    pub fn load_plan(&self) -> (plan: Vec<(u32, i32)>)
        ensures
            plan.len() == self.rules.len(),
            forall|i: int|
                0 <= i < plan.len() ==> #[trigger] plan@[i] == (SCMP_ACT_ALLOW, self.rules@[i].syscall),
    {
        let mut plan: Vec<(u32, i32)> = Vec::new();
        for i in 0..self.rules.len()
            invariant
                plan.len() == i,
                forall|k: int|
                    0 <= k < i ==> #[trigger] plan@[k] == (SCMP_ACT_ALLOW, self.rules@[k].syscall),
        {
            plan.push((SCMP_ACT_ALLOW, self.rules[i].syscall));
        }
        plan
    }
}

} // verus!
