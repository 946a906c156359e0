//! The function-call ABI table that the kernel hands to applications: slot
//! numbers, registration, and the set of handlers installed at start-up.

use vstd::prelude::*;

verus! {

/// Number of slots in the ABI table.
pub const ABI_TABLE_LEN: usize = 16;

/// Slot of the handler for calls to undefined functions.
pub const SYS_UNDFINEDFN: usize = 0;

/// Slot of the `putchar` handler.
pub const SYS_PUTCHAR: usize = 1;

/// Slot of the `printf` handler.
pub const SYS_PRINTF: usize = 2;

/// Slot of the `timespec` handler.
pub const SYS_TIMESPEC: usize = 3;

/// The ABI table: one handler address per slot, zero where none is registered.
pub struct AbiTable {
    pub entries: [usize; 16],
}

/// The addresses of the handlers that `init` may install.
pub struct AbiHandlers {
    pub undefined: usize,
    pub putchar: usize,
    pub printf: usize,
    pub timespec: usize,
}

/// Which optional handler groups the kernel was built with.
#[derive(Clone, Copy)]
pub struct AbiFeatures {
    pub time: bool,
    pub stdio: bool,
}

impl AbiTable {
    /// An empty table: every slot zero.
    pub fn new() -> (t: AbiTable)
        ensures
            t.entries@ == Seq::new(16, |i: int| 0usize),
    {
        let t = AbiTable { entries: [0usize; 16] };
        assert(t.entries@ =~= Seq::new(16, |i: int| 0usize));
        t
    }

    /// The handler registered in slot `num`.
    pub fn entry(&self, num: usize) -> (h: usize)
        requires
            num < ABI_TABLE_LEN,
        ensures
            h == self.entries@[num as int],
    {
        self.entries[num]
    }
}

/// Registers `handle` in slot `num`, leaving every other slot as it was.
pub fn register_abi(table: &mut AbiTable, num: usize, handle: usize)
    requires
        num < ABI_TABLE_LEN,
    ensures
        final(table).entries@ == old(table).entries@.update(num as int, handle),
{
    table.entries[num] = handle;
}

/// The table after `init`: the undefined-function handler in its slot, the
/// `timespec` handler when time support is built in, and the `putchar` and
/// `printf` handlers when console support is built in.
pub open spec fn init_spec(s: Seq<usize>, h: AbiHandlers, f: AbiFeatures) -> Seq<usize> {
    let s0 = s.update(SYS_UNDFINEDFN as int, h.undefined);
    let s1 = if f.time { s0.update(SYS_TIMESPEC as int, h.timespec) } else { s0 };
    if f.stdio {
        s1.update(SYS_PUTCHAR as int, h.putchar).update(SYS_PRINTF as int, h.printf)
    } else {
        s1
    }
}

/// Installs the kernel's handlers in the ABI table.
pub fn init(table: &mut AbiTable, handlers: &AbiHandlers, features: AbiFeatures)
    ensures
        final(table).entries@ == init_spec(old(table).entries@, *handlers, features),
{
    register_abi(table, SYS_UNDFINEDFN, handlers.undefined);
    if features.time {
        register_abi(table, SYS_TIMESPEC, handlers.timespec);
    }
    if features.stdio {
        register_abi(table, SYS_PUTCHAR, handlers.putchar);
        register_abi(table, SYS_PRINTF, handlers.printf);
    }
}

/// Running `init` twice leaves the table as running it once.
pub proof fn law_init_idempotent(s: Seq<usize>, h: AbiHandlers, f: AbiFeatures)
    requires
        s.len() == ABI_TABLE_LEN,
    ensures
        init_spec(init_spec(s, h, f), h, f) == init_spec(s, h, f),
{
    assert(init_spec(init_spec(s, h, f), h, f) =~= init_spec(s, h, f));
}

/// After `init`, each installed slot holds its handler, the slots of groups
/// that are not built in are untouched, and so is every slot past the four
/// known ones.
pub proof fn law_init_slots(s: Seq<usize>, h: AbiHandlers, f: AbiFeatures)
    requires
        s.len() == ABI_TABLE_LEN,
    ensures
        init_spec(s, h, f).len() == ABI_TABLE_LEN,
        init_spec(s, h, f)[SYS_UNDFINEDFN as int] == h.undefined,
        init_spec(s, h, f)[SYS_TIMESPEC as int] == if f.time { h.timespec } else { s[SYS_TIMESPEC as int] },
        init_spec(s, h, f)[SYS_PUTCHAR as int] == if f.stdio { h.putchar } else { s[SYS_PUTCHAR as int] },
        init_spec(s, h, f)[SYS_PRINTF as int] == if f.stdio { h.printf } else { s[SYS_PRINTF as int] },
        forall|i: int| 4 <= i < ABI_TABLE_LEN ==> #[trigger] init_spec(s, h, f)[i] == s[i],
{
}

/// A point in time as handed to applications: seconds and nanoseconds.
pub struct TimeSpec {
    pub tv_sec: usize,
    pub tv_nsec: usize,
}

/// The `TimeSpec` filled in from the monotonic clock reading
/// `now_secs` seconds plus `now_subsec_nanos` nanoseconds: the seconds field
/// holds the whole seconds and the nanoseconds field the whole reading in
/// nanoseconds, each cut to the width of `usize`.
pub fn abi_timespec(now_secs: u64, now_subsec_nanos: u32) -> (ts: TimeSpec)
    requires
        now_subsec_nanos < 1_000_000_000,
    ensures
        ts.tv_sec == now_secs as usize,
        ts.tv_nsec == (now_secs * 1_000_000_000 + now_subsec_nanos) as usize,
{
    let total: u128 = (now_secs as u128) * 1_000_000_000u128 + (now_subsec_nanos as u128);
    TimeSpec { tv_nsec: total as usize, tv_sec: now_secs as usize }
}

} // verus!
