//! The application side of the function-call ABI: the table copied from the
//! kernel at start-up, and `puts` expressed through `putchar`.

use vstd::prelude::*;

verus! {

/// Slot of the `hello` handler.
pub const SYS_HELLO: usize = 1;

/// Slot of the `putchar` handler.
pub const SYS_PUTCHAR: usize = 2;

/// Slot of the `exit` handler.
pub const SYS_EXIT: usize = 3;

/// The application's copy of the kernel's ABI table.
pub struct MockAbiTable {
    pub entries: [usize; 16],
}

impl MockAbiTable {
    /// A table with every slot zero, as before start-up.
    pub fn new() -> (t: MockAbiTable)
        ensures
            t.entries@ == Seq::new(16, |i: int| 0usize),
    {
        let t = MockAbiTable { entries: [0usize; 16] };
        assert(t.entries@ =~= Seq::new(16, |i: int| 0usize));
        t
    }

    /// The handler in slot `id`; `hello`, `putchar` and `exit` call through it.
    pub fn entry(&self, id: usize) -> (h: usize)
        requires
            id < 16,
        ensures
            h == self.entries@[id as int],
    {
        self.entries[id]
    }
}

/// Copies the `hello`, `putchar` and `exit` handlers from the kernel's table
/// (given as its sequence of words) into the application's table.
pub fn init_abis(table: &mut MockAbiTable, kernel_table: &[usize])
    requires
        kernel_table@.len() > SYS_EXIT,
    ensures
        final(table).entries@ == old(table).entries@.update(
            SYS_HELLO as int,
            kernel_table@[SYS_HELLO as int],
        ).update(SYS_PUTCHAR as int, kernel_table@[SYS_PUTCHAR as int]).update(
            SYS_EXIT as int,
            kernel_table@[SYS_EXIT as int],
        ),
{
    table.entries[SYS_HELLO] = kernel_table[SYS_HELLO];
    table.entries[SYS_PUTCHAR] = kernel_table[SYS_PUTCHAR];
    table.entries[SYS_EXIT] = kernel_table[SYS_EXIT];
}

/// Index of the first zero byte of `s` (the end of a C string).
pub open spec fn is_first_nul(s: Seq<u8>, k: int) -> bool {
    0 <= k < s.len() && s[k] == 0 && forall|j: int| 0 <= j < k ==> s[j] != 0
}

/// The arguments `puts` passes to `putchar`, in order: every byte of the C
/// string `s` before its terminating zero byte.
pub fn puts(s: &[u8]) -> (r: Vec<usize>)
    requires
        exists|k: int| 0 <= k < s@.len() && s@[k] == 0,
    ensures
        is_first_nul(s@, r@.len() as int),
        forall|j: int| 0 <= j < r@.len() ==> #[trigger] r@[j] == s@[j] as usize,
{
    let mut r: Vec<usize> = Vec::new();
    let mut i: usize = 0;
    while s[i] != 0
        invariant
            i < s@.len(),
            exists|k: int| i <= k < s@.len() && s@[k] == 0,
            r@.len() == i,
            forall|j: int| 0 <= j < i ==> s@[j] != 0,
            forall|j: int| 0 <= j < i ==> #[trigger] r@[j] == s@[j] as usize,
        decreases s@.len() - i,
    {
        r.push(s[i] as usize);
        i += 1;
    }
    r
}

} // verus!
