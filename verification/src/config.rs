//! Command-line arguments and per-application configuration of the tester.

use vstd::prelude::*;

verus! {

/// The tester's command-line arguments.
pub struct Args {
    /// Architecture to use (e.g., riscv64).
    pub arch: String,
    /// Log level (e.g., warn).
    pub log: String,
    /// Enable QEMU logging (y/n).
    pub qemu_log: String,
    /// App type to run (all, static, dynamic).
    pub ttype: Option<String>,
    /// Review the snapshot and do not run the app.
    pub snapshot: bool,
    /// Skip the app build.
    pub skip: bool,
    /// Enable the QEMU block device (y/n).
    pub blk: String,
    /// Which app to run, "all" to run all apps.
    pub app: String,
}

/// An application's `config.toml`.
pub struct Config {
    pub dev: DevConfig,
}

/// The `[dev]` table of an application's `config.toml`.
pub struct DevConfig {
    pub rename: Option<String>,
    pub ttype: Option<String>,
    pub dynamic_flags: Option<Vec<String>>,
    pub static_flags: Option<Vec<String>>,
    pub snapshot: Option<bool>,
}

/// The characters of each string of a list.
pub open spec fn views(v: Seq<String>) -> Seq<Seq<char>> {
    v.map_values(|s: String| s@)
}

/// A copy of a list of strings.
pub fn clone_strings(v: &Vec<String>) -> (r: Vec<String>)
    ensures
        views(r@) == views(v@),
{
    let mut r: Vec<String> = Vec::new();
    let mut k: usize = 0;
    while k < v.len()
        invariant
            k <= v@.len(),
            r@.len() == k,
            views(r@) == views(v@).take(k as int),
        decreases v.len() - k,
    {
        let ghost before = r@;
        let c = v[k].clone();
        assert(c == v@[k as int]);
        r.push(c);
        assert(r@ == before.push(v@[k as int]));
        k += 1;
        assert forall|j: int| 0 <= j < k implies #[trigger] views(r@)[j] == views(v@).take(
            k as int,
        )[j] by {
            if j < k - 1 {
                assert(views(before)[j] == views(v@).take(k - 1)[j]);
                assert(r@[j] == before[j]);
            }
        }
        assert(views(r@) =~= views(v@).take(k as int));
    }
    assert(views(v@).take(k as int) =~= views(v@));
    r
}

} // verus!
