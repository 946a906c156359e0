use arceos_tools::axfncall::{
    abi_timespec, init, register_abi, AbiFeatures, AbiHandlers, AbiTable, SYS_PRINTF,
    SYS_PUTCHAR, SYS_TIMESPEC, SYS_UNDFINEDFN,
};
use arceos_tools::mocklibc::{self, init_abis, puts, MockAbiTable, SYS_EXIT, SYS_HELLO};

fn handlers() -> AbiHandlers {
    AbiHandlers { undefined: 0x1000, putchar: 0x2000, printf: 0x3000, timespec: 0x4000 }
}

#[test]
fn register_then_lookup() {
    let mut t = AbiTable::new();
    assert_eq!(t.entries, [0; 16]);
    register_abi(&mut t, 7, 42);
    assert_eq!(t.entry(7), 42);
    assert_eq!(t.entry(6), 0);
    register_abi(&mut t, 7, 43);
    assert_eq!(t.entry(7), 43);
}

#[test]
fn init_with_all_groups() {
    let mut t = AbiTable::new();
    init(&mut t, &handlers(), AbiFeatures { time: true, stdio: true });
    assert_eq!(t.entry(SYS_UNDFINEDFN), 0x1000);
    assert_eq!(t.entry(SYS_PUTCHAR), 0x2000);
    assert_eq!(t.entry(SYS_PRINTF), 0x3000);
    assert_eq!(t.entry(SYS_TIMESPEC), 0x4000);
    for i in 4..16 {
        assert_eq!(t.entry(i), 0);
    }
}

#[test]
fn init_without_groups_touches_only_slot_zero() {
    let mut t = AbiTable::new();
    register_abi(&mut t, SYS_PUTCHAR, 9);
    init(&mut t, &handlers(), AbiFeatures { time: false, stdio: false });
    assert_eq!(t.entry(SYS_UNDFINEDFN), 0x1000);
    assert_eq!(t.entry(SYS_PUTCHAR), 9);
    assert_eq!(t.entry(SYS_TIMESPEC), 0);
    let mut u = AbiTable::new();
    init(&mut u, &handlers(), AbiFeatures { time: true, stdio: false });
    assert_eq!(u.entry(SYS_TIMESPEC), 0x4000);
    assert_eq!(u.entry(SYS_PRINTF), 0);
}

#[test]
fn init_twice_is_init_once() {
    let f = AbiFeatures { time: true, stdio: true };
    let mut a = AbiTable::new();
    init(&mut a, &handlers(), f);
    let once = a.entries;
    init(&mut a, &handlers(), f);
    assert_eq!(a.entries, once);
}

#[test]
fn timespec_from_clock() {
    let ts = abi_timespec(2, 5);
    assert_eq!(ts.tv_sec, 2);
    assert_eq!(ts.tv_nsec, 2_000_000_005);
    let big = abi_timespec(u64::MAX, 999_999_999);
    let total = (u64::MAX as u128) * 1_000_000_000 + 999_999_999;
    assert_eq!(big.tv_nsec, total as usize);
    assert_eq!(big.tv_sec, u64::MAX as usize);
}

#[test]
fn mock_table_copies_three_handlers() {
    let mut t = MockAbiTable::new();
    init_abis(&mut t, &[11, 22, 33, 44, 55]);
    assert_eq!(t.entry(SYS_HELLO), 22);
    assert_eq!(t.entry(mocklibc::SYS_PUTCHAR), 33);
    assert_eq!(t.entry(SYS_EXIT), 44);
    assert_eq!(t.entry(0), 0);
    assert_eq!(t.entry(4), 0);
}

#[test]
fn puts_stops_at_nul() {
    assert_eq!(puts(b"hi!\0ignored\0"), vec![b'h' as usize, b'i' as usize, b'!' as usize]);
    assert_eq!(puts(b"\0"), Vec::<usize>::new());
}
