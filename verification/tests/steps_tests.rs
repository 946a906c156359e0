use arceos_tools::config::Args;
use arceos_tools::steps::{
    check_branch_start, check_branch_step, install_start, install_step, run_make_start,
    run_make_step, BranchAction, BranchEvent, BranchState, InstallAction, InstallEvent,
    InstallState, MakeAction, MakeEvent, MakeState,
};

fn args(blk: &str) -> Args {
    Args {
        arch: "riscv64".to_string(),
        log: "warn".to_string(),
        qemu_log: "n".to_string(),
        ttype: None,
        snapshot: false,
        skip: false,
        blk: blk.to_string(),
        app: "hello".to_string(),
    }
}

fn run_args() -> Vec<String> {
    ["A=examples/loader", "ARCH=riscv64", "LOG=warn", "QEMU_LOG=n", "BLK=y", "APP_PATH=hello", "run"]
        .iter()
        .map(|s| s.to_string())
        .collect()
}

#[test]
fn make_run_with_disk_image() {
    let a = args("y");
    let (st, act) = run_make_start();
    assert!(st == MakeState::Defconfig);
    assert!(matches!(act, MakeAction::Make(v) if v == vec!["defconfig", "ARCH=riscv64"]));
    let (st, act) = run_make_step(&a, st, MakeEvent::Status(true));
    assert!(st == MakeState::DiskCheck && matches!(act, MakeAction::CheckDiskImage));
    let (st, act) = run_make_step(&a, st, MakeEvent::DiskImageExists(false));
    assert!(st == MakeState::DiskImage);
    assert!(matches!(act, MakeAction::Make(v) if v == vec!["disk_img"]));
    let (st, act) = run_make_step(&a, st, MakeEvent::Status(true));
    assert!(st == MakeState::Running);
    assert!(matches!(act, MakeAction::MakeRun(v) if v == run_args()));
    let (st, act) = run_make_step(&a, st, MakeEvent::Output(b"fine\n".to_vec()));
    assert!(st == MakeState::Done);
    assert!(matches!(act, MakeAction::Finish(Ok(()))));
}

#[test]
fn make_run_without_block_device_and_failures() {
    let a = args("n");
    let (st, act) = run_make_step(&a, MakeState::Defconfig, MakeEvent::Status(true));
    assert!(st == MakeState::Running);
    match act {
        MakeAction::MakeRun(v) => assert_eq!(v[4], "BLK=n"),
        _ => panic!("expected the run"),
    }
    let (_, act) = run_make_step(&a, MakeState::Defconfig, MakeEvent::Status(false));
    assert!(matches!(act, MakeAction::Finish(Err(e)) if e == "make defconfig failed"));
    let (_, act) = run_make_step(&a, MakeState::DiskImage, MakeEvent::Status(false));
    assert!(matches!(act, MakeAction::Finish(Err(e)) if e == "make disk img failed"));
    let y = args("y");
    let (st, _) = run_make_step(&y, MakeState::DiskCheck, MakeEvent::DiskImageExists(true));
    assert!(st == MakeState::Running);
    let out = b"\x1b[41mFAIL\x1b[0m boot\n".to_vec();
    let (_, act) = run_make_step(&a, MakeState::Running, MakeEvent::Output(out));
    assert!(matches!(act, MakeAction::Finish(Err(e)) if e == "\x1b[41mFAIL\x1b[0m boot"));
}

#[test]
fn branch_already_checked_out() {
    let (st, act) = check_branch_start();
    assert!(st == BranchState::Query);
    assert!(matches!(act, BranchAction::Query(v) if v == vec!["rev-parse", "--abbrev-ref", "HEAD"]));
    let ev = BranchEvent::Queried { success: true, stdout: "mocklibc\n".to_string() };
    let (st, act) = check_branch_step("mocklibc", st, ev);
    assert!(st == BranchState::Done);
    match act {
        BranchAction::Finish { on_branch, notice, is_error } => {
            assert!(on_branch && !is_error);
            assert_eq!(notice, "Currently on branch mocklibc");
        }
        _ => panic!("expected the end"),
    }
}

#[test]
fn branch_switch_paths() {
    let ev = BranchEvent::Queried { success: true, stdout: "main\n".to_string() };
    let (st, act) = check_branch_step("mocklibc", BranchState::Query, ev);
    assert!(st == BranchState::Switching);
    match act {
        BranchAction::Switch { args, notice } => {
            assert_eq!(args, vec!["switch", "mocklibc"]);
            assert_eq!(notice, "Not on branch mocklibc");
        }
        _ => panic!("expected a switch"),
    }
    let (_, ok) = check_branch_step("mocklibc", st, BranchEvent::Switched(true));
    assert!(matches!(ok, BranchAction::Finish { on_branch: true, notice, is_error: false }
        if notice == "Switched to branch mocklibc"));
    let (_, bad) = check_branch_step("mocklibc", st, BranchEvent::Switched(false));
    assert!(matches!(bad, BranchAction::Finish { on_branch: false, notice, is_error: true }
        if notice == "Failed to switch branch"));
    let ev = BranchEvent::Queried { success: false, stdout: String::new() };
    let (_, q) = check_branch_step("mocklibc", BranchState::Query, ev);
    assert!(matches!(q, BranchAction::Finish { on_branch: false, notice, is_error: true }
        if notice == "Failed to get current branch"));
}

#[test]
fn install_paths() {
    let (st, act) = install_start();
    assert!(st == InstallState::Check && matches!(act, InstallAction::CheckInstalled));
    let (_, done) = install_step(st, InstallEvent::Installed(true));
    assert!(matches!(done, InstallAction::Finish { installed: true, failure: None }));
    let (st, act) = install_step(st, InstallEvent::Installed(false));
    assert!(matches!(act, InstallAction::Download(v)
        if v == vec!["-N", "https://musl.cc/riscv64-linux-musl-cross.tgz"]));
    let (_, fail) = install_step(st, InstallEvent::Status(false));
    assert!(matches!(fail, InstallAction::Finish { installed: false, failure: Some(m) }
        if m == "Failed to download riscv64-linux-musl-cross"));
    let (st, act) = install_step(st, InstallEvent::Status(true));
    assert!(matches!(act, InstallAction::Unpack(v) if v == vec!["-xzf", "riscv64-linux-musl-cross.tgz"]));
    let (_, fail) = install_step(st, InstallEvent::Status(false));
    assert!(matches!(fail, InstallAction::Finish { installed: false, failure: Some(m) }
        if m == "Unzip failed"));
    let (st, act) = install_step(st, InstallEvent::Status(true));
    assert!(matches!(act, InstallAction::RemoveArchive { archive, notice }
        if archive == "riscv64-linux-musl-cross.tgz"
            && notice == "Musl RISC-V64 toolchain installation complete"));
    let (st, act) = install_step(st, InstallEvent::Removed);
    assert!(st == InstallState::Done);
    assert!(matches!(act, InstallAction::Finish { installed: true, failure: None }));
}

use arceos_tools::plan::build;
use arceos_tools::steps::{build_start, build_step, BuildAction, BuildEvent, BuildState};

fn inspect_parts(a: &BuildAction) -> (String, Vec<String>, String, Option<String>) {
    match a {
        BuildAction::Inspect { program, args, output_file, snapshot_suffix } => {
            (program.clone(), args.clone(), output_file.clone(), snapshot_suffix.clone())
        }
        _ => panic!("expected an inspection"),
    }
}

#[test]
fn build_steps_without_snapshots() {
    let p = build("hello_app", true, &None, &None, "/t/");
    let (st, act) = build_start(&p);
    assert!(matches!(st, BuildState::Version));
    assert!(matches!(&act, BuildAction::QueryVersion { program } if program == "/t/riscv64-linux-musl-gcc"));
    let (st, act) = build_step(&p, st, BuildEvent::VersionOutput("gcc 11.2.1\r\nCopyright\n".to_string()));
    assert!(matches!(&st, BuildState::Compile { version } if version == "gcc 11.2.1"));
    match &act {
        BuildAction::Compile { program, args } => {
            assert_eq!(program, "/t/riscv64-linux-musl-gcc");
            assert_eq!(args, &vec!["-v", "hello.c", "-fPIE", "-o", "hello"]);
        }
        _ => panic!("expected the compile"),
    }
    let (st, act) = build_step(&p, st, BuildEvent::Compiled(true));
    assert!(matches!(st, BuildState::Disasm));
    assert_eq!(
        inspect_parts(&act),
        ("/t/riscv64-linux-musl-objdump".to_string(), vec!["-d".to_string(), "hello".to_string()], "hello.S".to_string(), None)
    );
    let (st, act) = build_step(&p, st, BuildEvent::Inspected);
    assert_eq!(
        inspect_parts(&act),
        ("/t/riscv64-linux-musl-readelf".to_string(), vec!["-a".to_string(), "hello".to_string()], "hello.elf".to_string(), None)
    );
    let (st, act) = build_step(&p, st, BuildEvent::Inspected);
    assert_eq!(inspect_parts(&act).1, vec!["-x", "-d", "hello"]);
    assert_eq!(inspect_parts(&act).2, "hello.dump");
    let (st, act) = build_step(&p, st, BuildEvent::Inspected);
    assert!(matches!(st, BuildState::Image));
    assert!(matches!(&act, BuildAction::GenerateBin { elf_name } if elf_name == "hello"));
    let (st, act) = build_step(&p, st, BuildEvent::Generated);
    assert!(matches!(st, BuildState::Done));
    assert!(matches!(act, BuildAction::Finish(Ok(()))));
}

#[test]
fn build_steps_with_snapshots_and_failed_compile() {
    let c = arceos_tools::config::Config {
        dev: arceos_tools::config::DevConfig {
            rename: None,
            ttype: None,
            dynamic_flags: None,
            static_flags: None,
            snapshot: Some(true),
        },
    };
    let p = build("demo", false, &Some(c), &None, "");
    let st = BuildState::Compile { version: "gcc 11".to_string() };
    let (st, act) = build_step(&p, st, BuildEvent::Compiled(true));
    assert!(matches!(st, BuildState::Snapshots));
    assert!(matches!(&act, BuildAction::SetUpSnapshots { description } if description == "gcc 11"));
    let (st, act) = build_step(&p, st, BuildEvent::SnapshotsReady);
    assert_eq!(inspect_parts(&act).3, Some("demo_static.S".to_string()));
    let (st, _) = build_step(&p, st, BuildEvent::Inspected);
    let (st, act) = build_step(&p, st, BuildEvent::Inspected);
    assert_eq!(inspect_parts(&act).3, Some("demo_static.dump".to_string()));
    let (st, act) = build_step(&p, st, BuildEvent::Inspected);
    assert!(matches!(st, BuildState::Review) && matches!(act, BuildAction::ReviewSnapshots));
    let (st, act) = build_step(&p, st, BuildEvent::Reviewed);
    assert!(matches!(st, BuildState::Image));
    assert!(matches!(&act, BuildAction::GenerateBin { elf_name } if elf_name == "demo"));
    let failed = build_step(&p, BuildState::Compile { version: String::new() }, BuildEvent::Compiled(false));
    assert!(matches!(failed.1, BuildAction::Finish(Err(e)) if e == "Failed to compile C file"));
}
