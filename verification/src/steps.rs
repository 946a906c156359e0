//! The tester's multi-step procedures as state machines: each step takes
//! what the last outside action reported and says what to do next. The
//! caller performs the actions (running commands, probing files) and feeds
//! the results back until a `Finish` action.

use vstd::prelude::*;
use crate::config::{Args, views};
use crate::plan::BuildPlan;
use crate::judge::{spec_test_judge, test_judge};
use crate::text::{chars_of, first_line, spec_first_line, trim, trimmed};

verus! {

fn strings2(a: &str, b: &str) -> (r: Vec<String>)
    ensures
        views(r@) == seq![a@, b@],
{
    let mut r: Vec<String> = Vec::new();
    r.push(a.to_owned());
    r.push(b.to_owned());
    assert(views(r@) =~= seq![a@, b@]);
    r
}

// ---------------------------------------------------------------- run_make

/// Where a run of the application under `make` stands.
#[derive(PartialEq, Eq, Structural, Clone, Copy)]
pub enum MakeState {
    /// Waiting for `make defconfig`.
    Defconfig,
    /// Waiting to learn whether the disk image exists.
    DiskCheck,
    /// Waiting for `make disk_img`.
    DiskImage,
    /// Waiting for the output of the run.
    Running,
    /// Finished.
    Done,
}

/// What the caller reports back.
pub enum MakeEvent {
    /// Whether the last `make` command succeeded.
    Status(bool),
    /// Whether `disk.img` exists in the workspace root.
    DiskImageExists(bool),
    /// Everything the run printed on its standard output.
    Output(Vec<u8>),
}

/// What the caller does next.
pub enum MakeAction {
    /// Run `make` with these arguments and report its status.
    Make(Vec<String>),
    /// Report whether `disk.img` exists.
    CheckDiskImage,
    /// Run `make` with these arguments, echoing and capturing its standard
    /// output, and report the output.
    MakeRun(Vec<String>),
    /// Stop, with this outcome.
    Finish(Result<(), String>),
}

/// How far a run of `make` is from its end.
pub open spec fn make_rank(s: MakeState) -> int {
    match s {
        MakeState::Defconfig => 4,
        MakeState::DiskCheck => 3,
        MakeState::DiskImage => 2,
        MakeState::Running => 1,
        MakeState::Done => 0,
    }
}

/// The arguments of the `make` command that runs the application.
pub open spec fn make_run_args(args: Args) -> Seq<Seq<char>> {
    seq![
        "A=examples/loader"@,
        "ARCH="@ + args.arch@,
        "LOG="@ + args.log@,
        "QEMU_LOG="@ + args.qemu_log@,
        "BLK="@ + args.blk@,
        "APP_PATH="@ + args.app@,
        "run"@,
    ]
}

/// The command that runs the application passes each setting through as
/// given: the architecture, log level, QEMU logging, block device and
/// application, each after its `make` variable name.
pub proof fn law_make_run_args(args: Args)
    ensures
        make_run_args(args).len() == 7,
        make_run_args(args)[0] == "A=examples/loader"@,
        make_run_args(args)[1] == "ARCH="@ + args.arch@,
        make_run_args(args)[2] == "LOG="@ + args.log@,
        make_run_args(args)[3] == "QEMU_LOG="@ + args.qemu_log@,
        make_run_args(args)[4] == "BLK="@ + args.blk@,
        make_run_args(args)[5] == "APP_PATH="@ + args.app@,
        make_run_args(args)[6] == "run"@,
{
}

fn run_args(args: &Args) -> (r: Vec<String>)
    ensures
        views(r@) == make_run_args(*args),
{
    let mut r: Vec<String> = Vec::new();
    r.push("A=examples/loader".to_owned());
    r.push("ARCH=".to_owned().concat(args.arch.as_str()));
    r.push("LOG=".to_owned().concat(args.log.as_str()));
    r.push("QEMU_LOG=".to_owned().concat(args.qemu_log.as_str()));
    r.push("BLK=".to_owned().concat(args.blk.as_str()));
    r.push("APP_PATH=".to_owned().concat(args.app.as_str()));
    r.push("run".to_owned());
    assert(views(r@) =~= make_run_args(*args));
    r
}

/// The first step of a run: configure the build with `make defconfig ARCH=riscv64`.
pub fn run_make_start() -> (r: (MakeState, MakeAction))
    ensures
        r.0 == MakeState::Defconfig,
        r.1 matches MakeAction::Make(a) && views(a@) == seq!["defconfig"@, "ARCH=riscv64"@],
{
    (MakeState::Defconfig, MakeAction::Make(strings2("defconfig", "ARCH=riscv64")))
}

/// Whether `e` is the report that state `s` waits for.
pub open spec fn make_event_fits(s: MakeState, e: MakeEvent) -> bool {
    match s {
        MakeState::Defconfig | MakeState::DiskImage => e is Status,
        MakeState::DiskCheck => e is DiskImageExists,
        MakeState::Running => e is Output,
        MakeState::Done => false,
    }
}

/// One step of running the application: after `make defconfig`, make the disk
/// image first when the block device is enabled (`blk` is "y") and no image
/// exists yet; then run the application and judge its output. A failed
/// `make` ends the run with an error naming it; a run ends with the judged
/// failure line, or with success.
pub fn run_make_step(args: &Args, state: MakeState, event: MakeEvent) -> (r: (MakeState, MakeAction))
    requires
        make_event_fits(state, event),
    ensures
        make_rank(r.0) < make_rank(state),
        r.0 == MakeState::Done <==> r.1 is Finish,
        r.1 matches MakeAction::MakeRun(a) ==> views(a@) == make_run_args(*args) && r.0
            == MakeState::Running,
        match (state, event) {
            (MakeState::Defconfig, MakeEvent::Status(ok)) => if !ok {
                r.1 matches MakeAction::Finish(Err(e)) && e@ == "make defconfig failed"@
            } else if args.blk@ == "y"@ {
                r.0 == MakeState::DiskCheck && r.1 is CheckDiskImage
            } else {
                r.1 is MakeRun
            },
            (MakeState::DiskCheck, MakeEvent::DiskImageExists(exists)) => if exists {
                r.1 is MakeRun
            } else {
                r.0 == MakeState::DiskImage && (r.1 matches MakeAction::Make(a) && views(a@)
                    == seq!["disk_img"@])
            },
            (MakeState::DiskImage, MakeEvent::Status(ok)) => if !ok {
                r.1 matches MakeAction::Finish(Err(e)) && e@ == "make disk img failed"@
            } else {
                r.1 is MakeRun
            },
            (MakeState::Running, MakeEvent::Output(out)) => match r.1 {
                MakeAction::Finish(Ok(())) => spec_test_judge(out@) is None,
                MakeAction::Finish(Err(e)) => spec_test_judge(out@) == Some(e@),
                _ => false,
            },
            _ => false,
        },
{
    match event {
        MakeEvent::Status(ok) => {
            if state == MakeState::Defconfig {
                if !ok {
                    (MakeState::Done, MakeAction::Finish(Err("make defconfig failed".to_owned())))
                } else if crate::text::str_eq(args.blk.as_str(), "y") {
                    (MakeState::DiskCheck, MakeAction::CheckDiskImage)
                } else {
                    (MakeState::Running, MakeAction::MakeRun(run_args(args)))
                }
            } else {
                if !ok {
                    (MakeState::Done, MakeAction::Finish(Err("make disk img failed".to_owned())))
                } else {
                    (MakeState::Running, MakeAction::MakeRun(run_args(args)))
                }
            }
        },
        MakeEvent::DiskImageExists(exists) => {
            if exists {
                (MakeState::Running, MakeAction::MakeRun(run_args(args)))
            } else {
                let mut a: Vec<String> = Vec::new();
                a.push("disk_img".to_owned());
                assert(views(a@) =~= seq!["disk_img"@]);
                (MakeState::DiskImage, MakeAction::Make(a))
            }
        },
        MakeEvent::Output(out) => {
            match test_judge(out.as_slice()) {
                Some(e) => (MakeState::Done, MakeAction::Finish(Err(e))),
                None => (MakeState::Done, MakeAction::Finish(Ok(()))),
            }
        },
    }
}

// ------------------------------------------------------------ check_branch

/// Where making sure of the checked-out branch stands.
#[derive(PartialEq, Eq, Structural, Clone, Copy)]
pub enum BranchState {
    /// Waiting for the name of the current branch.
    Query,
    /// Waiting for `git switch`.
    Switching,
    /// Finished.
    Done,
}

/// What the caller reports back.
pub enum BranchEvent {
    /// Whether `git` could tell the current branch, and what it printed.
    Queried { success: bool, stdout: String },
    /// Whether `git switch` succeeded.
    Switched(bool),
}

/// What the caller does next.
pub enum BranchAction {
    /// Run `git` with these arguments and report its status and output.
    Query(Vec<String>),
    /// Print `notice`, then run `git` with these arguments and report its status.
    Switch { args: Vec<String>, notice: String },
    /// Print `notice` (to the error stream when `is_error`), and end: on the
    /// wanted branch or not.
    Finish { on_branch: bool, notice: String, is_error: bool },
}

/// How far the branch check is from its end.
pub open spec fn branch_rank(s: BranchState) -> int {
    match s {
        BranchState::Query => 2,
        BranchState::Switching => 1,
        BranchState::Done => 0,
    }
}

/// The first step: ask `git rev-parse --abbrev-ref HEAD` for the current branch.
pub fn check_branch_start() -> (r: (BranchState, BranchAction))
    ensures
        r.0 == BranchState::Query,
        r.1 matches BranchAction::Query(a) && views(a@) == seq!["rev-parse"@, "--abbrev-ref"@, "HEAD"@],
{
    let mut a: Vec<String> = Vec::new();
    a.push("rev-parse".to_owned());
    a.push("--abbrev-ref".to_owned());
    a.push("HEAD".to_owned());
    assert(views(a@) =~= seq!["rev-parse"@, "--abbrev-ref"@, "HEAD"@]);
    (BranchState::Query, BranchAction::Query(a))
}

/// Whether `e` is the report that state `s` waits for.
pub open spec fn branch_event_fits(s: BranchState, e: BranchEvent) -> bool {
    match s {
        BranchState::Query => e is Queried,
        BranchState::Switching => e is Switched,
        BranchState::Done => false,
    }
}

/// One step of making sure the branch `branch` is checked out: when `git`
/// names it (white space around the name aside) the check succeeds at once;
/// otherwise `git switch` to it is tried, and the check succeeds exactly when
/// that succeeds. A failed query ends the check unsuccessfully.
pub fn check_branch_step(branch: &str, state: BranchState, event: BranchEvent) -> (r: (BranchState, BranchAction))
    requires
        branch_event_fits(state, event),
    ensures
        branch_rank(r.0) < branch_rank(state),
        r.0 == BranchState::Done <==> r.1 is Finish,
        match event {
            BranchEvent::Queried { success, stdout } => if !success {
                r.1 matches BranchAction::Finish { on_branch, notice, is_error } && !on_branch
                    && is_error && notice@ == "Failed to get current branch"@
            } else if trimmed(stdout@) == branch@ {
                r.1 matches BranchAction::Finish { on_branch, notice, is_error } && on_branch
                    && !is_error && notice@ == "Currently on branch "@ + branch@
            } else {
                r.1 matches BranchAction::Switch { args, notice } && views(args@) == seq![
                    "switch"@,
                    branch@,
                ] && notice@ == "Not on branch "@ + branch@
            },
            BranchEvent::Switched(ok) => if ok {
                r.1 matches BranchAction::Finish { on_branch, notice, is_error } && on_branch
                    && !is_error && notice@ == "Switched to branch "@ + branch@
            } else {
                r.1 matches BranchAction::Finish { on_branch, notice, is_error } && !on_branch
                    && is_error && notice@ == "Failed to switch branch"@
            },
        },
{
    match event {
        BranchEvent::Queried { success, stdout } => {
            if !success {
                return (
                    BranchState::Done,
                    BranchAction::Finish {
                        on_branch: false,
                        notice: "Failed to get current branch".to_owned(),
                        is_error: true,
                    },
                );
            }
            let current = trim(stdout.as_str());
            let wanted = chars_of(branch);
            if crate::text::chars_eq(&current, &wanted) {
                (
                    BranchState::Done,
                    BranchAction::Finish {
                        on_branch: true,
                        notice: "Currently on branch ".to_owned().concat(branch),
                        is_error: false,
                    },
                )
            } else {
                (
                    BranchState::Switching,
                    BranchAction::Switch {
                        args: strings2("switch", branch),
                        notice: "Not on branch ".to_owned().concat(branch),
                    },
                )
            }
        },
        BranchEvent::Switched(ok) => {
            if ok {
                (
                    BranchState::Done,
                    BranchAction::Finish {
                        on_branch: true,
                        notice: "Switched to branch ".to_owned().concat(branch),
                        is_error: false,
                    },
                )
            } else {
                (
                    BranchState::Done,
                    BranchAction::Finish {
                        on_branch: false,
                        notice: "Failed to switch branch".to_owned(),
                        is_error: true,
                    },
                )
            }
        },
    }
}

// ------------------------------------------------------- install toolchain

/// Where installing the bundled cross toolchain stands.
#[derive(PartialEq, Eq, Structural, Clone, Copy)]
pub enum InstallState {
    /// Waiting to learn whether the toolchain is already installed.
    Check,
    /// Waiting for the download.
    Download,
    /// Waiting for the archive to be unpacked.
    Unpack,
    /// Waiting for the archive to be removed.
    Cleanup,
    /// Finished.
    Done,
}

/// What the caller reports back.
pub enum InstallEvent {
    /// Whether the toolchain is installed.
    Installed(bool),
    /// Whether the last command succeeded.
    Status(bool),
    /// The archive was removed.
    Removed,
}

/// What the caller does next.
pub enum InstallAction {
    /// Report whether the toolchain is installed.
    CheckInstalled,
    /// Run `wget` with these arguments in the `xtask` directory and report its status.
    Download(Vec<String>),
    /// Run `tar` with these arguments in the `xtask` directory and report its status.
    Unpack(Vec<String>),
    /// Print `notice`, remove the archive `archive` from the `xtask` directory and report it.
    RemoveArchive { archive: String, notice: String },
    /// Print `failure` to the error stream, if any, and end: installed or not.
    Finish { installed: bool, failure: Option<String> },
}

/// How far the installation is from its end.
pub open spec fn install_rank(s: InstallState) -> int {
    match s {
        InstallState::Check => 4,
        InstallState::Download => 3,
        InstallState::Unpack => 2,
        InstallState::Cleanup => 1,
        InstallState::Done => 0,
    }
}

/// The archive the toolchain comes in.
pub open spec fn musl_archive() -> Seq<char> {
    "riscv64-linux-musl-cross.tgz"@
}

/// The first step: find out whether the toolchain is already there.
pub fn install_start() -> (r: (InstallState, InstallAction))
    ensures
        r.0 == InstallState::Check,
        r.1 is CheckInstalled,
{
    (InstallState::Check, InstallAction::CheckInstalled)
}

/// Whether `e` is the report that state `s` waits for.
pub open spec fn install_event_fits(s: InstallState, e: InstallEvent) -> bool {
    match s {
        InstallState::Check => e is Installed,
        InstallState::Download | InstallState::Unpack => e is Status,
        InstallState::Cleanup => e is Removed,
        InstallState::Done => false,
    }
}

/// One step of installing the RISC-V musl cross toolchain: nothing to do
/// when it is installed; otherwise download the archive, unpack it, and
/// remove it. A failed download or unpacking ends the installation
/// unsuccessfully with a notice naming it.
pub fn install_step(state: InstallState, event: InstallEvent) -> (r: (InstallState, InstallAction))
    requires
        install_event_fits(state, event),
    ensures
        install_rank(r.0) < install_rank(state),
        r.0 == InstallState::Done <==> r.1 is Finish,
        match (state, event) {
            (InstallState::Check, InstallEvent::Installed(yes)) => if yes {
                r.1 matches InstallAction::Finish { installed, failure } && installed && failure is None
            } else {
                r.0 == InstallState::Download && (r.1 matches InstallAction::Download(a) && views(
                    a@,
                ) == seq!["-N"@, "https://musl.cc/riscv64-linux-musl-cross.tgz"@])
            },
            (InstallState::Download, InstallEvent::Status(ok)) => if ok {
                r.0 == InstallState::Unpack && (r.1 matches InstallAction::Unpack(a) && views(a@)
                    == seq!["-xzf"@, musl_archive()])
            } else {
                r.1 matches InstallAction::Finish { installed, failure } && !installed && (
                failure matches Some(m) && m@ == "Failed to download riscv64-linux-musl-cross"@)
            },
            (InstallState::Unpack, InstallEvent::Status(ok)) => if ok {
                r.0 == InstallState::Cleanup && (r.1 matches InstallAction::RemoveArchive {
                    archive,
                    notice,
                } && archive@ == musl_archive() && notice@
                    == "Musl RISC-V64 toolchain installation complete"@)
            } else {
                r.1 matches InstallAction::Finish { installed, failure } && !installed && (
                failure matches Some(m) && m@ == "Unzip failed"@)
            },
            (InstallState::Cleanup, InstallEvent::Removed) => r.1 matches InstallAction::Finish {
                installed,
                failure,
            } && installed && failure is None,
            _ => false,
        },
{
    match event {
        InstallEvent::Installed(yes) => {
            if yes {
                (InstallState::Done, InstallAction::Finish { installed: true, failure: None })
            } else {
                (
                    InstallState::Download,
                    InstallAction::Download(
                        strings2("-N", "https://musl.cc/riscv64-linux-musl-cross.tgz"),
                    ),
                )
            }
        },
        InstallEvent::Status(ok) => {
            if state == InstallState::Download {
                if ok {
                    (
                        InstallState::Unpack,
                        InstallAction::Unpack(strings2("-xzf", "riscv64-linux-musl-cross.tgz")),
                    )
                } else {
                    (
                        InstallState::Done,
                        InstallAction::Finish {
                            installed: false,
                            failure: Some("Failed to download riscv64-linux-musl-cross".to_owned()),
                        },
                    )
                }
            } else {
                if ok {
                    (
                        InstallState::Cleanup,
                        InstallAction::RemoveArchive {
                            archive: "riscv64-linux-musl-cross.tgz".to_owned(),
                            notice: "Musl RISC-V64 toolchain installation complete".to_owned(),
                        },
                    )
                } else {
                    (
                        InstallState::Done,
                        InstallAction::Finish {
                            installed: false,
                            failure: Some("Unzip failed".to_owned()),
                        },
                    )
                }
            }
        },
        InstallEvent::Removed => {
            (InstallState::Done, InstallAction::Finish { installed: true, failure: None })
        },
    }
}

// ------------------------------------------------------------------- build

/// Where building and inspecting one application stands.
pub enum BuildState {
    /// Waiting for the compiler's version banner.
    Version,
    /// Waiting for the compiler; `version` is the banner's first line.
    Compile { version: String },
    /// Waiting for snapshot recording to be set up.
    Snapshots,
    /// Waiting for the disassembly.
    Disasm,
    /// Waiting for the ELF information.
    ElfInfo,
    /// Waiting for the full dump.
    Dump,
    /// Waiting for the snapshots to be reviewed.
    Review,
    /// Waiting for the image to be generated.
    Image,
    /// Finished.
    Done,
}

/// What the caller reports back.
pub enum BuildEvent {
    /// What `--version` printed on standard output.
    VersionOutput(String),
    /// Whether the compiler succeeded.
    Compiled(bool),
    /// Snapshot recording is set up.
    SnapshotsReady,
    /// The inspection ran and its output was written (and recorded).
    Inspected,
    /// The snapshots were reviewed.
    Reviewed,
    /// The image was generated.
    Generated,
}

/// What the caller does next.
pub enum BuildAction {
    /// Run `program --version` and report its standard output.
    QueryVersion { program: String },
    /// Run `program` with `args` in the application's directory and report
    /// whether it succeeded (printing its error output when it did not).
    Compile { program: String, args: Vec<String> },
    /// Record snapshots below the application's `snapshot` directory,
    /// described by `description`, without failing on changes.
    SetUpSnapshots { description: String },
    /// Run `program` with `args` in the application's directory, write its
    /// standard output to `output_file` there, and, when a suffix is given,
    /// record it as a snapshot with that suffix.
    Inspect { program: String, args: Vec<String>, output_file: String, snapshot_suffix: Option<String> },
    /// Have the recorded snapshots reviewed.
    ReviewSnapshots,
    /// Generate the image from the ELF named `elf_name`.
    GenerateBin { elf_name: String },
    /// Stop, with this outcome.
    Finish(Result<(), String>),
}

/// How far the build is from its end.
pub open spec fn build_rank(s: BuildState) -> int {
    match s {
        BuildState::Version => 8,
        BuildState::Compile { .. } => 7,
        BuildState::Snapshots => 6,
        BuildState::Disasm => 5,
        BuildState::ElfInfo => 4,
        BuildState::Dump => 3,
        BuildState::Review => 2,
        BuildState::Image => 1,
        BuildState::Done => 0,
    }
}

/// Whether `a` is the inspection with this program, arguments, output file,
/// and a snapshot suffix exactly when snapshots are recorded.
pub open spec fn is_inspection(
    a: BuildAction,
    p: BuildPlan,
    program: Seq<char>,
    args: Seq<Seq<char>>,
    file: Seq<char>,
    suffix: Seq<char>,
) -> bool {
    match a {
        BuildAction::Inspect { program: g, args: v, output_file: f, snapshot_suffix: x } => {
            &&& g@ == program
            &&& views(v@) == args
            &&& f@ == file
            &&& if p.is_insta {
                x matches Some(t) && t@ == suffix
            } else {
                x is None
            }
        },
        _ => false,
    }
}

fn inspection(
    program: &String,
    args: Vec<String>,
    file: &String,
    suffix: &String,
    insta: bool,
) -> (a: BuildAction)
    ensures
        a matches BuildAction::Inspect { program: g, args: v, output_file: f, snapshot_suffix: x }
            && g@ == program@ && v@ == args@ && f@ == file@ && (if insta {
            x matches Some(t) && t@ == suffix@
        } else {
            x is None
        }),
{
    BuildAction::Inspect {
        program: program.clone(),
        args,
        output_file: file.clone(),
        snapshot_suffix: if insta {
            Some(suffix.clone())
        } else {
            None
        },
    }
}

/// The first step of a build: ask the compiler for its version.
pub fn build_start(plan: &BuildPlan) -> (r: (BuildState, BuildAction))
    ensures
        r.0 is Version,
        r.1 matches BuildAction::QueryVersion { program } && program@ == plan.gcc@,
{
    (BuildState::Version, BuildAction::QueryVersion { program: plan.gcc.clone() })
}

/// Whether `e` is the report that state `s` waits for.
pub open spec fn build_event_fits(s: BuildState, e: BuildEvent) -> bool {
    match s {
        BuildState::Version => e matches BuildEvent::VersionOutput(out) && out@.len() > 0,
        BuildState::Compile { .. } => e is Compiled,
        BuildState::Snapshots => e is SnapshotsReady,
        BuildState::Disasm | BuildState::ElfInfo | BuildState::Dump => e is Inspected,
        BuildState::Review => e is Reviewed,
        BuildState::Image => e is Generated,
        BuildState::Done => false,
    }
}

/// One step of building and inspecting an application by `plan`: compile it
/// (a failed compile ends the build with "Failed to compile C file"); set up
/// snapshot recording, described by the first line of the compiler's version
/// banner, when snapshots are on; write its disassembly, ELF information
/// and full dump, recording each as a snapshot when snapshots are on; have
/// the snapshots reviewed when they are on; and last generate its image.
pub fn build_step(plan: &BuildPlan, state: BuildState, event: BuildEvent) -> (r: (
    BuildState,
    BuildAction,
))
    requires
        build_event_fits(state, event),
    ensures
        build_rank(r.0) < build_rank(state),
        r.0 is Done <==> r.1 is Finish,
        match (state, event) {
            (BuildState::Version, BuildEvent::VersionOutput(out)) => {
                &&& r.0 matches BuildState::Compile { version } && spec_first_line(out@) == Some(
                    version@,
                )
                &&& r.1 matches BuildAction::Compile { program, args } && program@ == plan.gcc@
                    && views(args@) == views(plan.gcc_args@)
            },
            (BuildState::Compile { version }, BuildEvent::Compiled(ok)) => if !ok {
                r.1 matches BuildAction::Finish(Err(e)) && e@ == "Failed to compile C file"@
            } else if plan.is_insta {
                r.0 is Snapshots && (r.1 matches BuildAction::SetUpSnapshots { description }
                    && description@ == version@)
            } else {
                r.0 is Disasm && is_inspection(
                    r.1,
                    *plan,
                    plan.objdump@,
                    seq!["-d"@, plan.elf_output@],
                    plan.disasm_file@,
                    plan.disasm_suffix@,
                )
            },
            (BuildState::Snapshots, BuildEvent::SnapshotsReady) => r.0 is Disasm && is_inspection(
                r.1,
                *plan,
                plan.objdump@,
                seq!["-d"@, plan.elf_output@],
                plan.disasm_file@,
                plan.disasm_suffix@,
            ),
            (BuildState::Disasm, BuildEvent::Inspected) => r.0 is ElfInfo && is_inspection(
                r.1,
                *plan,
                plan.readelf@,
                seq!["-a"@, plan.elf_output@],
                plan.elf_info_file@,
                plan.elf_info_suffix@,
            ),
            (BuildState::ElfInfo, BuildEvent::Inspected) => r.0 is Dump && is_inspection(
                r.1,
                *plan,
                plan.objdump@,
                seq!["-x"@, "-d"@, plan.elf_output@],
                plan.dump_file@,
                plan.dump_suffix@,
            ),
            (BuildState::Dump, BuildEvent::Inspected) => if plan.is_insta {
                r.0 is Review && r.1 is ReviewSnapshots
            } else {
                r.0 is Image && (r.1 matches BuildAction::GenerateBin { elf_name } && elf_name@
                    == plan.elf_output@)
            },
            (BuildState::Review, BuildEvent::Reviewed) => r.0 is Image && (
            r.1 matches BuildAction::GenerateBin { elf_name } && elf_name@ == plan.elf_output@),
            (BuildState::Image, BuildEvent::Generated) => r.1 matches BuildAction::Finish(Ok(())),
            _ => false,
        },
{
    match (state, event) {
        (BuildState::Version, BuildEvent::VersionOutput(out)) => {
            let version = match first_line(out.as_str()) {
                Some(l) => l,
                None => String::new(),
            };
            (
                BuildState::Compile { version },
                BuildAction::Compile {
                    program: plan.gcc.clone(),
                    args: crate::config::clone_strings(&plan.gcc_args),
                },
            )
        },
        (BuildState::Compile { version }, BuildEvent::Compiled(ok)) => {
            if !ok {
                (BuildState::Done, BuildAction::Finish(Err("Failed to compile C file".to_owned())))
            } else if plan.is_insta {
                (BuildState::Snapshots, BuildAction::SetUpSnapshots { description: version })
            } else {
                (
                    BuildState::Disasm,
                    inspection(
                        &plan.objdump,
                        strings2("-d", plan.elf_output.as_str()),
                        &plan.disasm_file,
                        &plan.disasm_suffix,
                        plan.is_insta,
                    ),
                )
            }
        },
        (BuildState::Snapshots, _) => (
            BuildState::Disasm,
            inspection(
                &plan.objdump,
                strings2("-d", plan.elf_output.as_str()),
                &plan.disasm_file,
                &plan.disasm_suffix,
                plan.is_insta,
            ),
        ),
        (BuildState::Disasm, _) => (
            BuildState::ElfInfo,
            inspection(
                &plan.readelf,
                strings2("-a", plan.elf_output.as_str()),
                &plan.elf_info_file,
                &plan.elf_info_suffix,
                plan.is_insta,
            ),
        ),
        (BuildState::ElfInfo, _) => {
            let mut a: Vec<String> = Vec::new();
            a.push("-x".to_owned());
            a.push("-d".to_owned());
            a.push(plan.elf_output.clone());
            assert(views(a@) =~= seq!["-x"@, "-d"@, plan.elf_output@]);
            (
                BuildState::Dump,
                inspection(&plan.objdump, a, &plan.dump_file, &plan.dump_suffix, plan.is_insta),
            )
        },
        (BuildState::Dump, _) => {
            if plan.is_insta {
                (BuildState::Review, BuildAction::ReviewSnapshots)
            } else {
                (BuildState::Image, BuildAction::GenerateBin { elf_name: plan.elf_output.clone() })
            }
        },
        (BuildState::Review, _) => {
            (BuildState::Image, BuildAction::GenerateBin { elf_name: plan.elf_output.clone() })
        },
        (_, _) => (BuildState::Done, BuildAction::Finish(Ok(()))),
    }
}

} // verus!
