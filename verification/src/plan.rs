//! The tester's decisions: which apps and link types to run, how each test
//! prepares its binary, and how an application is compiled and inspected.

use vstd::prelude::*;
use crate::config::{Args, Config, clone_strings, views};
use crate::text::{before_first, chars_of, split_first, str_eq};

verus! {

/// How an application is linked.
#[derive(PartialEq, Eq, Structural, Clone, Copy)]
pub enum LinkType {
    Dynamic,
    Static,
    All,
}

/// The link type named by `s`: "dynamic", "static" or "all"; `None` for any other text.
pub fn parse_link_type(s: &str) -> (r: Option<LinkType>)
    ensures
        r == if s@ == "dynamic"@ {
            Some(LinkType::Dynamic)
        } else if s@ == "static"@ {
            Some(LinkType::Static)
        } else if s@ == "all"@ {
            Some(LinkType::All)
        } else {
            None
        },
{
    if str_eq(s, "dynamic") {
        Some(LinkType::Dynamic)
    } else if str_eq(s, "static") {
        Some(LinkType::Static)
    } else if str_eq(s, "all") {
        Some(LinkType::All)
    } else {
        None
    }
}

/// The link types an application's configuration allows: its `ttype`, or
/// "all" when the application has no configuration.
pub open spec fn configured_ttype(config: Option<Config>) -> Seq<char> {
    match config {
        Some(c) => c.dev.ttype.unwrap()@,
        None => "all"@,
    }
}

/// The link type tested when none is requested: the configured one, or
/// "dynamic" (the default test type) when the application has no configuration.
pub open spec fn default_ttype(config: Option<Config>) -> Seq<char> {
    match config {
        Some(c) => c.dev.ttype.unwrap()@,
        None => "dynamic"@,
    }
}

/// The characters of an optional string.
pub open spec fn opt_view(o: Option<String>) -> Option<Seq<char>> {
    match o {
        Some(s) => Some(s@),
        None => None,
    }
}

/// The characters of a result of strings.
pub open spec fn result_view(r: Result<String, String>) -> Result<Seq<char>, Seq<char>> {
    match r {
        Ok(s) => Ok(s@),
        Err(e) => Err(e@),
    }
}

/// The choice `choose_ttype` makes, over the characters of its inputs.
pub open spec fn spec_choose_ttype(config: Option<Config>, requested: Option<Seq<char>>) -> Result<
    Seq<char>,
    Seq<char>,
> {
    match requested {
        None => Ok(default_ttype(config)),
        Some(q) => if q == configured_ttype(config) || configured_ttype(config) == "all"@ {
            Ok(q)
        } else {
            Err(q)
        },
    }
}

/// An application without configuration may be tested with any link type:
/// every request is accepted as it is.
pub proof fn law_no_config_accepts_any_request(q: Seq<char>)
    ensures
        spec_choose_ttype(None, Some(q)) == Ok::<Seq<char>, Seq<char>>(q),
{
}

/// A request equal to the configured link type is always accepted, and a
/// request is refused only when it differs from a configured link type
/// other than "all".
pub proof fn law_ttype_request_refusal(config: Option<Config>, q: Seq<char>)
    requires
        config matches Some(c) ==> c.dev.ttype is Some,
    ensures
        spec_choose_ttype(config, Some(q)) is Err <==> (config matches Some(c) && c.dev.ttype.unwrap()@
            != q && c.dev.ttype.unwrap()@ != "all"@),
        spec_choose_ttype(config, Some(q)) matches Ok(t) ==> t == q,
{
}

/// Without a request, an application is tested with its configured link
/// type, or dynamically linked when it has no configuration.
pub proof fn law_default_ttype(config: Option<Config>)
    ensures
        spec_choose_ttype(config, None) == Ok::<Seq<char>, Seq<char>>(
            match config {
                Some(c) => c.dev.ttype.unwrap()@,
                None => "dynamic"@,
            },
        ),
{
}

/// The link type to test: the one requested on the command line when it
/// agrees with the configuration (or the configuration allows all), the
/// default one when none is requested; a request the configuration does
/// not allow is refused as `Err` holding the request.
pub fn choose_ttype(config: &Option<Config>, requested: &Option<String>) -> (r: Result<String, String>)
    requires
        config matches Some(c) ==> c.dev.ttype is Some,
    ensures
        result_view(r) == spec_choose_ttype(*config, opt_view(*requested)),
        match requested {
            None => r matches Ok(t) && t@ == default_ttype(*config),
            Some(q) => if q@ == configured_ttype(*config) || configured_ttype(*config) == "all"@ {
                r matches Ok(t) && t@ == q@
            } else {
                r matches Err(e) && e@ == q@
            },
        },
{
    let base: String = match config {
        Some(c) => match &c.dev.ttype {
            Some(t) => t.clone(),
            None => "all".to_owned(),
        },
        None => "all".to_owned(),
    };
    match requested {
        None => match config {
            Some(_) => Ok(base),
            None => Ok("dynamic".to_owned()),
        },
        Some(q) => {
            if str_eq(q.as_str(), base.as_str()) || str_eq(base.as_str(), "all") {
                Ok(q.clone())
            } else {
                Err(q.clone())
            }
        },
    }
}

/// Whether every application is tested: when "all" is asked for, or when the
/// `CI` environment variable is set.
pub fn runs_all_apps(app: &str, ci_set: bool) -> (r: bool)
    ensures
        r == (app@ == "all"@ || ci_set),
{
    str_eq(app, "all") || ci_set
}

/// The arguments each application is tested with when all are run.
pub fn app_args(app: String) -> (a: Args)
    ensures
        a.arch@ == "riscv64"@,
        a.log@ == "warn"@,
        a.qemu_log@ == "n"@,
        a.ttype is None,
        !a.snapshot,
        !a.skip,
        a.app == app,
        a.blk@ == "y"@,
{
    Args {
        arch: "riscv64".to_owned(),
        log: "warn".to_owned(),
        qemu_log: "n".to_owned(),
        ttype: None,
        snapshot: false,
        skip: false,
        app,
        blk: "y".to_owned(),
    }
}

/// The summary row of one application: its name and "OK", or its name and
/// the error it failed with.
pub fn app_row(name: String, outcome: &Result<(), String>) -> (row: Vec<String>)
    ensures
        row@.len() == 2,
        row@[0] == name,
        row@[1]@ == match outcome {
            Ok(_) => "OK"@,
            Err(e) => e@,
        },
{
    let status = match outcome {
        Ok(_) => "OK".to_owned(),
        Err(e) => e.clone(),
    };
    let mut row: Vec<String> = Vec::new();
    row.push(name);
    row.push(status);
    row
}

/// Whether some application's status is not "OK" (then the run fails).
pub fn any_failed(rows: &Vec<Vec<String>>) -> (r: bool)
    requires
        forall|i: int| 0 <= i < rows@.len() ==> #[trigger] rows@[i]@.len() >= 2,
    ensures
        r == exists|i: int| 0 <= i < rows@.len() && #[trigger] rows@[i]@[1]@ != "OK"@,
{
    let mut k: usize = 0;
    while k < rows.len()
        invariant
            k <= rows@.len(),
            forall|i: int| 0 <= i < rows@.len() ==> #[trigger] rows@[i]@.len() >= 2,
            forall|i: int| 0 <= i < k ==> #[trigger] rows@[i]@[1]@ == "OK"@,
        decreases rows.len() - k,
    {
        if !str_eq(rows[k][1].as_str(), "OK") {
            return true;
        }
        k += 1;
    }
    false
}

/// How a test gets its binary before it runs.
pub enum Prepare {
    /// Compile the application, dynamically or statically linked.
    Build { dynamic: bool },
    /// Reuse the already built ELF of this name and only regenerate the image.
    GenerateBin { elf_name: String },
}

/// What a test does: prepare the binary in the application's directory
/// (given as the path components to join), then run it.
pub struct TestPlan {
    pub app_path: Vec<String>,
    pub prepare: Prepare,
}

/// The path components of an application's directory: the root, "payload", the app.
pub open spec fn app_path_spec(current_dir: Seq<char>, app: Seq<char>) -> Seq<Seq<char>> {
    seq![current_dir, "payload"@, app]
}

/// A test runs in the directory `payload` below the root, named exactly by
/// the application argument.
pub proof fn law_app_path(current_dir: Seq<char>, app: Seq<char>)
    ensures
        app_path_spec(current_dir, app).len() == 3,
        app_path_spec(current_dir, app)[0] == current_dir,
        app_path_spec(current_dir, app)[1] == "payload"@,
        app_path_spec(current_dir, app)[2] == app,
{
}

fn app_path(current_dir: &String, app: &String) -> (r: Vec<String>)
    ensures
        views(r@) == app_path_spec(current_dir@, app@),
{
    let mut r: Vec<String> = Vec::new();
    r.push(current_dir.clone());
    r.push("payload".to_owned());
    r.push(app.clone());
    assert(views(r@) =~= app_path_spec(current_dir@, app@));
    r
}

/// The static test of an application: build it statically linked, then run it.
pub fn static_test(args: &Args, current_dir: &String, config: &Option<Config>) -> (p: TestPlan)
    ensures
        views(p.app_path@) == app_path_spec(current_dir@, args.app@),
        p.prepare matches Prepare::Build { dynamic } && !dynamic,
{
    TestPlan { app_path: app_path(current_dir, &args.app), prepare: Prepare::Build { dynamic: false } }
}

/// The dynamic test of an application: build it dynamically linked, or, when
/// the build is skipped, regenerate the image from the ELF named by the
/// configuration's `rename`; then run it.
pub fn dynamic_test(args: &Args, current_dir: &String, config: &Option<Config>) -> (p: TestPlan)
    requires
        args.skip ==> (config matches Some(c) && c.dev.rename is Some),
    ensures
        views(p.app_path@) == app_path_spec(current_dir@, args.app@),
        !args.skip ==> (p.prepare matches Prepare::Build { dynamic } && dynamic),
        args.skip ==> (p.prepare matches Prepare::GenerateBin { elf_name } && elf_name@
            == config.unwrap().dev.rename.unwrap()@),
{
    let path = app_path(current_dir, &args.app);
    if !args.skip {
        TestPlan { app_path: path, prepare: Prepare::Build { dynamic: true } }
    } else {
        let name = match config {
            Some(c) => match &c.dev.rename {
                Some(r) => r.clone(),
                None => String::new(),
            },
            None => String::new(),
        };
        TestPlan { app_path: path, prepare: Prepare::GenerateBin { elf_name: name } }
    }
}

/// The workspace root: the tester's manifest directory with its trailing
/// `xtask` removed; `None` when the directory does not end in `xtask`.
pub fn workspace_root(manifest_dir: &str) -> (r: Option<String>)
    ensures
        match r {
            Some(root) => manifest_dir@ == root@ + "xtask"@,
            None => !(manifest_dir@.len() >= 5 && manifest_dir@.subrange(
                manifest_dir@.len() - 5,
                manifest_dir@.len() as int,
            ) == "xtask"@),
        },
{
    let c = chars_of(manifest_dir);
    let suffix = chars_of("xtask");
    let n = c.len();
    if n < suffix.len() {
        return None;
    }
    let cut = n - suffix.len();
    let mut k: usize = 0;
    while k < suffix.len()
        invariant
            c@ == manifest_dir@,
            suffix@ == "xtask"@,
            cut + suffix@.len() == c@.len(),
            c@.len() == c.len(),
            k <= suffix@.len(),
            forall|j: int| 0 <= j < k ==> c@[cut + j] == suffix@[j],
        decreases suffix.len() - k,
    {
        if c[cut + k] != suffix[k] {
            assert(c@.subrange(cut as int, c@.len() as int)[k as int] != suffix@[k as int]);
            return None;
        }
        k += 1;
    }
    let root = manifest_dir.substring_char(0, cut).to_owned();
    assert(c@ =~= c@.subrange(0, cut as int) + suffix@);
    Some(root)
}

/// Whether the tool prefix depends on finding the cross compiler on `PATH`:
/// only when neither `CC` nor `CI` is set.
pub fn needs_gcc_probe(cc: &Option<String>, ci_set: bool) -> (r: bool)
    ensures
        r == (cc is None && !ci_set),
{
    cc.is_none() && !ci_set
}

/// Where the bundled cross toolchain's binaries lie, below the workspace root.
pub open spec fn musl_bin_dir() -> Seq<char> {
    "xtask/riscv64-linux-musl-cross/bin/"@
}

/// The prefix put before the cross binary utilities' names (`objdump`,
/// `readelf`, and the compiler when `CC` does not name one): the value of
/// `CC` when it is set; nothing when running under CI or when the compiler is
/// on `PATH`; otherwise the bundled toolchain below the workspace root `root`.
pub fn tool_prefix(cc: &Option<String>, ci_set: bool, gcc_on_path: bool, root: &str) -> (r: String)
    ensures
        r@ == match cc {
            Some(v) => v@,
            None => if ci_set || gcc_on_path {
                Seq::<char>::empty()
            } else {
                root@ + "/"@ + musl_bin_dir()
            },
        },
{
    match cc {
        Some(v) => v.clone(),
        None => {
            if ci_set || gcc_on_path {
                String::new()
            } else {
                root.to_owned().concat("/").concat("xtask/riscv64-linux-musl-cross/bin/")
            }
        },
    }
}

/// The link flags used when the configuration gives none: `-fPIE` for a
/// dynamic build, nothing for a static one.
pub open spec fn default_flags(dynamic: bool) -> Seq<Seq<char>> {
    if dynamic {
        seq!["-fPIE"@]
    } else {
        Seq::empty()
    }
}

fn default_flag_list(dynamic: bool) -> (r: Vec<String>)
    ensures
        views(r@) == default_flags(dynamic),
{
    let mut r: Vec<String> = Vec::new();
    if dynamic {
        r.push("-fPIE".to_owned());
    }
    assert(views(r@) =~= default_flags(dynamic));
    r
}

/// The flags for the chosen link type: the configuration's, or the default
/// ones when it gives none.
pub open spec fn configured_flags(config: Option<Config>, dynamic: bool) -> Seq<Seq<char>> {
    match config {
        Some(c) => {
            let f = if dynamic { c.dev.dynamic_flags } else { c.dev.static_flags };
            match f {
                Some(v) => views(v@),
                None => default_flags(dynamic),
            }
        },
        None => default_flags(dynamic),
    }
}

/// The name the ELF is built under: the configuration's `rename`, or else the
/// application's name (its directory name up to the first `_`).
pub open spec fn output_name(dir_name: Seq<char>, config: Option<Config>) -> Seq<char> {
    match config {
        Some(c) => match c.dev.rename {
            Some(r) => r@,
            None => before_first(dir_name, '_'),
        },
        None => before_first(dir_name, '_'),
    }
}

/// Link flags given in the configuration replace the defaults; without them
/// a dynamic build is position independent (`-fPIE`) and a static build
/// gets no flags.
pub proof fn law_link_flags(config: Option<Config>, dynamic: bool)
    ensures
        configured_flags(config, dynamic) == match config {
            Some(c) => match (if dynamic { c.dev.dynamic_flags } else { c.dev.static_flags }) {
                Some(v) => views(v@),
                None => if dynamic { seq!["-fPIE"@] } else { Seq::<Seq<char>>::empty() },
            },
            None => if dynamic { seq!["-fPIE"@] } else { Seq::<Seq<char>>::empty() },
        },
{
}

/// Without a rename the ELF is named after the application: the longest
/// start of the directory name that holds no `_`, which is the whole name
/// or is followed by `_`.
pub proof fn law_output_name_without_rename(dir_name: Seq<char>, config: Option<Config>)
    requires
        config matches Some(c) ==> c.dev.rename is None,
    ensures
        output_name(dir_name, config).len() <= dir_name.len(),
        output_name(dir_name, config) == dir_name.take(output_name(dir_name, config).len() as int),
        !output_name(dir_name, config).contains('_'),
        output_name(dir_name, config).len() == dir_name.len() || dir_name[output_name(
            dir_name,
            config,
        ).len() as int] == '_',
{
    crate::text::lemma_first_index_bounds(dir_name, '_');
    let k = crate::text::first_index(dir_name, '_');
    let o = output_name(dir_name, config);
    assert(o == dir_name.take(k));
    if k < dir_name.len() {
        crate::text::lemma_first_index_hit(dir_name, '_');
    }
    assert forall|j: int| 0 <= j < o.len() implies #[trigger] o[j] != '_' by {
        assert(o[j] == dir_name[j]);
    }
}

/// Everything that building and inspecting one application involves.
pub struct BuildPlan {
    /// The application's name: its directory name up to the first `_`.
    pub elf_file: String,
    /// The name of the ELF the compiler writes.
    pub elf_output: String,
    /// The C compiler to run.
    pub gcc: String,
    /// The compiler's arguments.
    pub gcc_args: Vec<String>,
    /// The disassembler to run.
    pub objdump: String,
    /// The ELF inspector to run.
    pub readelf: String,
    /// Whether the outputs are recorded as snapshots.
    pub is_insta: bool,
    /// "dynamic" or "static".
    pub t_type: String,
    /// Files the disassembly, ELF information and full dump are written to.
    pub disasm_file: String,
    pub elf_info_file: String,
    pub dump_file: String,
    /// Snapshot suffixes of the same three outputs.
    pub disasm_suffix: String,
    pub elf_info_suffix: String,
    pub dump_suffix: String,
}

/// The plan for building the application in the directory named `dir_name`,
/// dynamically linked when `ttype` holds, with the compiler named by `CC`
/// (`cc`) when that is set, and the cross tools under `tools` otherwise.
pub fn build(dir_name: &str, ttype: bool, config: &Option<Config>, cc: &Option<String>, tools: &str) -> (p: BuildPlan)
    ensures
        p.elf_file@ == before_first(dir_name@, '_'),
        p.elf_output@ == output_name(dir_name@, *config),
        p.gcc@ == match cc {
            Some(c) => c@,
            None => tools@ + "riscv64-linux-musl-gcc"@,
        },
        views(p.gcc_args@) == seq!["-v"@, output_name(dir_name@, *config) + ".c"@]
            + configured_flags(*config, ttype) + seq!["-o"@, output_name(dir_name@, *config)],
        p.objdump@ == tools@ + "riscv64-linux-musl-objdump"@,
        p.readelf@ == tools@ + "riscv64-linux-musl-readelf"@,
        p.is_insta == (config matches Some(c) && c.dev.snapshot == Some(true)),
        p.t_type@ == if ttype { "dynamic"@ } else { "static"@ },
        p.disasm_file@ == before_first(dir_name@, '_') + ".S"@,
        p.elf_info_file@ == before_first(dir_name@, '_') + ".elf"@,
        p.dump_file@ == before_first(dir_name@, '_') + ".dump"@,
        p.disasm_suffix@ == before_first(dir_name@, '_') + "_"@ + p.t_type@ + ".S"@,
        p.elf_info_suffix@ == before_first(dir_name@, '_') + "_"@ + p.t_type@ + ".elf"@,
        p.dump_suffix@ == before_first(dir_name@, '_') + "_"@ + p.t_type@ + ".dump"@,
{
    let elf_file = split_first(dir_name, '_');
    let rename: String = match config {
        Some(c) => match &c.dev.rename {
            Some(r) => r.clone(),
            None => elf_file.clone(),
        },
        None => elf_file.clone(),
    };
    let flags: Vec<String> = match config {
        Some(c) => {
            let f = if ttype { &c.dev.dynamic_flags } else { &c.dev.static_flags };
            match f {
                Some(v) => clone_strings(v),
                None => default_flag_list(ttype),
            }
        },
        None => default_flag_list(ttype),
    };
    assert(views(flags@) == configured_flags(*config, ttype));
    let mut gcc_args: Vec<String> = Vec::new();
    gcc_args.push("-v".to_owned());
    gcc_args.push(rename.clone().concat(".c"));
    let mut k: usize = 0;
    while k < flags.len()
        invariant
            k <= flags@.len(),
            gcc_args@.len() == 2 + k,
            views(gcc_args@) == seq!["-v"@, rename@ + ".c"@] + views(flags@).take(k as int),
        decreases flags.len() - k,
    {
        let ghost before = gcc_args@;
        gcc_args.push(flags[k].clone());
        k += 1;
        assert forall|j: int| 0 <= j < 2 + k implies #[trigger] views(gcc_args@)[j] == (seq![
            "-v"@,
            rename@ + ".c"@,
        ] + views(flags@).take(k as int))[j] by {
            if j < 1 + k {
                assert(gcc_args@[j] == before[j]);
                assert(views(before)[j] == (seq!["-v"@, rename@ + ".c"@] + views(flags@).take(
                    k - 1,
                ))[j]);
            }
        }
        assert(views(gcc_args@) =~= seq!["-v"@, rename@ + ".c"@] + views(flags@).take(k as int));
    }
    let ghost before = gcc_args@;
    gcc_args.push("-o".to_owned());
    gcc_args.push(rename.clone());
    assert(views(flags@).take(k as int) =~= views(flags@));
    assert forall|j: int| 0 <= j < gcc_args@.len() implies #[trigger] views(gcc_args@)[j] == (seq![
        "-v"@,
        rename@ + ".c"@,
    ] + views(flags@) + seq!["-o"@, rename@])[j] by {
        if j < before.len() {
            assert(gcc_args@[j] == before[j]);
            assert(views(before)[j] == (seq!["-v"@, rename@ + ".c"@] + views(flags@))[j]);
        }
    }
    assert(views(gcc_args@) =~= seq!["-v"@, rename@ + ".c"@] + views(flags@) + seq![
        "-o"@,
        rename@,
    ]);
    let is_insta = match config {
        Some(c) => match c.dev.snapshot {
            Some(b) => b,
            None => false,
        },
        None => false,
    };
    let t_type: String = if ttype { "dynamic".to_owned() } else { "static".to_owned() };
    let stem = elf_file.clone().concat("_").concat(t_type.as_str());
    BuildPlan {
        gcc: match cc {
            Some(c) => c.clone(),
            None => tools.to_owned().concat("riscv64-linux-musl-gcc"),
        },
        objdump: tools.to_owned().concat("riscv64-linux-musl-objdump"),
        readelf: tools.to_owned().concat("riscv64-linux-musl-readelf"),
        gcc_args,
        is_insta,
        disasm_file: elf_file.clone().concat(".S"),
        elf_info_file: elf_file.clone().concat(".elf"),
        dump_file: elf_file.clone().concat(".dump"),
        disasm_suffix: stem.clone().concat(".S"),
        elf_info_suffix: stem.clone().concat(".elf"),
        dump_suffix: stem.concat(".dump"),
        t_type,
        elf_output: rename,
        elf_file,
    }
}

} // verus!
