use arceos_tools::config::{Args, Config, DevConfig};
use arceos_tools::plan::{
    any_failed, app_args, app_row, build, choose_ttype, dynamic_test, needs_gcc_probe,
    parse_link_type, runs_all_apps, static_test, tool_prefix, workspace_root, LinkType, Prepare,
};

fn s(x: &str) -> String {
    x.to_string()
}

fn config(ttype: Option<&str>) -> Config {
    Config {
        dev: DevConfig {
            rename: None,
            ttype: ttype.map(s),
            dynamic_flags: None,
            static_flags: None,
            snapshot: None,
        },
    }
}

fn args(app: &str, skip: bool) -> Args {
    Args {
        arch: s("riscv64"),
        log: s("warn"),
        qemu_log: s("n"),
        ttype: None,
        snapshot: false,
        skip,
        blk: s("n"),
        app: s(app),
    }
}

#[test]
fn link_types_by_name() {
    assert!(parse_link_type("dynamic") == Some(LinkType::Dynamic));
    assert!(parse_link_type("static") == Some(LinkType::Static));
    assert!(parse_link_type("all") == Some(LinkType::All));
    assert!(parse_link_type("Static") == None);
    assert!(parse_link_type("") == None);
}

#[test]
fn ttype_without_request_follows_config() {
    assert_eq!(choose_ttype(&None, &None), Ok(s("dynamic")));
    assert_eq!(choose_ttype(&Some(config(Some("static"))), &None), Ok(s("static")));
}

#[test]
fn ttype_request_must_agree_with_config() {
    assert_eq!(choose_ttype(&None, &Some(s("dynamic"))), Ok(s("dynamic")));
    assert_eq!(choose_ttype(&Some(config(Some("all"))), &Some(s("static"))), Ok(s("static")));
    assert_eq!(choose_ttype(&Some(config(Some("static"))), &Some(s("static"))), Ok(s("static")));
    assert_eq!(choose_ttype(&Some(config(Some("static"))), &Some(s("dynamic"))), Err(s("dynamic")));
}

#[test]
fn all_apps_run_on_request_or_under_ci() {
    assert!(runs_all_apps("all", false));
    assert!(runs_all_apps("hello", true));
    assert!(!runs_all_apps("hello", false));
}

#[test]
fn per_app_arguments() {
    let a = app_args(s("hello_c"));
    assert_eq!(a.arch, "riscv64");
    assert_eq!(a.log, "warn");
    assert_eq!(a.qemu_log, "n");
    assert_eq!(a.ttype, None);
    assert!(!a.snapshot && !a.skip);
    assert_eq!(a.blk, "y");
    assert_eq!(a.app, "hello_c");
}

#[test]
fn summary_rows_and_failure() {
    let ok = app_row(s("a"), &Ok(()));
    let bad = app_row(s("b"), &Err(s("make defconfig failed")));
    assert_eq!(ok, vec![s("a"), s("OK")]);
    assert_eq!(bad, vec![s("b"), s("make defconfig failed")]);
    assert!(!any_failed(&vec![ok.clone()]));
    assert!(any_failed(&vec![ok, bad]));
    assert!(!any_failed(&vec![]));
}

#[test]
fn static_and_dynamic_test_plans() {
    let root = s("/ws");
    let p = static_test(&args("hello", false), &root, &None);
    assert_eq!(p.app_path, vec![s("/ws"), s("payload"), s("hello")]);
    assert!(matches!(p.prepare, Prepare::Build { dynamic: false }));
    let d = dynamic_test(&args("hello", false), &root, &None);
    assert!(matches!(d.prepare, Prepare::Build { dynamic: true }));
    let mut c = config(Some("dynamic"));
    c.dev.rename = Some(s("hello_elf"));
    let g = dynamic_test(&args("hello", true), &root, &Some(c));
    match g.prepare {
        Prepare::GenerateBin { elf_name } => assert_eq!(elf_name, "hello_elf"),
        _ => panic!("expected an image regeneration"),
    }
}

#[test]
fn tool_prefix_choices() {
    assert!(needs_gcc_probe(&None, false));
    assert!(!needs_gcc_probe(&None, true));
    assert!(!needs_gcc_probe(&Some(s("cc")), false));
    assert_eq!(tool_prefix(&Some(s("/opt/x-")), false, false, "/ws"), "/opt/x-");
    assert_eq!(tool_prefix(&None, true, false, "/ws"), "");
    assert_eq!(tool_prefix(&None, false, true, "/ws"), "");
    assert_eq!(
        tool_prefix(&None, false, false, "/ws"),
        "/ws/xtask/riscv64-linux-musl-cross/bin/"
    );
}

#[test]
fn build_plan_without_config() {
    let p = build("hello_world", true, &None, &None, "/t/");
    assert_eq!(p.elf_file, "hello");
    assert_eq!(p.elf_output, "hello");
    assert_eq!(p.gcc, "/t/riscv64-linux-musl-gcc");
    assert_eq!(p.gcc_args, vec![s("-v"), s("hello.c"), s("-fPIE"), s("-o"), s("hello")]);
    assert_eq!(p.objdump, "/t/riscv64-linux-musl-objdump");
    assert_eq!(p.readelf, "/t/riscv64-linux-musl-readelf");
    assert!(!p.is_insta);
    assert_eq!(p.t_type, "dynamic");
    assert_eq!(p.disasm_file, "hello.S");
    assert_eq!(p.elf_info_file, "hello.elf");
    assert_eq!(p.dump_file, "hello.dump");
    assert_eq!(p.disasm_suffix, "hello_dynamic.S");
    assert_eq!(p.elf_info_suffix, "hello_dynamic.elf");
    assert_eq!(p.dump_suffix, "hello_dynamic.dump");
}

#[test]
fn build_plan_with_config() {
    let c = Config {
        dev: DevConfig {
            rename: Some(s("prog")),
            ttype: None,
            dynamic_flags: Some(vec![s("-dyn")]),
            static_flags: Some(vec![s("-static"), s("-O2")]),
            snapshot: Some(true),
        },
    };
    let p = build("demo", false, &Some(c), &None, "");
    assert_eq!(p.elf_file, "demo");
    assert_eq!(p.elf_output, "prog");
    assert_eq!(p.gcc, "riscv64-linux-musl-gcc");
    assert_eq!(p.gcc_args, vec![s("-v"), s("prog.c"), s("-static"), s("-O2"), s("-o"), s("prog")]);
    assert!(p.is_insta);
    assert_eq!(p.t_type, "static");
    assert_eq!(p.disasm_suffix, "demo_static.S");
}

#[test]
fn workspace_root_strips_xtask() {
    assert_eq!(workspace_root("/home/u/arceos/xtask"), Some(s("/home/u/arceos/")));
    assert_eq!(workspace_root("xtask"), Some(s("")));
    assert_eq!(workspace_root("/home/u/arceos"), None);
    assert_eq!(workspace_root("task"), None);
}

#[test]
fn build_plan_defaults_and_cc() {
    let st = build("hello", false, &None, &None, "");
    assert_eq!(st.gcc_args, vec![s("-v"), s("hello.c"), s("-o"), s("hello")]);
    let mut c = config(None);
    c.dev.dynamic_flags = Some(vec![]);
    let d = build("hello", true, &Some(c), &None, "");
    assert_eq!(d.gcc_args, vec![s("-v"), s("hello.c"), s("-o"), s("hello")]);
    let cc = Some(s("/path/to/gcc"));
    let prefix = tool_prefix(&cc, false, false, "/ws");
    let p = build("hello", true, &None, &cc, &prefix);
    assert_eq!(p.gcc, "/path/to/gcc");
}
