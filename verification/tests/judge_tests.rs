use arceos_tools::judge::test_judge;

const FAIL: &str = "\x1b[41mFAIL\x1b[0m";

#[test]
fn passing_output_is_not_judged_failed() {
    assert_eq!(test_judge(b"booting\nhello\nall good\n"), None);
    assert_eq!(test_judge(b""), None);
}

#[test]
fn failure_marker_line_is_reported() {
    let out = format!("booting\ncase 1 {}\nmore output\n", FAIL);
    assert_eq!(test_judge(out.as_bytes()), Some(format!("case 1 {}", FAIL)));
}

#[test]
fn error_coloured_line_gets_colour_reset() {
    let out = b"start\n\x1b[31m[ERROR] page fault\nnext\n";
    assert_eq!(test_judge(out), Some("\x1b[31m[ERROR] page fault\x1b[m".to_string()));
}

#[test]
fn directory_notice_is_not_a_failure() {
    let out = b"\x1b[31mls: /dev: Is a directory\nok\n";
    assert_eq!(test_judge(out), None);
}

#[test]
fn first_deciding_line_wins() {
    let out = format!("\x1b[31mfirst error\n{}\n", FAIL);
    assert_eq!(test_judge(out.as_bytes()), Some("\x1b[31mfirst error\x1b[m".to_string()));
}

#[test]
fn unterminated_last_line_counts_only_for_failure_marker() {
    let out = format!("line\n{} at end", FAIL);
    assert_eq!(test_judge(out.as_bytes()), Some(format!("{} at end", FAIL)));
    assert_eq!(test_judge(b"line\n\x1b[31merror at end"), None);
}

#[test]
fn invalid_utf8_is_replaced() {
    let mut out = vec![0xffu8];
    out.extend_from_slice(FAIL.as_bytes());
    out.push(b'\n');
    assert_eq!(test_judge(&out), Some(format!("\u{fffd}{}", FAIL)));
}

#[test]
fn later_output_does_not_change_a_verdict() {
    let first = format!("a\n{}\n", FAIL);
    let mut both = first.clone();
    both.push_str("\x1b[31mother\nz");
    assert_eq!(test_judge(both.as_bytes()), test_judge(first.as_bytes()));
    // with no verdict on the first part, judging resumes on the new lines
    let quiet = "a\nb\n".to_string();
    let mut more = quiet.clone();
    more.push_str("\x1b[31mlate\n");
    assert_eq!(test_judge(quiet.as_bytes()), None);
    assert_eq!(test_judge(more.as_bytes()), Some("\x1b[31mlate\x1b[m".to_string()));
}

#[test]
fn output_without_markers_passes() {
    assert_eq!(test_judge(b"\x1b[32mgreen\n\x1b[0m reset\nFAIL plain\n"), None);
}

#[test]
fn judging_resumes_on_new_bytes_alone() {
    let first = b"quiet\n".to_vec();
    let rest = format!("x\n{}", FAIL).into_bytes();
    let mut both = first.clone();
    both.extend_from_slice(&rest);
    assert_eq!(test_judge(&first), None);
    assert_eq!(test_judge(&both), test_judge(&rest));
    assert_eq!(test_judge(&rest), Some(FAIL.to_string()));
}

#[test]
fn reported_ascii_line_is_one_marked_line() {
    let out = format!("x\n\x1b[31mred {}\nz\n", "text");
    let v = test_judge(out.as_bytes()).unwrap();
    assert!(!v.contains('\n'));
    assert!(v.contains("\x1b[31m"));
    let out2 = format!("a\nb {} c\n", FAIL);
    let v2 = test_judge(out2.as_bytes()).unwrap();
    assert!(!v2.contains('\n') && v2.contains(FAIL));
}
