use conformance_harness::report::{indent_lines, write_error_chain, FullError};

fn chain(list: &[&str]) -> Vec<String> {
    list.iter().map(|s| s.to_string()).collect()
}

#[test]
fn lines_after_the_first_are_indented() {
    assert_eq!(indent_lines("", 2), "");
    assert_eq!(indent_lines("one", 2), "one");
    assert_eq!(indent_lines("one\ntwo\nthree", 2), "one\n  two\n  three");
    assert_eq!(indent_lines("one\r\ntwo\n", 6), "one\n      two");
    assert_eq!(indent_lines("one\n\ntwo", 0), "one\n\ntwo");
}

#[test]
fn no_cause_writes_nothing() {
    let mut out = "kept".to_owned();
    write_error_chain(&mut out, &chain(&["only"]));
    assert_eq!(out, "kept");
    write_error_chain(&mut out, &chain(&[]));
    assert_eq!(out, "kept");
}

#[test]
fn one_cause_is_not_numbered() {
    let mut out = String::new();
    write_error_chain(&mut out, &chain(&["assertion failed", "actual body\nx"]));
    assert_eq!(out, "\nCaused by:\n      actual body\n      x\n");
}

#[test]
fn several_causes_are_numbered() {
    let mut out = String::new();
    write_error_chain(&mut out, &chain(&["top", "middle", "root\ncause"]));
    assert_eq!(out, "\nCaused by:\n   0: middle\n   1: root\n      cause\n");
}

#[test]
fn numbers_are_right_aligned() {
    let mut list = vec!["top".to_owned()];
    for i in 0..12 {
        list.push(format!("c{i}"));
    }
    let mut out = String::new();
    write_error_chain(&mut out, &list);
    assert!(out.contains("\n   9: c9\n  10: c10\n  11: c11\n"));
}

#[test]
fn full_error_writes_message_and_causes() {
    let e = FullError::from(chain(&["assertion failed\nsecond line", "root"]));
    assert_eq!(e.to_string(), "assertion failed\n  second line\nCaused by:\n      root\n");
    assert_eq!(FullError::from(chain(&["alone"])).to_string(), "alone");
    assert_eq!(FullError::from(chain(&[])).to_string(), "");
}
