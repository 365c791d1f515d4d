use shellcmd::text::{normalize, trim};

#[test]
fn normalize_trims_and_drops_blank_lines() {
    assert_eq!(normalize("  ls -la  \n\n  echo hi  "), "ls -la\necho hi");
}

#[test]
fn normalize_empty() {
    assert_eq!(normalize(""), "");
}

#[test]
fn normalize_only_white_space() {
    assert_eq!(normalize(" \n\t\n   \n"), "");
}

#[test]
fn normalize_carriage_returns() {
    assert_eq!(normalize("ls\r\n\r\npwd\r\n"), "ls\npwd");
}

#[test]
fn normalize_keeps_inner_spaces_and_order() {
    assert_eq!(normalize("\n  b  c \na\n"), "b  c\na");
}

#[test]
fn normalize_single_line() {
    assert_eq!(normalize("find . -name '*.rs'"), "find . -name '*.rs'");
}

#[test]
fn normalize_unicode_white_space() {
    assert_eq!(normalize("\u{3000}ls\u{00a0}\n\u{2003}"), "ls");
}

#[test]
fn trim_both_ends() {
    assert_eq!(trim("  list files \n"), "list files");
    assert_eq!(trim("   "), "");
    assert_eq!(trim(""), "");
    assert_eq!(trim("a b"), "a b");
}

#[test]
fn normalize_twice_is_normalize_once() {
    let once = normalize("  ls -la  \r\n\n\t echo   hi \n \u{2003}\n");
    assert_eq!(once, "ls -la\necho   hi");
    assert_eq!(normalize(&once), once);
}
