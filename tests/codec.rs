use hashverify::manifest::{parse_line, parse_manifest, split_lines, trim};

#[test]
fn parse_line_splits_path_and_digest() {
    let e = parse_line("a/b/c.txt 0123456789ABCDEF0123456789ABCDEF").unwrap();
    assert_eq!(e.path, "a/b/c.txt");
    assert_eq!(e.digest, "0123456789ABCDEF0123456789ABCDEF");
}

#[test]
fn parse_line_keeps_spaces_inside_path() {
    let e = parse_line("./my dir/x y.txt 00000000000000000000000000000001").unwrap();
    assert_eq!(e.path, "./my dir/x y.txt");
    assert_eq!(e.digest, "00000000000000000000000000000001");
}

#[test]
fn parse_line_trims_surrounding_white_space() {
    let e = parse_line("  p FFFFFFFFFFFFFFFFFFFFFFFFFFFFFFFF \t").unwrap();
    assert_eq!(e.path, "p");
    assert_eq!(e.digest, "FFFFFFFFFFFFFFFFFFFFFFFFFFFFFFFF");
}

#[test]
fn parse_line_short_line_is_malformed() {
    assert!(parse_line("").is_none());
    assert!(parse_line("0123456789ABCDEF0123456789ABCDEF").is_none());
    let e = parse_line("x0123456789ABCDEF0123456789ABCDEF").unwrap();
    assert_eq!(e.path, "");
    assert_eq!(e.digest, "0123456789ABCDEF0123456789ABCDEF");
}

#[test]
fn parse_line_counts_characters_not_bytes() {
    let e = parse_line("./é\u{e9}.txt\u{2014}0123456789ABCDEF0123456789ABCDEF").unwrap();
    assert_eq!(e.path, "./éé.txt");
    assert_eq!(e.digest, "0123456789ABCDEF0123456789ABCDEF");
}

#[test]
fn trim_uses_unicode_white_space() {
    assert_eq!(trim("\u{3000} a b \u{a0}\n"), "a b");
    assert_eq!(trim("   "), "");
}

#[test]
fn split_lines_follows_line_reading() {
    assert_eq!(split_lines(""), Vec::<String>::new());
    assert_eq!(split_lines("a"), vec!["a"]);
    assert_eq!(split_lines("a\n"), vec!["a"]);
    assert_eq!(split_lines("a\r\nb\n\nc"), vec!["a", "b", "", "c"]);
    assert_eq!(split_lines("x\r\ry\r"), vec!["x\r\ry"]);
    assert_eq!(split_lines("\n"), vec![""]);
}

#[test]
fn parse_manifest_marks_malformed_lines() {
    let text = "a 0123456789ABCDEF0123456789ABCDEF\nbad\r\nb 00000000000000000000000000000000";
    let parsed = parse_manifest(text);
    assert_eq!(parsed.len(), 3);
    assert_eq!(parsed[0].as_ref().unwrap().path, "a");
    assert!(parsed[1].is_none());
    assert_eq!(parsed[2].as_ref().unwrap().path, "b");
    assert_eq!(parsed[2].as_ref().unwrap().digest, "00000000000000000000000000000000");
}
