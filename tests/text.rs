use kconfig::help::weirdo_help;
use kconfig::text::{parse_until_eol, ws_comment, wsi};

fn chars(s: &str) -> Vec<char> {
    s.chars().collect()
}

#[test]
fn test_ws() {
    let s = chars("# a comment\n");
    assert_eq!(ws_comment(&s, 0), s.len());
}

#[test]
fn test_wsi_backslash() {
    let s = chars("   \\\n          ");
    assert_eq!(wsi(&s, 0), s.len());
}

#[test]
fn comments_and_blank_lines_are_skipped() {
    let s = chars("# a comment#   \\\n\nhello");
    assert_eq!(ws_comment(&s, 0), s.len() - 5);
    let s = chars("  \\#x\n\t y");
    assert_eq!(ws_comment(&s, 0), s.len() - 1);
}

#[test]
fn rest_of_line() {
    let s = chars("parse me if you\ncan!");
    let (e, line) = parse_until_eol(&s, 0);
    assert_eq!(line, "parse me if you");
    assert_eq!(s[e..].iter().collect::<String>(), "can!");
    let (e, line) = parse_until_eol(&s, e);
    assert_eq!(line, "can!");
    assert_eq!(e, s.len());
}

#[test]
fn old_help_spellings() {
    let s = chars("---help---\n");
    assert_eq!(weirdo_help(&s, 0).map(|(e, _)| e), Ok(10));
    let s = chars("-- help\n");
    assert_eq!(weirdo_help(&s, 0).map(|(e, _)| e), Ok(7));
    assert!(weirdo_help(&chars("-- hel\n"), 0).is_err());
}
