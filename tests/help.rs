use kconfig::help::{indentation_level, parse_help, peek_initial_indentation, IndentationLevel};
use kconfig::{PResult, ParseError};

fn run<T>(f: fn(&[char], usize) -> PResult<T>, input: &str) -> Result<(String, T), ParseError> {
    let cs: Vec<char> = input.chars().collect();
    f(&cs, 0).map(|(e, v)| (cs[e..].iter().collect::<String>(), v))
}

fn help(input: &str, rest: &str, text: &str) {
    assert_eq!(run(parse_help, input), Ok((rest.to_string(), text.to_string())))
}

fn level(input: &str) -> (String, IndentationLevel) {
    let cs: Vec<char> = input.chars().collect();
    let (e, l) = indentation_level(&cs, 0);
    (cs[e..].iter().collect(), l)
}

#[test]
fn test_peek_initial_indentation_first_empty_line() {
    let cs: Vec<char> = "\n\t  This is a general notification".chars().collect();
    assert_eq!(peek_initial_indentation(&cs, 0), IndentationLevel { chars: 3, computed: 10 })
}

#[test]
fn test_peek_initial_indentation() {
    let cs: Vec<char> = "    first word".chars().collect();
    assert_eq!(peek_initial_indentation(&cs, 0), IndentationLevel { chars: 4, computed: 4 })
}

#[test]
fn test_indentation_level() {
    assert_eq!(level("\t"), ("".to_string(), IndentationLevel { chars: 1, computed: 8 }));
    assert_eq!(level(" \t"), ("".to_string(), IndentationLevel { chars: 2, computed: 8 }));
    assert_eq!(level("  \t"), ("".to_string(), IndentationLevel { chars: 3, computed: 8 }));
    assert_eq!(level("        \t"), ("".to_string(), IndentationLevel { chars: 9, computed: 16 }));
}

#[test]
fn test_parse_help() {
    help("help\n hello world", "", "hello world")
}

#[test]
fn test_parse_help_space() {
    help("help   \n hello world", "", "hello world")
}

#[test]
fn test_parse_help_no_indent() {
    help("help\nhello world", "hello world", "")
}

#[test]
fn test_parse_help_no_content() {
    help("help\n", "", "")
}

#[test]
fn test_parse_help_prefixed_by_hyphen() {
    help("-- help\n hello world", "", "hello world")
}

#[test]
fn test_parse_help_encoding() {
    help(
        "-- help\n Mapping for the Flaga digital module. If you don\u{fffd}t have one, ignore this setting.",
        "",
        "Mapping for the Flaga digital module. If you don\u{fffd}t have one, ignore this setting.",
    )
}

#[test]
fn test_parse_help_indent() {
    help(
        "\t---help---\n\tThis driver supports all of Adaptec's Fast through Ultra 160 PCI\n\tbased SCSI controllers as well as the aic7770 based EISA and VLB\n\tSCSI controllers (the 274x and 284x series).",
        "",
        "This driver supports all of Adaptec's Fast through Ultra 160 PCI\nbased SCSI controllers as well as the aic7770 based EISA and VLB\nSCSI controllers (the 274x and 284x series).",
    )
}

#[test]
fn test_parse_help_indent_2() {
    help(
        "\thelp\n    The Alpha is a 64-bit general-purpose processor designed and\n    marketed by the Digital Equipment Corporation of blessed memory, now\n    Compaq.  Alpha Linux dates from 1995-1996 and was the first non-x86\n    port. The Alpha Linux project has a home page at\n    <http://www.alphalinux.org/>.",
        "",
        "The Alpha is a 64-bit general-purpose processor designed and\nmarketed by the Digital Equipment Corporation of blessed memory, now\nCompaq.  Alpha Linux dates from 1995-1996 and was the first non-x86\nport. The Alpha Linux project has a home page at\n<http://www.alphalinux.org/>.",
    )
}

#[test]
fn test_parse_help_indentation_preservation() {
    help(
        "help\n    Lorem Ipsum\n        - Lorem Ipsum\n    Lorem Ipsum\n",
        "",
        "Lorem Ipsum\n    - Lorem Ipsum\nLorem Ipsum",
    )
}

#[test]
fn test_parse_help_double_newline() {
    help("help\n      bla 1\n        bla 2\n\n      bla 3", "", "bla 1\n  bla 2\n\nbla 3")
}

#[test]
fn test_parse_help_paragraph() {
    help(
        "help\n\t  This choice is there only for converting CONFIG_DEFAULT_SECURITY\n\t  in old kernel configs to CONFIG_LSM in new kernel configs. Don't\n\t  change this choice unless you are creating a fresh kernel config,\n\t  for this choice will be ignored after CONFIG_LSM has been set.\n\n\t  Selects the legacy \"major security module\" that will be\n\t  initialized first. Overridden by non-default CONFIG_LSM.",
        "",
        "This choice is there only for converting CONFIG_DEFAULT_SECURITY\nin old kernel configs to CONFIG_LSM in new kernel configs. Don't\nchange this choice unless you are creating a fresh kernel config,\nfor this choice will be ignored after CONFIG_LSM has been set.\n\nSelects the legacy \"major security module\" that will be\ninitialized first. Overridden by non-default CONFIG_LSM.",
    )
}

#[test]
fn test_parse_help_inconsistent_identation_with_space_and_tab() {
    help(
        "\n       help\n         An architecture selects this if it sorts the mcount_loc section\n\t at build time.",
        "",
        "An architecture selects this if it sorts the mcount_loc section\nat build time.",
    )
}

#[test]
fn test_parse_help_first_line_is_empty() {
    help(
        "help\n\n\t  This is a general notification queue for the kernel to pass events to\n\t  userspace by splicing them into pipes.  It can be used in conjunction\n\t  with watches for key/keyring change notifications and device\n\t  notifications.\n\n\t  See Documentation/core-api/watch_queue.rst\n",
        "",
        "\nThis is a general notification queue for the kernel to pass events to\nuserspace by splicing them into pipes.  It can be used in conjunction\nwith watches for key/keyring change notifications and device\nnotifications.\n\nSee Documentation/core-api/watch_queue.rst",
    )
}

#[test]
fn test_parse_help_pouet() {
    help(
        "\n\thelp\n\t  Select size of Job Rings as a power of 2, within the\n\t  range 2-9 (ring size 4-512).\n\t  Examples:\n\t\t2 => 4\n",
        "",
        "Select size of Job Rings as a power of 2, within the\nrange 2-9 (ring size 4-512).\nExamples:\n2 => 4",
    )
}

#[test]
fn help_block_strips_the_baseline_and_keeps_the_excess() {
    help("help\n    line1\n        line2\n    line3\n", "", "line1\n    line2\nline3")
}

#[test]
fn help_block_ends_at_a_less_indented_line() {
    help("help\n    one\n  two\n", "  two\n", "one")
}

#[test]
fn help_block_goes_on_after_a_line_of_spaces() {
    help("help\n  a\n  \n  b\n", "", "a\n\nb");
    help("help\n  a\n \t \n  b\nconfig X\n", "config X\n", "a\n\nb");
}
