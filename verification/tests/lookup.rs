use kconfq::entry::{is_config_entry_name_valid, line_defines};
use kconfq::error::{FindLineError, FindValueError};
use kconfq::lookup::{find_line, find_value, parse_entry_value, ConfigLines};

const SAMPLE: &[&str] = &[
    "#",
    "# Automatically generated file; DO NOT EDIT.",
    "# Linux/x86 6.12.1 Kernel Configuration",
    "#",
    "CONFIG_CC_VERSION_TEXT=\"gcc (GCC) 14.3.0\"",
    "CONFIG_CC_IS_GCC=y",
    "CONFIG_GCC_VERSION=140300",
    "CONFIG_IKHEADERS=m",
    "# CONFIG_EFI_PGT_DUMP is not set",
    "CONFIG_FOOBAR=y",
    "   CONFIG_PADDED=yes   ",
    "CONFIG_CMDLINE=\"console=ttyS0\"",
    "CONFIG_EMPTY=",
];

fn sample() -> ConfigLines {
    ConfigLines { lines: SAMPLE.iter().map(|s| s.to_string()).collect(), read_error: None, non_utf8_line: None }
}

fn lines(texts: &[&str]) -> ConfigLines {
    ConfigLines { lines: texts.iter().map(|s| s.to_string()).collect(), read_error: None, non_utf8_line: None }
}

fn failing(texts: &[&str]) -> ConfigLines {
    ConfigLines {
        lines: texts.iter().map(|s| s.to_string()).collect(),
        read_error: Some(std::io::Error::new(std::io::ErrorKind::Other, "disk gone")),
        non_utf8_line: None,
    }
}

#[test]
fn find_line_of_set_entry() {
    assert_eq!(find_line("CONFIG_CC_IS_GCC", sample()).unwrap(), "CONFIG_CC_IS_GCC=y");
}

#[test]
fn find_line_of_quoted_entry() {
    assert_eq!(
        find_line("CONFIG_CC_VERSION_TEXT", sample()).unwrap(),
        "CONFIG_CC_VERSION_TEXT=\"gcc (GCC) 14.3.0\""
    );
}

#[test]
fn find_line_of_unset_entry() {
    assert_eq!(
        find_line("CONFIG_EFI_PGT_DUMP", sample()).unwrap(),
        "# CONFIG_EFI_PGT_DUMP is not set"
    );
}

#[test]
fn find_line_trims_the_line() {
    assert_eq!(find_line("CONFIG_PADDED", sample()).unwrap(), "CONFIG_PADDED=yes");
}

#[test]
fn find_line_trims_unicode_white_space() {
    let config = lines(&["\u{3000}\tCONFIG_WIDE=1\u{a0}\u{2028}"]);
    assert_eq!(find_line("CONFIG_WIDE", config).unwrap(), "CONFIG_WIDE=1");
}

#[test]
fn find_line_does_not_confuse_prefix_names() {
    match find_line("CONFIG_FOO", sample()) {
        Err(FindLineError::EntryIsMissing(name)) => assert_eq!(name, "CONFIG_FOO"),
        other => panic!("unexpected: {:?}", other),
    }
    assert_eq!(find_line("CONFIG_FOOBAR", sample()).unwrap(), "CONFIG_FOOBAR=y");
}

#[test]
fn find_line_first_definition_wins() {
    let config = lines(&["CONFIG_A=1", "# CONFIG_B is not set", "CONFIG_B=2", "CONFIG_A=3"]);
    assert_eq!(find_line("CONFIG_B", config).unwrap(), "# CONFIG_B is not set");
    let config = lines(&["CONFIG_A=1", "CONFIG_A=3"]);
    assert_eq!(find_line("CONFIG_A", config).unwrap(), "CONFIG_A=1");
}

#[test]
fn find_line_not_set_matches_as_prefix() {
    let config = lines(&["# CONFIG_X is not set, really"]);
    assert_eq!(find_line("CONFIG_X", config).unwrap(), "# CONFIG_X is not set, really");
}

#[test]
fn find_line_ignores_mentions_elsewhere() {
    let config = lines(&["# see CONFIG_X=y", "CONFIG_Y=CONFIG_X", "#CONFIG_X is not set"]);
    assert!(matches!(find_line("CONFIG_X", config), Err(FindLineError::EntryIsMissing(_))));
}

#[test]
fn find_line_missing_entry() {
    match find_line("CONFIG_NOPE", sample()) {
        Err(FindLineError::EntryIsMissing(name)) => assert_eq!(name, "CONFIG_NOPE"),
        other => panic!("unexpected: {:?}", other),
    }
}

#[test]
fn find_line_invalid_name_is_missing() {
    for name in ["abracadabra", "CONFIG_", "CONFIG_lower", " CONFIG_CC_IS_GCC", "CONFIG_CC_IS_GCC ", ""] {
        match find_line(name, sample()) {
            Err(FindLineError::EntryIsMissing(n)) => assert_eq!(n, name),
            other => panic!("unexpected for {:?}: {:?}", name, other),
        }
    }
}

#[test]
fn find_line_invalid_name_ignores_read_error() {
    assert!(matches!(
        find_line("not a name", failing(&["CONFIG_A=1"])),
        Err(FindLineError::EntryIsMissing(_))
    ));
}

#[test]
fn find_line_reports_read_error_before_match() {
    assert!(matches!(
        find_line("CONFIG_B", failing(&["CONFIG_A=1"])),
        Err(FindLineError::FailedToReadConfigLine(_))
    ));
}

#[test]
fn find_line_match_before_read_error() {
    assert_eq!(find_line("CONFIG_A", failing(&["CONFIG_A=1"])).unwrap(), "CONFIG_A=1");
}

#[test]
fn find_line_rejects_line_break_in_value() {
    let config = lines(&["CONFIG_A=x\ny"]);
    assert!(matches!(find_line("CONFIG_A", config), Err(FindLineError::EntryIsMissing(_))));
}

#[test]
fn find_value_of_entries() {
    assert_eq!(find_value("CONFIG_CC_IS_GCC", sample()).unwrap(), "y");
    assert_eq!(find_value("CONFIG_IKHEADERS", sample()).unwrap(), "m");
    assert_eq!(find_value("CONFIG_GCC_VERSION", sample()).unwrap(), "140300");
    assert_eq!(find_value("CONFIG_EMPTY", sample()).unwrap(), "");
}

#[test]
fn find_value_strips_quotes() {
    assert_eq!(find_value("CONFIG_CC_VERSION_TEXT", sample()).unwrap(), "gcc (GCC) 14.3.0");
}

#[test]
fn find_value_of_unset_entry_is_the_line() {
    assert_eq!(
        find_value("CONFIG_EFI_PGT_DUMP", sample()).unwrap(),
        "# CONFIG_EFI_PGT_DUMP is not set"
    );
}

#[test]
fn find_value_fails_on_two_equals() {
    match find_value("CONFIG_CMDLINE", sample()) {
        Err(FindValueError::FailedToParseLine(line)) => {
            assert_eq!(line, "CONFIG_CMDLINE=\"console=ttyS0\"")
        }
        other => panic!("unexpected: {:?}", other),
    }
}

#[test]
fn find_value_of_missing_entry() {
    match find_value("CONFIG_NOPE", sample()) {
        Err(FindValueError::FailedToFindLine(FindLineError::EntryIsMissing(n))) => {
            assert_eq!(n, "CONFIG_NOPE")
        }
        other => panic!("unexpected: {:?}", other),
    }
    assert!(matches!(
        find_value("CONFIG_B", failing(&[])),
        Err(FindValueError::FailedToFindLine(FindLineError::FailedToReadConfigLine(_)))
    ));
}

#[test]
fn parse_entry_value_cases() {
    assert_eq!(parse_entry_value("CONFIG_A=1".to_string()).unwrap(), "1");
    assert_eq!(parse_entry_value("CONFIG_A=\"\"".to_string()).unwrap(), "");
    assert_eq!(parse_entry_value("CONFIG_A=\"".to_string()).unwrap(), "\"");
    assert_eq!(parse_entry_value("CONFIG_A=\"x".to_string()).unwrap(), "\"x");
    assert_eq!(parse_entry_value("CONFIG_A=\"é ü\"".to_string()).unwrap(), "é ü");
    assert_eq!(parse_entry_value("#=a=b".to_string()).unwrap(), "#=a=b");
    assert!(matches!(
        parse_entry_value("no equals".to_string()),
        Err(FindValueError::FailedToParseLine(l)) if l == "no equals"
    ));
    assert!(matches!(
        parse_entry_value("A=b=c".to_string()),
        Err(FindValueError::FailedToParseLine(_))
    ));
}

#[test]
fn entry_name_validity() {
    assert!(is_config_entry_name_valid("CONFIG_FOO_BAR"));
    assert!(is_config_entry_name_valid("CONFIG_9"));
    assert!(is_config_entry_name_valid("CONFIG__"));
    assert!(!is_config_entry_name_valid("abracadabra"));
    assert!(!is_config_entry_name_valid("CONFIG_"));
    assert!(!is_config_entry_name_valid("CONFIG_foo"));
    assert!(!is_config_entry_name_valid("CONFIG_FOO-BAR"));
    assert!(!is_config_entry_name_valid("CONFIG_FOO\n"));
    assert!(!is_config_entry_name_valid("XCONFIG_FOO"));
}

#[test]
fn line_defines_cases() {
    let name: Vec<char> = "CONFIG_A".chars().collect();
    let yes: Vec<char> = "CONFIG_A=y".chars().collect();
    let unset: Vec<char> = "# CONFIG_A is not set".chars().collect();
    let other: Vec<char> = "CONFIG_AB=y".chars().collect();
    let short: Vec<char> = "# CONFIG_A is not".chars().collect();
    assert!(line_defines(&name, &yes));
    assert!(line_defines(&name, &unset));
    assert!(!line_defines(&name, &other));
    assert!(!line_defines(&name, &short));
}

#[test]
fn written_assignment_reads_back() {
    // A line written for an entry, among other entries' lines, gives its value back.
    let config = lines(&["CONFIG_OTHER=1", "# CONFIG_THIRD is not set", "CONFIG_MINE=\"hello world\"", "CONFIG_MINE=2"]);
    assert_eq!(find_value("CONFIG_MINE", config).unwrap(), "hello world");
}

#[test]
fn written_unset_reads_back() {
    let config = lines(&["CONFIG_OTHER=1", "# CONFIG_MINE is not set", "CONFIG_MINE=2"]);
    assert_eq!(find_value("CONFIG_MINE", config).unwrap(), "# CONFIG_MINE is not set");
}

/// Lines as a reader gives them where it stops at the line `bad`, which is not UTF-8.
fn stopped_at(texts: &[&str], bad: &[u8]) -> ConfigLines {
    ConfigLines {
        lines: texts.iter().map(|s| s.to_string()).collect(),
        read_error: Some(std::io::Error::new(
            std::io::ErrorKind::InvalidData,
            "stream did not contain valid UTF-8",
        )),
        non_utf8_line: Some(bad.to_vec()),
    }
}

#[test]
fn find_line_non_utf8_entry_line_is_a_read_error() {
    match find_line("CONFIG_FOO", stopped_at(&["CONFIG_A=1"], b"CONFIG_FOO=\xff")) {
        Err(FindLineError::FailedToReadConfigLine(e)) => {
            assert_eq!(e.kind(), std::io::ErrorKind::InvalidData)
        }
        other => panic!("unexpected: {:?}", other),
    }
}

#[test]
fn find_line_match_before_non_utf8_line() {
    assert_eq!(
        find_line("CONFIG_A", stopped_at(&["CONFIG_A=1"], b"\xff")).unwrap(),
        "CONFIG_A=1"
    );
}

#[test]
fn find_line_utf8_multibyte_line() {
    let config = lines(&["CONFIG_NAME=\"h\u{e9}llo \u{1f600}\""]);
    assert_eq!(find_value("CONFIG_NAME", config).unwrap(), "h\u{e9}llo \u{1f600}");
}

#[test]
fn find_value_non_utf8_line_is_a_read_error() {
    assert!(matches!(
        find_value("CONFIG_FOO", stopped_at(&[], b"CONFIG_FOO=\xff")),
        Err(FindValueError::FailedToFindLine(FindLineError::FailedToReadConfigLine(_)))
    ));
}
