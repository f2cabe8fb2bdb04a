//! The status codes of the C interface, and how the library's outcomes map
//! onto them.

use vstd::prelude::*;

use crate::config::Config;
use crate::entry::{
    assignment_head, is_config_entry_name_valid, not_set_line, valid_entry_name,
};
use crate::text::{chars_of, concat_chars};
use crate::error::{FindLineError, FindValueError, LocateConfigError};

verus! {

/// Result of a C-interface function's operation.
#[allow(non_camel_case_types)]
#[derive(Copy, Clone, Debug, PartialEq, Eq, Structural)]
pub enum KconfqResult {
    /// Success.
    KCONFQ_RESULT_SUCCESS,
    /// Not found.
    KCONFQ_RESULT_NOT_FOUND,
    /// Error getting Linux kernel version.
    KCONFQ_RESULT_KERNEL_VERSION_ERROR,
    /// Parameter is a NULL pointer.
    KCONFQ_RESULT_NULL_PARAMETER,
    /// Value of the function's argument is malformed.
    KCONFQ_RESULT_MALFORMED_ARGUMENT,
    /// Failed while trying to parse non-UTF-8 string.
    KCONFQ_RESULT_NON_UTF8_STRING,
    /// Failed to get reader to the config's file.
    KCONFQ_RESULT_FAILED_TO_GET_READER,
    /// Entry is missing from the config.
    KCONFQ_RESULT_MISSING_ENTRY,
    /// I/O error.
    KCONFQ_RESULT_IO_ERROR,
    /// Failed to parse the value of the config's entry.
    KCONFQ_RESULT_FAILED_TO_PARSE_ENTRY_VALUE,
    /// Unknown internal error.
    KCONFQ_RESULT_UNKNOWN_ERROR,
}

/// The human-readable description of each status.
pub open spec fn result_message(result: KconfqResult) -> Seq<char> {
    match result {
        KconfqResult::KCONFQ_RESULT_SUCCESS => "success"@,
        KconfqResult::KCONFQ_RESULT_NOT_FOUND => "not found"@,
        KconfqResult::KCONFQ_RESULT_KERNEL_VERSION_ERROR => "error getting Linux kernel version"@,
        KconfqResult::KCONFQ_RESULT_NULL_PARAMETER => "parameter is a NULL pointer"@,
        KconfqResult::KCONFQ_RESULT_MALFORMED_ARGUMENT => "value of the function's argument is malformed"@,
        KconfqResult::KCONFQ_RESULT_NON_UTF8_STRING => "failed while trying to parse non-UTF-8 string"@,
        KconfqResult::KCONFQ_RESULT_FAILED_TO_GET_READER => "failed to get reader to the config's file"@,
        KconfqResult::KCONFQ_RESULT_MISSING_ENTRY => "entry is missing from the config"@,
        KconfqResult::KCONFQ_RESULT_IO_ERROR => "I/O error"@,
        KconfqResult::KCONFQ_RESULT_FAILED_TO_PARSE_ENTRY_VALUE => "failed to parse the value of the config's entry"@,
        KconfqResult::KCONFQ_RESULT_UNKNOWN_ERROR => "unknown internal error"@,
    }
}

/// A human-readable string describing `result`.
pub fn result_strerror(result: KconfqResult) -> (s: &'static str)
    ensures
        s@ == result_message(result),
{
    match result {
        KconfqResult::KCONFQ_RESULT_SUCCESS => "success",
        KconfqResult::KCONFQ_RESULT_NOT_FOUND => "not found",
        KconfqResult::KCONFQ_RESULT_KERNEL_VERSION_ERROR => "error getting Linux kernel version",
        KconfqResult::KCONFQ_RESULT_NULL_PARAMETER => "parameter is a NULL pointer",
        KconfqResult::KCONFQ_RESULT_MALFORMED_ARGUMENT => "value of the function's argument is malformed",
        KconfqResult::KCONFQ_RESULT_NON_UTF8_STRING => "failed while trying to parse non-UTF-8 string",
        KconfqResult::KCONFQ_RESULT_FAILED_TO_GET_READER => "failed to get reader to the config's file",
        KconfqResult::KCONFQ_RESULT_MISSING_ENTRY => "entry is missing from the config",
        KconfqResult::KCONFQ_RESULT_IO_ERROR => "I/O error",
        KconfqResult::KCONFQ_RESULT_FAILED_TO_PARSE_ENTRY_VALUE => "failed to parse the value of the config's entry",
        KconfqResult::KCONFQ_RESULT_UNKNOWN_ERROR => "unknown internal error",
    }
}

/// The status that the C interface reports for an outcome of
/// [`crate::config::locate_config`]: success where a config was found, not
/// found where none was, and a kernel version error where the search failed.
pub fn locate_result(located: &Result<Option<Config>, LocateConfigError>) -> (r: KconfqResult)
    ensures
        r == match located {
            Ok(Some(_)) => KconfqResult::KCONFQ_RESULT_SUCCESS,
            Ok(None) => KconfqResult::KCONFQ_RESULT_NOT_FOUND,
            Err(_) => KconfqResult::KCONFQ_RESULT_KERNEL_VERSION_ERROR,
        },
{
    match located {
        Ok(Some(_)) => KconfqResult::KCONFQ_RESULT_SUCCESS,
        Ok(None) => KconfqResult::KCONFQ_RESULT_NOT_FOUND,
        Err(LocateConfigError::FailedToGetLinuxKernelVersion(_)) => {
            KconfqResult::KCONFQ_RESULT_KERNEL_VERSION_ERROR
        },
    }
}

/// The status that the C interface reports for an entry name before any
/// lookup: a malformed argument where the name is not a config entry name
/// (`CONFIG_[A-Z0-9_]+`), nothing to report otherwise.
pub fn entry_name_result(entry_name: &str) -> (r: Option<KconfqResult>)
    ensures
        r == if valid_entry_name(entry_name@) {
            None::<KconfqResult>
        } else {
            Some(KconfqResult::KCONFQ_RESULT_MALFORMED_ARGUMENT)
        },
{
    if is_config_entry_name_valid(entry_name) {
        None
    } else {
        Some(KconfqResult::KCONFQ_RESULT_MALFORMED_ARGUMENT)
    }
}

/// The bytes 09-0d and 20: the white space characters that UTF-8 encodes
/// in one byte other than U+0085, which it encodes in two.
pub open spec fn ascii_space(b: u8) -> bool {
    (0x09 <= b && b <= 0x0d) || b == 0x20
}

/// `line` without its leading ASCII white space bytes.
pub open spec fn skip_ascii_space(line: Seq<u8>) -> Seq<u8>
    decreases line.len(),
{
    if line.len() > 0 && ascii_space(line[0]) {
        skip_ascii_space(line.drop_first())
    } else {
        line
    }
}

/// The bytes `t` start with the characters `p`, one byte per character.
/// For an ASCII `p` this is `t` starting with the UTF-8 encoding of `p`.
pub open spec fn starts_with_chars(t: Seq<u8>, p: Seq<char>) -> bool {
    p.len() <= t.len() && forall|k: int| 0 <= k < p.len() ==> t[k] as u32 == #[trigger] p[k] as u32
}

/// The line `line`, which may not be UTF-8, is one for the entry `name`:
/// after its leading ASCII white space it starts with the bytes of
/// `# <name> is not set` or of `<name>=`.
pub open spec fn line_names_entry(name: Seq<char>, line: Seq<u8>) -> bool {
    ||| starts_with_chars(skip_ascii_space(line), not_set_line(name))
    ||| starts_with_chars(skip_ascii_space(line), assignment_head(name))
}

/// Whether `t`, from position `at` on, starts with the characters `p`, one
/// byte per character.
fn bytes_start_with(t: &Vec<u8>, at: usize, p: &Vec<char>) -> (r: bool)
    requires
        at <= t.len(),
    ensures
        r == starts_with_chars(t@.skip(at as int), p@),
{
    if p.len() > t.len() - at {
        return false;
    }
    let mut k: usize = 0;
    while k < p.len()
        invariant
            at + p.len() <= t.len(),
            k <= p.len(),
            forall|m: int| 0 <= m < k ==> t@[at + m] as u32 == #[trigger] p@[m] as u32,
        decreases p.len() - k,
    {
        if t[at + k] as u32 != p[k] as u32 {
            assert(t@.skip(at as int)[k as int] == t@[at + k]);
            return false;
        }
        k = k + 1;
    }
    assert forall|m: int| 0 <= m < p@.len() implies t@.skip(at as int)[m] as u32
        == #[trigger] p@[m] as u32 by {
        assert(t@.skip(at as int)[m] == t@[at + m]);
    }
    true
}

/// Whether the line `line` is one for the entry `name`.
fn names_entry(name: &Vec<char>, line: &Vec<u8>) -> (r: bool)
    ensures
        r == line_names_entry(name@, line@),
{
    let mut at: usize = 0;
    assert(line@.skip(0) =~= line@);
    while at < line.len() && ((0x09 <= line[at] && line[at] <= 0x0d) || line[at] == 0x20)
        invariant
            at <= line.len(),
            skip_ascii_space(line@) == skip_ascii_space(line@.skip(at as int)),
        decreases line.len() - at,
    {
        assert(line@.skip(at as int)[0] == line@[at as int]);
        assert(line@.skip(at as int).drop_first() =~= line@.skip(at + 1));
        at = at + 1;
    }
    assert(skip_ascii_space(line@.skip(at as int)) == line@.skip(at as int)) by {
        if at < line.len() {
            assert(line@.skip(at as int)[0] == line@[at as int]);
        }
    }
    let unset = concat_chars(&concat_chars(&vec!['#', ' '], name), &vec![
        ' ',
        'i',
        's',
        ' ',
        'n',
        'o',
        't',
        ' ',
        's',
        'e',
        't',
    ]);
    assert(unset@ =~= not_set_line(name@));
    let assigned = concat_chars(name, &vec!['=']);
    assert(assigned@ =~= assignment_head(name@));
    bytes_start_with(line, at, &unset) || bytes_start_with(line, at, &assigned)
}

/// The status that the C interface reports for a failed lookup of
/// `entry_name` in a config whose reading stopped at `non_utf8_line` where
/// that line is not UTF-8: a missing entry, a line that is not UTF-8 where
/// the reading failed at a line for the entry, and an I/O error for any other
/// read failure.
pub fn find_line_error_result(
    entry_name: &str,
    non_utf8_line: &Option<Vec<u8>>,
    e: &FindLineError,
) -> (r: KconfqResult)
    ensures
        r == match e {
            FindLineError::EntryIsMissing(_) => KconfqResult::KCONFQ_RESULT_MISSING_ENTRY,
            FindLineError::FailedToReadConfigLine(_) => if non_utf8_line is Some
                && line_names_entry(entry_name@, non_utf8_line->0@) {
                KconfqResult::KCONFQ_RESULT_NON_UTF8_STRING
            } else {
                KconfqResult::KCONFQ_RESULT_IO_ERROR
            },
        },
{
    match e {
        FindLineError::EntryIsMissing(_) => KconfqResult::KCONFQ_RESULT_MISSING_ENTRY,
        FindLineError::FailedToReadConfigLine(_) => {
            let name = chars_of(entry_name);
            match non_utf8_line {
                Some(line) => {
                    if names_entry(&name, line) {
                        KconfqResult::KCONFQ_RESULT_NON_UTF8_STRING
                    } else {
                        KconfqResult::KCONFQ_RESULT_IO_ERROR
                    }
                },
                None => KconfqResult::KCONFQ_RESULT_IO_ERROR,
            }
        },
    }
}

/// The status that the C interface reports for a failed value lookup: that
/// of the failed line lookup, or a parse failure.
pub fn find_value_error_result(
    entry_name: &str,
    non_utf8_line: &Option<Vec<u8>>,
    e: &FindValueError,
) -> (r: KconfqResult)
    ensures
        r == match e {
            FindValueError::FailedToFindLine(line_error) => match line_error {
                FindLineError::EntryIsMissing(_) => KconfqResult::KCONFQ_RESULT_MISSING_ENTRY,
                FindLineError::FailedToReadConfigLine(_) => if non_utf8_line is Some
                    && line_names_entry(entry_name@, non_utf8_line->0@) {
                    KconfqResult::KCONFQ_RESULT_NON_UTF8_STRING
                } else {
                    KconfqResult::KCONFQ_RESULT_IO_ERROR
                },
            },
            FindValueError::FailedToParseLine(_) => {
                KconfqResult::KCONFQ_RESULT_FAILED_TO_PARSE_ENTRY_VALUE
            },
        },
{
    match e {
        FindValueError::FailedToFindLine(line_error) => find_line_error_result(
            entry_name,
            non_utf8_line,
            line_error,
        ),
        FindValueError::FailedToParseLine(_) => {
            KconfqResult::KCONFQ_RESULT_FAILED_TO_PARSE_ENTRY_VALUE
        },
    }
}

} // verus!
