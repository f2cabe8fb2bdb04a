//! Looking an entry up in the lines of a kernel config.

use vstd::prelude::*;

use crate::entry::{
    defines, entry_line, first_definition, first_equals_at, is_config_entry_name_valid,
    line_defines, valid_entry_name, value_of_line,
};
use crate::error::{FindLineError, FindValueError};
use crate::text::{chars_of, count_and_first, count_of, sub_vec, trim_bounds, trimmed};

verus! {

/// The lines that a reader of a kernel config gave, in order, without their
/// line breaks, and the error that stopped the reading, if one did (none
/// where the reading reached the end of the config). Where the reading
/// stopped at a line that is not UTF-8, `read_error` is that failure and
/// `non_utf8_line` holds the line's bytes.
pub struct ConfigLines {
    /// The lines read, in order.
    pub lines: Vec<String>,
    /// The error that ended the reading after `lines`, if any.
    pub read_error: Option<std::io::Error>,
    /// The bytes of the line that ended the reading by not being UTF-8, if
    /// that is what ended it.
    pub non_utf8_line: Option<Vec<u8>>,
}

impl ConfigLines {
    /// The text of each line read.
    pub open spec fn texts(&self) -> Seq<Seq<char>> {
        self.lines@.map_values(|s: String| s@)
    }
}

/// What a lookup of the entry `name` in `reader` gives: the entry's line
/// where one is found; otherwise a read error where the name is an entry
/// name and the reading failed; otherwise that the entry is missing.
pub open spec fn find_line_outcome(
    name: Seq<char>,
    reader: ConfigLines,
    r: Result<String, FindLineError>,
) -> bool {
    match r {
        Ok(l) => entry_line(name, reader.texts()) == Some(l@),
        Err(FindLineError::EntryIsMissing(n)) => {
            &&& n@ == name
            &&& entry_line(name, reader.texts()) is None
            &&& (!valid_entry_name(name) || reader.read_error is None)
        },
        Err(FindLineError::FailedToReadConfigLine(e)) => {
            &&& entry_line(name, reader.texts()) is None
            &&& valid_entry_name(name)
            &&& reader.read_error == Some(e)
        },
    }
}

proof fn lemma_first_definition_skip(name: Seq<char>, lines: Seq<Seq<char>>, i: int)
    requires
        0 <= i < lines.len(),
    ensures
        first_definition(name, lines.skip(i)) == if defines(name, trimmed(lines[i])) {
            Some(trimmed(lines[i]))
        } else {
            first_definition(name, lines.skip(i + 1))
        },
{
    assert(lines.skip(i)[0] == lines[i]);
    assert(lines.skip(i).drop_first() =~= lines.skip(i + 1));
}

/// Finds the line of the config that defines the entry `entry_name`: the
/// first line that, with leading and trailing white space removed, starts
/// with `# <entry_name> is not set` or is `<entry_name>=<value>`. The line is
/// returned trimmed, e.g.
///
/// - `CONFIG_FOO=y`
/// - `CONFIG_FOO="something something"`
/// - `# CONFIG_FOO is not set`
///
/// A name that is not of the form `CONFIG_[A-Z0-9_]+` is missing from every
/// config. Where the reading failed (a line that is not UTF-8 among them)
/// before the entry's line, the failure is returned.
pub fn find_line(entry_name: &str, config_reader: ConfigLines) -> (r: Result<
    String,
    FindLineError,
>)
    ensures
        find_line_outcome(entry_name@, config_reader, r),
{
    let ghost texts = config_reader.texts();
    let valid = is_config_entry_name_valid(entry_name);
    if valid {
        let name = chars_of(entry_name);
        let n = config_reader.lines.len();
        assert(texts.skip(0) =~= texts);
        for i in 0..n
            invariant
                n == config_reader.lines.len(),
                texts == config_reader.texts(),
                name@ == entry_name@,
                valid_entry_name(entry_name@),
                first_definition(name@, texts) == first_definition(name@, texts.skip(i as int)),
        {
            let line = config_reader.lines[i].as_str();
            let cs = chars_of(line);
            let (start, end) = trim_bounds(&cs);
            let t = sub_vec(&cs, start, end);
            assert(texts[i as int] == cs@);
            proof {
                lemma_first_definition_skip(name@, texts, i as int);
            }
            if line_defines(&name, &t) {
                let found = line.substring_char(start, end).to_owned();
                return Ok(found);
            }
        }
        assert(texts.skip(n as int).len() == 0);
        assert(first_definition(name@, texts.skip(n as int)) is None);
    }
    match config_reader.read_error {
        Some(e) if valid => Err(FindLineError::FailedToReadConfigLine(e)),
        _ => Err(FindLineError::EntryIsMissing(entry_name.to_owned())),
    }
}

proof fn lemma_first_equals_unique(l: Seq<char>, p: int, q: int)
    requires
        first_equals_at(l, p),
        first_equals_at(l, q),
    ensures
        p == q,
{
    if p < q {
        assert(l.take(q)[p] == '=');
    } else if q < p {
        assert(l.take(p)[q] == '=');
    }
}

/// The value that the config line `line` gives: a line that starts with `#`
/// is returned whole; otherwise the line must hold exactly one `=`, and the
/// value is what follows it, without enclosing double quotes:
///
/// - `CONFIG_FOO=y` gives `y`
/// - `CONFIG_FOO="something something"` gives `something something`
/// - `# CONFIG_FOO is not set` gives `# CONFIG_FOO is not set`
pub fn parse_entry_value(line: String) -> (r: Result<String, FindValueError>)
    ensures
        match r {
            Ok(v) => value_of_line(line@) == Some(v@),
            Err(FindValueError::FailedToParseLine(l)) => l@ == line@ && value_of_line(line@) is None,
            Err(FindValueError::FailedToFindLine(_)) => false,
        },
{
    let cs = chars_of(line.as_str());
    if cs.len() > 0 && cs[0] == '#' {
        return Ok(line);
    }
    let (count, first) = count_and_first(&cs, '=');
    if count != 1 {
        return Err(FindValueError::FailedToParseLine(line));
    }
    proof {
        let p = choose|p: int| first_equals_at(cs@, p);
        assert(first_equals_at(cs@, first as int));
        lemma_first_equals_unique(cs@, p, first as int);
    }
    let len = cs.len();
    let start = first + 1;
    let value = if len - start >= 2 && cs[start] == '"' && cs[len - 1] == '"' {
        assert(cs@.skip(start as int).subrange(1, len - start - 1) =~= cs@.subrange(
            start + 1,
            len - 1,
        ));
        line.as_str().substring_char(start + 1, len - 1).to_owned()
    } else {
        assert(cs@.skip(start as int) =~= cs@.subrange(start as int, len as int));
        line.as_str().substring_char(start, len).to_owned()
    };
    Ok(value)
}

/// Same as [`find_line`], but returns only the value of the entry, as
/// [`parse_entry_value`] takes it from the line:
///
/// - `y`
/// - `something something`
/// - `# CONFIG_COMPILE_TEST is not set`
pub fn find_value(entry_name: &str, config_reader: ConfigLines) -> (r: Result<
    String,
    FindValueError,
>)
    ensures
        match r {
            Ok(v) => entry_line(entry_name@, config_reader.texts()) matches Some(l)
                && value_of_line(l) == Some(v@),
            Err(FindValueError::FailedToFindLine(e)) => find_line_outcome(
                entry_name@,
                config_reader,
                Err(e),
            ),
            Err(FindValueError::FailedToParseLine(l)) => {
                &&& entry_line(entry_name@, config_reader.texts()) == Some(l@)
                &&& value_of_line(l@) is None
            },
        },
{
    match find_line(entry_name, config_reader) {
        Ok(line) => parse_entry_value(line),
        Err(e) => Err(FindValueError::FailedToFindLine(e)),
    }
}

} // verus!
