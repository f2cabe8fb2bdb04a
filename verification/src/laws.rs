//! Laws of entry lookup: which line a lookup finds, what a line written for
//! an entry gives back, and that lines of other entries never interfere.

use vstd::prelude::*;

use crate::entry::{
    assignment_head, config_prefix, defines, entry_line, first_definition, first_equals_at,
    after_equals, name_char, not_set_line, not_set_suffix, unquoted, valid_entry_name,
    value_of_line,
};
use crate::text::{count_of, trim_end, trim_start, trimmed, white_space};

verus! {

/// Line `j` of `lines`, trimmed, defines `name`.
pub open spec fn defines_at(name: Seq<char>, lines: Seq<Seq<char>>, j: int) -> bool {
    defines(name, trimmed(lines[j]))
}

proof fn lemma_first_definition_first(name: Seq<char>, lines: Seq<Seq<char>>)
    ensures
        first_definition(name, lines) is None <==> forall|j: int|
            0 <= j < lines.len() ==> !#[trigger] defines_at(name, lines, j),
        forall|i: int|
            0 <= i < lines.len() && #[trigger] defines_at(name, lines, i) && (forall|j: int|
                0 <= j < i ==> !#[trigger] defines_at(name, lines, j)) ==> first_definition(
                name,
                lines,
            ) == Some(trimmed(lines[i])),
    decreases lines.len(),
{
    if lines.len() > 0 {
        let rest = lines.drop_first();
        lemma_first_definition_first(name, rest);
        assert forall|j: int| 0 <= j < rest.len() implies #[trigger] defines_at(name, rest, j)
            == defines_at(name, lines, j + 1) by {
            assert(rest[j] == lines[j + 1]);
        }
        if !defines_at(name, lines, 0) {
            assert forall|i: int|
                0 <= i < lines.len() && #[trigger] defines_at(name, lines, i) && (forall|j: int|
                    0 <= j < i ==> !#[trigger] defines_at(name, lines, j)) implies first_definition(
                name,
                lines,
            ) == Some(trimmed(lines[i])) by {
                assert(i > 0);
                assert(defines_at(name, rest, i - 1));
                assert forall|j: int| 0 <= j < i - 1 implies !#[trigger] defines_at(
                    name,
                    rest,
                    j,
                ) by {
                    assert(!defines_at(name, lines, j + 1));
                }
                assert(rest[i - 1] == lines[i]);
            }
            if first_definition(name, lines) is None {
                assert forall|j: int| 0 <= j < lines.len() implies !#[trigger] defines_at(
                    name,
                    lines,
                    j,
                ) by {
                    if j > 0 {
                        assert(!defines_at(name, rest, j - 1));
                    }
                }
            } else {
                let k = choose|k: int| 0 <= k < rest.len() && defines_at(name, rest, k);
                assert(defines_at(name, lines, k + 1));
            }
        } else {
            assert(defines_at(name, lines, 0));
        }
    }
}

/// A lookup of an entry name finds nothing exactly where no line, trimmed,
/// defines the entry; otherwise it finds the first line that does, trimmed.
pub proof fn law_lookup_finds_first_defining_line(name: Seq<char>, lines: Seq<Seq<char>>)
    requires
        valid_entry_name(name),
    ensures
        entry_line(name, lines) is None <==> forall|j: int|
            0 <= j < lines.len() ==> !#[trigger] defines_at(name, lines, j),
        forall|i: int|
            0 <= i < lines.len() && #[trigger] defines_at(name, lines, i) && (forall|j: int|
                0 <= j < i ==> !#[trigger] defines_at(name, lines, j)) ==> entry_line(name, lines)
                == Some(trimmed(lines[i])),
{
    lemma_first_definition_first(name, lines);
}

proof fn lemma_first_definition_concat(name: Seq<char>, a: Seq<Seq<char>>, b: Seq<Seq<char>>)
    ensures
        first_definition(name, a + b) == if first_definition(name, a) is Some {
            first_definition(name, a)
        } else {
            first_definition(name, b)
        },
    decreases a.len(),
{
    if a.len() == 0 {
        assert(a + b =~= b);
    } else {
        assert((a + b)[0] == a[0]);
        assert((a + b).drop_first() =~= a.drop_first() + b);
        lemma_first_definition_concat(name, a.drop_first(), b);
    }
}

/// Trimming a text whose first and last characters are not white space
/// leaves it unchanged.
proof fn lemma_trimmed_unchanged(s: Seq<char>)
    requires
        s.len() > 0,
        !white_space(s[0]),
        !white_space(s.last()),
    ensures
        trimmed(s) == s,
{
}

proof fn lemma_trim_start_shape(s: Seq<char>)
    ensures
        trim_start(s).len() == 0 || !white_space(trim_start(s)[0]),
    decreases s.len(),
{
    if s.len() > 0 && white_space(s[0]) {
        lemma_trim_start_shape(s.drop_first());
    }
}

proof fn lemma_trim_end_shape(s: Seq<char>)
    ensures
        trim_end(s).len() == 0 || !white_space(trim_end(s).last()),
        s.len() > 0 && !white_space(s[0]) ==> trim_end(s).len() > 0 && trim_end(s)[0] == s[0],
    decreases s.len(),
{
    if s.len() > 0 && white_space(s.last()) {
        lemma_trim_end_shape(s.drop_last());
        if !white_space(s[0]) {
            assert(s.len() > 1);
            assert(s.drop_last()[0] == s[0]);
        }
    }
}

/// Trimming twice is trimming once.
proof fn lemma_trimmed_idempotent(s: Seq<char>)
    ensures
        trimmed(trimmed(s)) == trimmed(s),
{
    let t = trimmed(s);
    lemma_trim_start_shape(s);
    lemma_trim_end_shape(trim_start(s));
    if t.len() > 0 {
        lemma_trimmed_unchanged(t);
    }
}

proof fn lemma_first_definition_trimmed(name: Seq<char>, lines: Seq<Seq<char>>)
    ensures
        first_definition(name, lines) matches Some(l) ==> trimmed(l) == l,
    decreases lines.len(),
{
    if lines.len() > 0 {
        if defines(name, trimmed(lines[0])) {
            lemma_trimmed_idempotent(lines[0]);
        } else {
            lemma_first_definition_trimmed(name, lines.drop_first());
        }
    }
}

/// The line that a lookup finds has no leading or trailing white space:
/// trimming it leaves it unchanged.
pub proof fn law_found_line_is_trimmed(name: Seq<char>, lines: Seq<Seq<char>>)
    ensures
        entry_line(name, lines) matches Some(l) ==> trimmed(l) == l,
{
    lemma_first_definition_trimmed(name, lines);
}

proof fn lemma_count_concat(a: Seq<char>, b: Seq<char>, c: char)
    ensures
        count_of(a + b, c) == count_of(a, c) + count_of(b, c),
    decreases b.len(),
{
    if b.len() == 0 {
        assert(a + b =~= a);
    } else {
        assert((a + b).drop_last() =~= a + b.drop_last());
        lemma_count_concat(a, b.drop_last(), c);
    }
}

proof fn lemma_count_absent(s: Seq<char>, c: char)
    requires
        !s.contains(c),
    ensures
        count_of(s, c) == 0,
    decreases s.len(),
{
    if s.len() > 0 {
        assert(s.last() == s[s.len() - 1]);
        assert(!s.drop_last().contains(c)) by {
            assert forall|i: int| 0 <= i < s.drop_last().len() implies s.drop_last()[i] != c by {
                assert(s.drop_last()[i] == s[i]);
            }
        }
        lemma_count_absent(s.drop_last(), c);
    }
}

/// No character of an entry name is `=`, white space or `\n`.
proof fn lemma_name_chars(name: Seq<char>, i: int)
    requires
        valid_entry_name(name),
        0 <= i < name.len(),
    ensures
        name[i] != '=',
        name[i] != '\n',
        name[i] != ' ',
        !white_space(name[i]),
{
    if i < config_prefix().len() {
        assert(name[i] == name.subrange(0, config_prefix().len() as int)[i]);
        assert(name[i] == config_prefix()[i]);
    } else {
        assert(name_char(name[i]));
    }
}

proof fn lemma_name_lacks(name: Seq<char>, c: char)
    requires
        valid_entry_name(name),
        c == '=' || c == '\n' || c == ' ',
    ensures
        !name.contains(c),
{
    assert forall|i: int| 0 <= i < name.len() implies name[i] != c by {
        lemma_name_chars(name, i);
    }
}

/// An entry name is left unchanged by trimming, so a name may be looked up
/// with or without surrounding white space removed first.
pub proof fn law_entry_name_is_trimmed(name: Seq<char>)
    requires
        valid_entry_name(name),
    ensures
        trimmed(name) == name,
{
    lemma_name_chars(name, 0);
    lemma_name_chars(name, name.len() - 1);
    lemma_trimmed_unchanged(name);
}

/// Writing the line `<name>=<value>` into a config, after lines that do not
/// define `name`, makes a lookup of `name` find that line and give `value`
/// back, without enclosing double quotes, where the value holds no `=` and
/// no line break and does not end in white space.
pub proof fn law_assignment_is_found(
    name: Seq<char>,
    value: Seq<char>,
    before: Seq<Seq<char>>,
    after: Seq<Seq<char>>,
)
    requires
        valid_entry_name(name),
        forall|j: int| 0 <= j < before.len() ==> !#[trigger] defines_at(name, before, j),
        !value.contains('='),
        !value.contains('\n'),
        value.len() == 0 || !white_space(value.last()),
    ensures
        entry_line(name, before + seq![assignment_head(name) + value] + after) == Some(
            assignment_head(name) + value,
        ),
        value_of_line(assignment_head(name) + value) == Some(unquoted(value)),
{
    let line = assignment_head(name) + value;
    let head = assignment_head(name);
    lemma_name_chars(name, 0);
    assert(line[0] == name[0]);
    assert(line.last() != '=' ==> line.last() == value.last());
    lemma_trimmed_unchanged(line);
    assert(head.is_prefix_of(line)) by {
        assert(line.subrange(0, head.len() as int) =~= head);
    }
    lemma_name_lacks(name, '\n');
    lemma_name_lacks(name, '=');
    assert(!line.contains('\n')) by {
        assert forall|i: int| 0 <= i < line.len() implies line[i] != '\n' by {
            if i < name.len() {
                assert(line[i] == name[i]);
            } else if i > name.len() {
                assert(line[i] == value[i - name.len() - 1]);
            }
        }
    }
    assert(defines(name, line));
    let lines = before + seq![line] + after;
    lemma_first_definition_first(name, before);
    lemma_first_definition_concat(name, before, seq![line] + after);
    assert(before + seq![line] + after =~= before + (seq![line] + after));
    assert((seq![line] + after)[0] == line);
    lemma_value_of_assignment(name, value);
}

/// The line `<name>=<value>`, for a value without `=`, gives the value
/// without enclosing double quotes.
proof fn lemma_value_of_assignment(name: Seq<char>, value: Seq<char>)
    requires
        valid_entry_name(name),
        !value.contains('='),
    ensures
        value_of_line(assignment_head(name) + value) == Some(unquoted(value)),
{
    let line = assignment_head(name) + value;
    let head = assignment_head(name);
    lemma_name_chars(name, 0);
    assert(line[0] == name[0]);
    lemma_name_lacks(name, '=');
    lemma_count_absent(name, '=');
    lemma_count_absent(value, '=');
    assert(count_of(seq!['='], '=') == 1) by {
        assert(seq!['='].drop_last() =~= Seq::<char>::empty());
        assert(count_of(Seq::<char>::empty(), '=') == 0);
        assert(seq!['='].last() == '=');
    }
    assert(head =~= name + seq!['=']);
    lemma_count_concat(name, seq!['='], '=');
    lemma_count_concat(head, value, '=');
    let p = name.len() as int;
    assert(first_equals_at(line, p)) by {
        assert(line.take(p) =~= name);
    }
    let q = choose|q: int| first_equals_at(line, q);
    if q != p {
        if q < p {
            assert(line.take(p)[q] == '=');
        } else {
            assert(line.take(q)[p] == '=');
        }
    }
    assert(after_equals(line) =~= value);
}

/// An entry name is exactly `CONFIG_` followed by one or more of the
/// upper-case ASCII letters `A` to `Z`, the digits `0` to `9` and `_`.
pub proof fn law_entry_name_form(name: Seq<char>)
    ensures
        valid_entry_name(name) <==> {
            &&& name.len() > 7
            &&& name.take(7) == seq!['C', 'O', 'N', 'F', 'I', 'G', '_']
            &&& forall|i: int|
                7 <= i < name.len() ==> ('A' <= #[trigger] name[i] && name[i] <= 'Z') || ('0'
                    <= name[i] && name[i] <= '9') || name[i] == '_'
        },
{
    assert(config_prefix().len() == 7);
    if config_prefix().is_prefix_of(name) {
        assert(name.take(7) =~= name.subrange(0, 7));
    }
    if name.len() > 7 && name.take(7) == seq!['C', 'O', 'N', 'F', 'I', 'G', '_'] {
        assert(name.subrange(0, 7) =~= config_prefix());
    }
    if valid_entry_name(name) {
        assert forall|i: int| 7 <= i < name.len() implies ('A' <= #[trigger] name[i] && name[i]
            <= 'Z') || ('0' <= name[i] && name[i] <= '9') || name[i] == '_' by {
            assert(name_char(name[i]));
        }
    }
    if forall|i: int|
        7 <= i < name.len() ==> ('A' <= #[trigger] name[i] && name[i] <= 'Z') || ('0' <= name[i]
            && name[i] <= '9') || name[i] == '_' {
        assert forall|i: int| config_prefix().len() <= i < name.len() implies #[trigger] name_char(
            name[i],
        ) by {
            assert(('A' <= name[i] && name[i] <= 'Z') || ('0' <= name[i] && name[i] <= '9')
                || name[i] == '_');
        }
    }
}

/// A line `<name>=<value>`, for any name of the form `CONFIG_` followed by
/// upper-case ASCII letters (all of `A` to `Z`), digits and `_`, is found by
/// a lookup of that name as the first line of a config, and gives the value
/// back: whole where it is not enclosed in double quotes.
pub proof fn law_well_formed_name_is_found(
    name: Seq<char>,
    value: Seq<char>,
    after: Seq<Seq<char>>,
)
    requires
        name.len() > 7,
        name.take(7) == seq!['C', 'O', 'N', 'F', 'I', 'G', '_'],
        forall|i: int|
            7 <= i < name.len() ==> ('A' <= #[trigger] name[i] && name[i] <= 'Z') || ('0'
                <= name[i] && name[i] <= '9') || name[i] == '_',
        !value.contains('='),
        !value.contains('\n'),
        value.len() == 0 || !white_space(value.last()),
        !(value.len() >= 2 && value[0] == '"' && value[value.len() - 1] == '"'),
    ensures
        entry_line(name, seq![name + seq!['='] + value] + after) == Some(name + seq!['='] + value),
        value_of_line(name + seq!['='] + value) == Some(value),
{
    law_entry_name_form(name);
    let empty = Seq::<Seq<char>>::empty();
    law_assignment_is_found(name, value, empty, after);
    assert(assignment_head(name) =~= name + seq!['=']);
    assert(empty + seq![name + seq!['='] + value] =~= seq![name + seq!['='] + value]);
}

/// The value of a line `<name>=<value>` is the text after the `=` unchanged
/// wherever it is not enclosed in a pair of double quotes: no character of
/// it is dropped.
pub proof fn law_plain_value_is_kept(name: Seq<char>, value: Seq<char>)
    requires
        valid_entry_name(name),
        !value.contains('='),
        !(value.len() >= 2 && value[0] == '"' && value[value.len() - 1] == '"'),
    ensures
        value_of_line(name + seq!['='] + value) == Some(value),
{
    lemma_value_of_assignment(name, value);
    assert(assignment_head(name) =~= name + seq!['=']);
}

/// The value of a line `<name>="<inner>"` is `inner`: exactly the enclosing
/// pair of double quotes is removed.
pub proof fn law_quoted_value_is_unwrapped(name: Seq<char>, inner: Seq<char>)
    requires
        valid_entry_name(name),
        !inner.contains('='),
    ensures
        value_of_line(name + seq!['='] + (seq!['"'] + inner + seq!['"'])) == Some(inner),
{
    let quoted = seq!['"'] + inner + seq!['"'];
    assert(!quoted.contains('=')) by {
        assert forall|i: int| 0 <= i < quoted.len() implies quoted[i] != '=' by {
            if 0 < i < quoted.len() - 1 {
                assert(quoted[i] == inner[i - 1]);
            }
        }
    }
    lemma_value_of_assignment(name, quoted);
    assert(assignment_head(name) =~= name + seq!['=']);
    assert(quoted.subrange(1, quoted.len() - 1) =~= inner);
}

/// Writing the line `# <name> is not set` into a config, after lines that
/// do not define `name`, makes a lookup of `name` find that line, and the
/// line is its own value.
pub proof fn law_not_set_is_found(name: Seq<char>, before: Seq<Seq<char>>, after: Seq<Seq<char>>)
    requires
        valid_entry_name(name),
        forall|j: int| 0 <= j < before.len() ==> !#[trigger] defines_at(name, before, j),
    ensures
        entry_line(name, before + seq![not_set_line(name)] + after) == Some(not_set_line(name)),
        value_of_line(not_set_line(name)) == Some(not_set_line(name)),
{
    let line = not_set_line(name);
    assert(line[0] == '#');
    assert(line.last() == not_set_suffix().last());
    lemma_trimmed_unchanged(line);
    assert(line.is_prefix_of(line)) by {
        assert(line.subrange(0, line.len() as int) =~= line);
    }
    lemma_first_definition_first(name, before);
    lemma_first_definition_concat(name, before, seq![line] + after);
    assert(before + seq![line] + after =~= before + (seq![line] + after));
    assert((seq![line] + after)[0] == line);
}

/// A line that sets or unsets one entry never defines another: a lookup of
/// `name` passes over every line written for a different entry name.
pub proof fn law_other_entries_do_not_interfere(name: Seq<char>, other: Seq<char>, value: Seq<char>)
    requires
        valid_entry_name(name),
        valid_entry_name(other),
        name != other,
    ensures
        !defines(name, assignment_head(other) + value),
        !defines(name, not_set_line(other)),
{
    let set_line = assignment_head(other) + value;
    let unset_line = not_set_line(other);
    lemma_name_chars(name, 0);
    lemma_name_chars(other, 0);
    // `# <name> is not set` starts with `#`, an entry name does not.
    if not_set_line(name).is_prefix_of(set_line) {
        assert(set_line[0] == not_set_line(name)[0]);
    }
    // `<name>=` starts with the first character of an entry name, `# ...`
    // does not.
    if assignment_head(name).is_prefix_of(unset_line) {
        assert(unset_line[0] == assignment_head(name)[0]);
    }
    if assignment_head(name).is_prefix_of(set_line) {
        if name.len() < other.len() {
            assert(set_line[name.len() as int] == assignment_head(name)[name.len() as int]);
            lemma_name_chars(other, name.len() as int);
        } else if name.len() > other.len() {
            assert(set_line[other.len() as int] == assignment_head(name)[other.len() as int]);
            lemma_name_chars(name, other.len() as int);
        } else {
            assert forall|i: int| 0 <= i < name.len() implies name[i] == other[i] by {
                assert(set_line[i] == assignment_head(name)[i]);
            }
            assert(name =~= other);
        }
    }
    if not_set_line(name).is_prefix_of(unset_line) {
        let ns = not_set_line(name);
        let ln = name.len() as int;
        let lo = other.len() as int;
        if name.len() < other.len() {
            assert(unset_line[2 + ln] == ns[2 + ln]);
            assert(ns[2 + ln] == not_set_suffix()[0]);
            lemma_name_chars(other, name.len() as int);
        } else if name.len() > other.len() {
            assert(unset_line[2 + lo] == ns[2 + lo]);
            assert(unset_line[2 + lo] == not_set_suffix()[0]);
            lemma_name_chars(name, other.len() as int);
        } else {
            assert forall|i: int| 0 <= i < name.len() implies name[i] == other[i] by {
                assert(unset_line[2 + i] == ns[2 + i]);
            }
            assert(name =~= other);
        }
    }
}

} // verus!
