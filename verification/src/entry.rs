//! The grammar of a kernel config: entry names, the lines that define an
//! entry, and the value such a line gives.
//!
//! A config is a text of lines such as
//!
//! - `CONFIG_FOO=y`
//! - `CONFIG_FOO="something something"`
//! - `# CONFIG_FOO is not set`

use vstd::prelude::*;

use crate::text::{chars_of, count_of, occurs_at, occurs_from, trimmed};

verus! {

/// `CONFIG_`, with which every entry name starts.
pub open spec fn config_prefix() -> Seq<char> {
    seq!['C', 'O', 'N', 'F', 'I', 'G', '_']
}

/// The characters that may follow `CONFIG_` in an entry name.
pub open spec fn name_char(c: char) -> bool {
    ('A' <= c && c <= 'Z') || ('0' <= c && c <= '9') || c == '_'
}

/// `name` is a config entry name: `CONFIG_` followed by one or more of
/// `A`-`Z`, `0`-`9` and `_`, and nothing else.
pub open spec fn valid_entry_name(name: Seq<char>) -> bool {
    &&& config_prefix().is_prefix_of(name)
    &&& name.len() > config_prefix().len()
    &&& forall|i: int| config_prefix().len() <= i < name.len() ==> #[trigger] name_char(name[i])
}

/// ` is not set`
pub open spec fn not_set_suffix() -> Seq<char> {
    seq![' ', 'i', 's', ' ', 'n', 'o', 't', ' ', 's', 'e', 't']
}

/// `# <name> is not set`
pub open spec fn not_set_line(name: Seq<char>) -> Seq<char> {
    seq!['#', ' '] + name + not_set_suffix()
}

/// `<name>=`
pub open spec fn assignment_head(name: Seq<char>) -> Seq<char> {
    name.push('=')
}

/// The (trimmed) line `t` defines the entry `name`: it starts with
/// `# <name> is not set`, or it is `<name>=` followed by a value that holds no
/// line break.
pub open spec fn defines(name: Seq<char>, t: Seq<char>) -> bool {
    ||| not_set_line(name).is_prefix_of(t)
    ||| (assignment_head(name).is_prefix_of(t) && !t.contains('\n'))
}

/// The first of `lines`, trimmed, that defines `name`.
pub open spec fn first_definition(name: Seq<char>, lines: Seq<Seq<char>>) -> Option<Seq<char>>
    decreases lines.len(),
{
    if lines.len() == 0 {
        None
    } else if defines(name, trimmed(lines[0])) {
        Some(trimmed(lines[0]))
    } else {
        first_definition(name, lines.drop_first())
    }
}

/// The line of `lines` that a lookup of `name` finds: none where `name` is
/// not an entry name, else the first line that defines it, trimmed.
pub open spec fn entry_line(name: Seq<char>, lines: Seq<Seq<char>>) -> Option<Seq<char>> {
    if valid_entry_name(name) {
        first_definition(name, lines)
    } else {
        None
    }
}

/// `v` without one pair of enclosing double quotes, where it has them.
pub open spec fn unquoted(v: Seq<char>) -> Seq<char> {
    if v.len() >= 2 && v[0] == '"' && v.last() == '"' {
        v.subrange(1, v.len() - 1)
    } else {
        v
    }
}

/// `p` is the position of the first `=` in `l`.
pub open spec fn first_equals_at(l: Seq<char>, p: int) -> bool {
    0 <= p < l.len() && l[p] == '=' && !l.take(p).contains('=')
}

/// What follows the `=` of `l`.
pub open spec fn after_equals(l: Seq<char>) -> Seq<char> {
    l.skip((choose|p: int| first_equals_at(l, p)) + 1)
}

/// The value that the line `l` gives: a line that starts with `#` is its own
/// value; otherwise the line must hold exactly one `=`, and the value is what
/// follows it, without enclosing double quotes.
pub open spec fn value_of_line(l: Seq<char>) -> Option<Seq<char>> {
    if l.len() > 0 && l[0] == '#' {
        Some(l)
    } else if count_of(l, '=') == 1 {
        Some(unquoted(after_equals(l)))
    } else {
        None
    }
}

/// `a + b + c` is a prefix of `t` exactly where `a`, `b` and `c` occur in
/// `t` one after the other from its start.
proof fn lemma_prefix_of_concat3(t: Seq<char>, a: Seq<char>, b: Seq<char>, c: Seq<char>)
    ensures
        (a + b + c).is_prefix_of(t) <==> {
            &&& a.len() + b.len() + c.len() <= t.len()
            &&& t.subrange(0, a.len() as int) == a
            &&& t.subrange(a.len() as int, (a.len() + b.len()) as int) == b
            &&& t.subrange((a.len() + b.len()) as int, (a.len() + b.len() + c.len()) as int) == c
        },
{
    let abc = a + b + c;
    let la = a.len() as int;
    let lb = b.len() as int;
    let lc = c.len() as int;
    if abc.is_prefix_of(t) {
        assert(t.subrange(0, la) =~= abc.subrange(0, la));
        assert(t.subrange(la, la + lb) =~= abc.subrange(la, la + lb));
        assert(t.subrange(la + lb, la + lb + lc) =~= abc.subrange(la + lb, la + lb + lc));
        assert(abc.subrange(0, la) =~= a);
        assert(abc.subrange(la, la + lb) =~= b);
        assert(abc.subrange(la + lb, la + lb + lc) =~= c);
    }
    if la + lb + lc <= t.len() && t.subrange(0, la) == a && t.subrange(la, la + lb) == b
        && t.subrange(la + lb, la + lb + lc) == c {
        assert forall|i: int| 0 <= i < abc.len() implies #[trigger] t.subrange(
            0,
            abc.len() as int,
        )[i] == abc[i] by {
            if i < la {
                assert(t.subrange(0, la)[i] == t[i]);
            } else if i < la + lb {
                assert(t.subrange(la, la + lb)[i - la] == t[i]);
            } else {
                assert(t.subrange(la + lb, la + lb + lc)[i - la - lb] == t[i]);
            }
        }
        assert(t.subrange(0, abc.len() as int) =~= abc);
    }
}

/// Whether `name` is a config entry name (`CONFIG_FOO_BAR` rather than
/// `abracadabra`).
pub fn is_config_entry_name_valid(name: &str) -> (r: bool)
    ensures
        r == valid_entry_name(name@),
{
    let cs = chars_of(name);
    let prefix = vec!['C', 'O', 'N', 'F', 'I', 'G', '_'];
    assert(prefix@ =~= config_prefix());
    if !occurs_at(&cs, 0, &prefix) || cs.len() <= 7 {
        return false;
    }
    assert(cs@.subrange(0, 7) =~= cs@.subrange(0, config_prefix().len() as int));
    let mut k: usize = 7;
    while k < cs.len()
        invariant
            7 <= k <= cs.len(),
            cs@ == name@,
            config_prefix().is_prefix_of(cs@),
            forall|i: int| 7 <= i < k ==> #[trigger] name_char(cs@[i]),
        decreases cs.len() - k,
    {
        let c = cs[k];
        if !(('A' <= c && c <= 'Z') || ('0' <= c && c <= '9') || c == '_') {
            assert(!name_char(cs@[k as int]));
            return false;
        }
        k = k + 1;
    }
    true
}

/// Whether the (trimmed) line `t` defines the entry `name`.
pub fn line_defines(name: &Vec<char>, t: &Vec<char>) -> (r: bool)
    ensures
        r == defines(name@, t@),
{
    let hash = vec!['#', ' '];
    let suffix = vec![' ', 'i', 's', ' ', 'n', 'o', 't', ' ', 's', 'e', 't'];
    let equals = vec!['='];
    let ghost ns = not_set_line(name@);
    let ghost ah = assignment_head(name@);
    assert(hash@ =~= seq!['#', ' ']);
    assert(suffix@ =~= not_set_suffix());
    assert(equals@ =~= seq!['=']);
    proof {
        lemma_prefix_of_concat3(t@, hash@, name@, suffix@);
        assert(ns =~= hash@ + name@ + suffix@);
    }
    let not_set = occurs_at(t, 0, &hash) && occurs_at(t, 2, name) && occurs_at(
        t,
        2 + name.len(),
        &suffix,
    );
    if not_set {
        return true;
    }
    proof {
        lemma_prefix_of_concat3(t@, name@, equals@, Seq::<char>::empty());
        assert(ah =~= name@ + equals@ + Seq::<char>::empty());
    }
    let assigned = occurs_at(t, 0, name) && occurs_at(t, name.len(), &equals);
    if !assigned {
        return false;
    }
    let newline = occurs_from(t, 0, '\n');
    assert(t@.skip(0) =~= t@);
    !newline
}

} // verus!
