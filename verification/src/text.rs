//! Character-level helpers over strings: Unicode white space, trimming,
//! prefix tests and character counts.

use vstd::prelude::*;

verus! {

/// The characters that carry the Unicode `White_Space` property, which is
/// what `char::is_whitespace` and `str::trim` go by.
pub open spec fn white_space(c: char) -> bool {
    ||| ('\u{9}' <= c && c <= '\u{d}')
    ||| c == ' '
    ||| c == '\u{85}'
    ||| c == '\u{a0}'
    ||| c == '\u{1680}'
    ||| ('\u{2000}' <= c && c <= '\u{200a}')
    ||| c == '\u{2028}'
    ||| c == '\u{2029}'
    ||| c == '\u{202f}'
    ||| c == '\u{205f}'
    ||| c == '\u{3000}'
}

/// `s` without its leading white space.
pub open spec fn trim_start(s: Seq<char>) -> Seq<char>
    decreases s.len(),
{
    if s.len() > 0 && white_space(s[0]) {
        trim_start(s.drop_first())
    } else {
        s
    }
}

/// `s` without its trailing white space.
pub open spec fn trim_end(s: Seq<char>) -> Seq<char>
    decreases s.len(),
{
    if s.len() > 0 && white_space(s.last()) {
        trim_end(s.drop_last())
    } else {
        s
    }
}

/// `s` without leading and trailing white space, as `str::trim` gives it.
pub open spec fn trimmed(s: Seq<char>) -> Seq<char> {
    trim_end(trim_start(s))
}

/// Number of occurrences of `c` in `s`.
pub open spec fn count_of(s: Seq<char>, c: char) -> nat
    decreases s.len(),
{
    if s.len() == 0 {
        0
    } else {
        count_of(s.drop_last(), c) + if s.last() == c { 1nat } else { 0nat }
    }
}

/// Whether `c` carries the Unicode `White_Space` property.
pub fn is_white_space(c: char) -> (r: bool)
    ensures
        r == white_space(c),
{
    ('\u{9}' <= c && c <= '\u{d}') || c == ' ' || c == '\u{85}' || c == '\u{a0}' || c
        == '\u{1680}' || ('\u{2000}' <= c && c <= '\u{200a}') || c == '\u{2028}' || c
        == '\u{2029}' || c == '\u{202f}' || c == '\u{205f}' || c == '\u{3000}'
}

/// Converts a string slice into the vector of its characters.
pub fn chars_of(s: &str) -> (v: Vec<char>)
    ensures
        v@ == s@,
{
    let mut v: Vec<char> = Vec::new();
    for c in it: s.chars()
        invariant
            it.seq() == s@,
            v@ == it.seq().take(it.index() as int),
    {
        v.push(c);
    }
    v
}

proof fn lemma_trim_start_skip(s: Seq<char>, i: int)
    requires
        0 <= i < s.len(),
        white_space(s[i]),
    ensures
        trim_start(s.skip(i)) == trim_start(s.skip(i + 1)),
{
    assert(s.skip(i).drop_first() =~= s.skip(i + 1));
}

proof fn lemma_trim_end_take(s: Seq<char>, j: int)
    requires
        0 < j <= s.len(),
        white_space(s[j - 1]),
    ensures
        trim_end(s.take(j)) == trim_end(s.take(j - 1)),
{
    assert(s.take(j).drop_last() =~= s.take(j - 1));
}

/// The bounds `(start, end)` of `s` without its leading and trailing white
/// space: `s[start..end]` is what `str::trim` leaves of `s`.
pub fn trim_bounds(s: &Vec<char>) -> (r: (usize, usize))
    ensures
        r.0 <= r.1 <= s.len(),
        s@.subrange(r.0 as int, r.1 as int) == trimmed(s@),
{
    let n = s.len();
    let mut start: usize = 0;
    assert(s@.skip(0) =~= s@);
    while start < n && is_white_space(s[start])
        invariant
            n == s.len(),
            start <= n,
            trim_start(s@) == trim_start(s@.skip(start as int)),
        decreases n - start,
    {
        proof {
            lemma_trim_start_skip(s@, start as int);
        }
        start = start + 1;
    }
    let ghost rest = s@.skip(start as int);
    assert(trim_start(s@) == rest) by {
        if start < n {
            assert(rest[0] == s@[start as int]);
        } else {
            assert(rest.len() == 0);
        }
    }
    let mut end: usize = n;
    assert(rest.take(rest.len() as int) =~= rest);
    while end > start && is_white_space(s[end - 1])
        invariant
            n == s.len(),
            start <= end <= n,
            rest == s@.skip(start as int),
            trim_end(rest) == trim_end(rest.take(end - start)),
        decreases end,
    {
        proof {
            lemma_trim_end_take(rest, end - start);
        }
        end = end - 1;
    }
    let ghost kept = rest.take(end - start);
    assert(trim_end(kept) == kept) by {
        if end > start {
            assert(kept.last() == s@[end - 1]);
        }
    }
    assert(kept =~= s@.subrange(start as int, end as int));
    (start, end)
}

/// The characters of `v` from position `start` up to (not including) `end`.
pub fn sub_vec(v: &Vec<char>, start: usize, end: usize) -> (r: Vec<char>)
    requires
        start <= end <= v.len(),
    ensures
        r@ == v@.subrange(start as int, end as int),
{
    let mut r: Vec<char> = Vec::new();
    let mut k: usize = start;
    while k < end
        invariant
            start <= k <= end <= v.len(),
            r@ == v@.subrange(start as int, k as int),
        decreases end - k,
    {
        r.push(v[k]);
        k = k + 1;
        assert(r@ =~= v@.subrange(start as int, k as int));
    }
    r
}

/// The characters of `a` followed by those of `b`.
pub fn concat_chars(a: &Vec<char>, b: &Vec<char>) -> (r: Vec<char>)
    ensures
        r@ == a@ + b@,
{
    let mut r: Vec<char> = Vec::new();
    let mut k: usize = 0;
    while k < a.len()
        invariant
            k <= a.len(),
            r@ == a@.take(k as int),
        decreases a.len() - k,
    {
        r.push(a[k]);
        k = k + 1;
        assert(r@ =~= a@.take(k as int));
    }
    assert(a@.take(a.len() as int) =~= a@);
    let mut j: usize = 0;
    while j < b.len()
        invariant
            j <= b.len(),
            r@ == a@ + b@.take(j as int),
        decreases b.len() - j,
    {
        r.push(b[j]);
        j = j + 1;
        assert(r@ =~= a@ + b@.take(j as int));
    }
    assert(b@.take(b.len() as int) =~= b@);
    r
}

/// Whether `needle` occurs in `hay` starting at position `at`.
pub fn occurs_at(hay: &Vec<char>, at: usize, needle: &Vec<char>) -> (r: bool)
    ensures
        r == (at + needle.len() <= hay.len() && hay@.subrange(at as int, at + needle.len())
            == needle@),
{
    if at > hay.len() || needle.len() > hay.len() - at {
        return false;
    }
    let mut k: usize = 0;
    while k < needle.len()
        invariant
            at + needle.len() <= hay.len(),
            k <= needle.len(),
            forall|m: int| 0 <= m < k ==> hay@[at + m] == needle@[m],
        decreases needle.len() - k,
    {
        if hay[at + k] != needle[k] {
            assert(hay@.subrange(at as int, at + needle.len())[k as int] != needle@[k as int]);
            return false;
        }
        k = k + 1;
    }
    assert(hay@.subrange(at as int, at + needle.len()) =~= needle@);
    true
}

/// Whether `c` occurs in `s` at or after position `from`.
pub fn occurs_from(s: &Vec<char>, from: usize, c: char) -> (r: bool)
    requires
        from <= s.len(),
    ensures
        r == s@.skip(from as int).contains(c),
{
    let mut k: usize = from;
    while k < s.len()
        invariant
            from <= k <= s.len(),
            forall|m: int| from <= m < k ==> s@[m] != c,
        decreases s.len() - k,
    {
        if s[k] == c {
            assert(s@.skip(from as int)[k - from] == c);
            return true;
        }
        k = k + 1;
    }
    assert forall|m: int| 0 <= m < s@.skip(from as int).len() implies s@.skip(from as int)[m]
        != c by {
        assert(s@.skip(from as int)[m] == s@[from + m]);
    }
    false
}

proof fn lemma_count_take_step(s: Seq<char>, k: int, c: char)
    requires
        0 <= k < s.len(),
    ensures
        count_of(s.take(k + 1), c) == count_of(s.take(k), c) + if s[k] == c { 1nat } else { 0nat },
{
    assert(s.take(k + 1).drop_last() =~= s.take(k));
}

/// The number of occurrences of `c` in `s` (saturating at `usize::MAX`),
/// with the position of the first of them when there is one.
pub fn count_and_first(s: &Vec<char>, c: char) -> (r: (usize, usize))
    ensures
        r.0 == count_of(s@, c) || (r.0 == usize::MAX && count_of(s@, c) >= usize::MAX),
        r.0 > 0 ==> r.1 < s.len() && s@[r.1 as int] == c && !s@.take(r.1 as int).contains(c),
{
    let mut count: usize = 0;
    let mut first: usize = 0;
    let mut k: usize = 0;
    assert(s@.take(0) =~= Seq::<char>::empty());
    while k < s.len()
        invariant
            k <= s.len(),
            count == count_of(s@.take(k as int), c) || (count == usize::MAX && count_of(
                s@.take(k as int),
                c,
            ) >= usize::MAX),
            count > 0 ==> first < k && s@[first as int] == c && !s@.take(first as int).contains(
                c,
            ),
            count == 0 ==> !s@.take(k as int).contains(c),
        decreases s.len() - k,
    {
        proof {
            lemma_count_take_step(s@, k as int, c);
        }
        if s[k] == c {
            if count == 0 {
                first = k;
            }
            if count < usize::MAX {
                count = count + 1;
            }
        }
        assert(count == 0 ==> !s@.take(k + 1).contains(c)) by {
            if count == 0 {
                assert forall|m: int| 0 <= m < k + 1 implies #[trigger] s@.take(k + 1)[m] != c by {
                    if m < k {
                        assert(s@.take(k + 1)[m] == s@.take(k as int)[m]);
                    }
                }
            }
        }
        k = k + 1;
    }
    assert(s@.take(s.len() as int) =~= s@);
    (count, first)
}

} // verus!
