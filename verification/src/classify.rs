//! Classifying one configuration line: opaque (blank, comment, or without an
//! assignment) versus an assignment, and the key of an assignment line.
//!
//! The key of a line is the part of the whitespace-trimmed line before its
//! first `=`. Lines without an `=` are never discarded by the reconciler, so
//! they count as opaque here.

use vstd::prelude::*;
use crate::chars::{is_space_char, scan_to, lemma_scan_to_bounds, lemma_scan_to_is};
use crate::strutil::str_eq;

verus! {

pub open spec fn trim_start(s: Seq<char>) -> Seq<char>
    decreases s.len(),
{
    if s.len() == 0 {
        s
    } else if is_space_char(s[0]) {
        trim_start(s.skip(1))
    } else {
        s
    }
}

pub open spec fn trim_end(s: Seq<char>) -> Seq<char>
    decreases s.len(),
{
    if s.len() == 0 {
        s
    } else if is_space_char(s.last()) {
        trim_end(s.drop_last())
    } else {
        s
    }
}

/// The line with leading and trailing whitespace removed.
pub open spec fn trimmed(s: Seq<char>) -> Seq<char> {
    trim_end(trim_start(s))
}

/// Index of the first `=` in the trimmed line, or its length if none.
pub open spec fn first_eq(t: Seq<char>) -> int {
    scan_to(t, |c: char| c == '=')
}

/// A line the reconciler preserves unconditionally: blank once trimmed,
/// starting with the comment marker, or holding no `=` at all.
pub open spec fn is_opaque_line(l: Seq<char>) -> bool {
    let t = trimmed(l);
    t.len() == 0 || t[0] == '#' || first_eq(t) == t.len()
}

/// The key of an assignment line: the trimmed text before the first `=`.
/// Meaningful only when the line is not opaque.
pub open spec fn line_key(l: Seq<char>) -> Seq<char> {
    let t = trimmed(l);
    t.take(first_eq(t))
}

/// An assignment line whose key is in the owned set of this run.
pub open spec fn line_owned(l: Seq<char>, keys: Seq<Seq<char>>) -> bool {
    !is_opaque_line(l) && keys.contains(line_key(l))
}

pub proof fn lemma_trim_start_is(s: Seq<char>, i: int)
    requires
        0 <= i <= s.len(),
        forall|j: int| 0 <= j < i ==> is_space_char(s[j]),
        i < s.len() ==> !is_space_char(s[i]),
    ensures
        trim_start(s) == s.skip(i),
    decreases s.len(),
{
    if s.len() == 0 {
        assert(s.skip(0) =~= s);
    } else if i == 0 {
        if is_space_char(s[0]) {
            assert(false);
        }
        assert(s.skip(0) =~= s);
    } else {
        assert(is_space_char(s[0]));
        assert forall|j: int| 0 <= j < i - 1 implies is_space_char(s.skip(1)[j]) by {
            assert(s.skip(1)[j] == s[j + 1]);
        }
        if i - 1 < s.skip(1).len() {
            assert(s.skip(1)[i - 1] == s[i]);
        }
        lemma_trim_start_is(s.skip(1), i - 1);
        assert(s.skip(1).skip(i - 1) =~= s.skip(i));
    }
}

pub proof fn lemma_trim_end_is(s: Seq<char>, m: int)
    requires
        0 <= m <= s.len(),
        forall|k: int| m <= k < s.len() ==> is_space_char(s[k]),
        m > 0 ==> !is_space_char(s[m - 1]),
    ensures
        trim_end(s) == s.take(m),
    decreases s.len(),
{
    if s.len() == 0 {
        assert(s.take(0) =~= s);
    } else if is_space_char(s.last()) {
        assert(m < s.len());
        assert forall|k: int| m <= k < s.drop_last().len() implies is_space_char(
            s.drop_last()[k],
        ) by {
            assert(s.drop_last()[k] == s[k]);
        }
        if m > 0 {
            assert(s.drop_last()[m - 1] == s[m - 1]);
        }
        lemma_trim_end_is(s.drop_last(), m);
        assert(s.drop_last().take(m) =~= s.take(m));
    } else {
        assert(m == s.len());
        assert(s.take(m) =~= s);
    }
}

/// A line that starts and ends with non-whitespace is unchanged by trimming.
pub proof fn lemma_trim_noop(s: Seq<char>)
    requires
        s.len() > 0,
        !is_space_char(s[0]),
        !is_space_char(s.last()),
    ensures
        trimmed(s) == s,
{
    assert(trim_start(s) == s);
}

/// Find the bounds of the trimmed line: `trimmed(line@)` is
/// `line@.subrange(i, j)`.
pub fn trim_bounds(line: &str) -> (r: (usize, usize))
    ensures
        0 <= r.0 <= r.1 <= line@.len(),
        trimmed(line@) == line@.subrange(r.0 as int, r.1 as int),
{
    let n = line.unicode_len();
    let mut i: usize = 0;
    while i < n && is_space_exec(line.get_char(i))
        invariant
            n == line@.len(),
            0 <= i <= n,
            forall|j: int| 0 <= j < i ==> is_space_char(line@[j]),
        decreases n - i,
    {
        i = i + 1;
    }
    proof {
        lemma_trim_start_is(line@, i as int);
    }
    if i == n {
        proof {
            assert(line@.skip(n as int) =~= Seq::<char>::empty());
            assert(trim_end(Seq::<char>::empty()) == Seq::<char>::empty());
            assert(line@.subrange(n as int, n as int) =~= Seq::<char>::empty());
        }
        return (n, n);
    }
    let mut j: usize = n;
    while j > i && is_space_exec(line.get_char(j - 1))
        invariant
            n == line@.len(),
            0 <= i <= j <= n,
            i < n,
            forall|k: int| j <= k < n ==> is_space_char(line@[k]),
        decreases j,
    {
        j = j - 1;
    }
    proof {
        let t = line@.skip(i as int);
        assert forall|k: int| j - i <= k < t.len() implies is_space_char(t[k]) by {
            assert(t[k] == line@[i + k]);
        }
        if j > i {
            assert(t[j - i - 1] == line@[j - 1]);
            assert(!is_space_char(line@[j - 1]));
        } else {
            assert(j == i);
            assert(!is_space_char(line@[i as int]));
            assert(t[0] == line@[i as int]);
            assert(j - i == 0 || !is_space_char(t[j - i - 1]));
        }
        lemma_trim_end_is(t, j - i);
        assert(t.take(j - i) =~= line@.subrange(i as int, j as int));
    }
    (i, j)
}

/// Executable test for the whitespace class.
pub fn is_space_exec(c: char) -> (r: bool)
    ensures
        r == is_space_char(c),
{
    c == '\t' || c == '\n' || c == '\u{B}' || c == '\u{C}' || c == '\r' || c == ' ' || c
        == '\u{85}' || c == '\u{A0}' || c == '\u{1680}' || ('\u{2000}' <= c && c <= '\u{200A}') || c
        == '\u{2028}' || c == '\u{2029}' || c == '\u{202F}' || c == '\u{205F}' || c == '\u{3000}'
}

/// Decide whether a line is an assignment to one of the owned keys of this
/// run.
pub fn line_is_owned(line: &str, keys: &Vec<String>) -> (r: bool)
    ensures
        r == line_owned(line@, keys.deep_view()),
{
    let (i, j) = trim_bounds(line);
    let ghost t = trimmed(line@);
    if i == j {
        proof {
            assert(t.len() == 0);
        }
        return false;
    }
    if line.get_char(i) == '#' {
        proof {
            assert(t[0] == line@[i as int]);
        }
        return false;
    }
    let mut m: usize = i;
    while m < j && line.get_char(m) != '='
        invariant
            i <= m <= j <= line@.len(),
            forall|k: int| i <= k < m ==> line@[k] != '=',
        decreases j - m,
    {
        m = m + 1;
    }
    proof {
        assert forall|k: int| 0 <= k < m - i implies !(t[k] == '=') by {
            assert(t[k] == line@[i + k]);
        }
        if m < j {
            assert(t[m - i] == line@[m as int]);
        }
        lemma_scan_to_is(t, |c: char| c == '=', m - i);
        assert(first_eq(t) == m - i);
    }
    if m == j {
        proof {
            assert(first_eq(t) == t.len());
        }
        return false;
    }
    let key = line.substring_char(i, m);
    proof {
        assert(key@ == line@.subrange(i as int, m as int));
        assert(t.take(m - i) =~= line@.subrange(i as int, m as int));
        assert(line_key(line@) == key@);
        assert(!is_opaque_line(line@));
    }
    let mut idx: usize = 0;
    while idx < keys.len()
        invariant
            0 <= idx <= keys.deep_view().len(),
            keys.deep_view().len() == keys@.len(),
            key@ == line_key(line@),
            !is_opaque_line(line@),
            forall|j2: int| 0 <= j2 < idx ==> keys.deep_view()[j2] != key@,
        decreases keys@.len() - idx,
    {
        if str_eq(key, keys[idx].as_str()) {
            proof {
                assert(keys.deep_view()[idx as int] == key@);
                assert(keys.deep_view().contains(line_key(line@)));
            }
            return true;
        }
        idx = idx + 1;
    }
    proof {
        assert(!keys.deep_view().contains(line_key(line@)));
    }
    false
}

} // verus!
