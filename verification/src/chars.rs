//! Character classes used by the reconciler and the ledger, and a generic
//! left-to-right scan with its characterization lemma.

use vstd::prelude::*;

verus! {

/// The Unicode white-space characters, the set `str::trim` removes: what
/// the reconciler ignores at the ends of a line when classifying it.
pub open spec fn is_space_char(c: char) -> bool {
    c == '\t' || c == '\n' || c == '\u{B}' || c == '\u{C}' || c == '\r' || c == ' ' || c
        == '\u{85}' || c == '\u{A0}' || c == '\u{1680}' || ('\u{2000}' <= c && c <= '\u{200A}') || c
        == '\u{2028}' || c == '\u{2029}' || c == '\u{202F}' || c == '\u{205F}' || c == '\u{3000}'
}

/// Characters allowed in an owned configuration key: uppercase ASCII letters,
/// digits, and underscore.
pub open spec fn is_key_char(c: char) -> bool {
    ('A' <= c && c <= 'Z') || ('0' <= c && c <= '9') || c == '_'
}

/// How prefix normalization folds one character: lowercase letters are
/// uppercased, uppercase letters and digits stay, everything else becomes an
/// underscore.
pub open spec fn fold_char(c: char) -> char {
    if 'a' <= c && c <= 'z' {
        (c as int - 32) as char
    } else if ('A' <= c && c <= 'Z') || ('0' <= c && c <= '9') {
        c
    } else {
        '_'
    }
}

pub proof fn lemma_fold_char_is_key_char(c: char)
    ensures
        is_key_char(fold_char(c)),
{
    if 'a' <= c && c <= 'z' {
        assert(65 <= c as int - 32 <= 90);
        assert(is_key_char((c as int - 32) as char));
    }
}

/// Executable fold of one character, matching `fold_char`.
pub fn fold_char_exec(c: char) -> (r: char)
    ensures
        r == fold_char(c),
{
    if 'a' <= c && c <= 'z' {
        ((c as u8) - 32) as char
    } else if ('A' <= c && c <= 'Z') || ('0' <= c && c <= '9') {
        c
    } else {
        '_'
    }
}

/// Index of the first character of `s` satisfying `pred`, or `s.len()` if
/// none does.
pub open spec fn scan_to(s: Seq<char>, pred: spec_fn(char) -> bool) -> int
    decreases s.len(),
{
    if s.len() == 0 {
        0
    } else if pred(s[0]) {
        0
    } else {
        1 + scan_to(s.skip(1), pred)
    }
}

pub proof fn lemma_scan_to_bounds(s: Seq<char>, pred: spec_fn(char) -> bool)
    ensures
        0 <= scan_to(s, pred) <= s.len(),
        forall|j: int| 0 <= j < scan_to(s, pred) ==> !pred(s[j]),
        scan_to(s, pred) < s.len() ==> pred(s[scan_to(s, pred)]),
    decreases s.len(),
{
    if s.len() > 0 && !pred(s[0]) {
        lemma_scan_to_bounds(s.skip(1), pred);
        assert forall|j: int| 0 <= j < scan_to(s, pred) implies !pred(s[j]) by {
            if j > 0 {
                assert(s.skip(1)[j - 1] == s[j]);
            }
        }
        if scan_to(s, pred) < s.len() {
            assert(s.skip(1)[scan_to(s, pred) - 1] == s[scan_to(s, pred)]);
        }
    }
}

/// `scan_to` is pinned down by a witness: if no character before `i`
/// satisfies `pred`, and `i` is either the end or a satisfying position,
/// then the scan stops exactly at `i`.
pub proof fn lemma_scan_to_is(s: Seq<char>, pred: spec_fn(char) -> bool, i: int)
    requires
        0 <= i <= s.len(),
        forall|j: int| 0 <= j < i ==> !pred(s[j]),
        i < s.len() ==> pred(s[i]),
    ensures
        scan_to(s, pred) == i,
    decreases s.len(),
{
    if s.len() > 0 && !pred(s[0]) {
        assert forall|j: int| 0 <= j < i - 1 implies !pred(s.skip(1)[j]) by {
            assert(s.skip(1)[j] == s[j + 1]);
        }
        if i - 1 < s.skip(1).len() {
            assert(s.skip(1)[i - 1] == s[i]);
        }
        lemma_scan_to_is(s.skip(1), pred, i - 1);
    }
}

} // verus!
