//! The line model of a configuration file: splitting text into lines on the
//! line-break character, joining lines back with one line break each, and the
//! round trip between the two.

use vstd::prelude::*;
use crate::chars::{scan_to, lemma_scan_to_bounds, lemma_scan_to_is};

verus! {

/// True of a line that holds no line break, as every line produced by
/// `split_lines` does.
pub open spec fn line_ok(l: Seq<char>) -> bool {
    !l.contains('\n')
}

/// Index of the first line break in `s`, or `s.len()` if there is none.
pub open spec fn first_break(s: Seq<char>) -> int {
    scan_to(s, |c: char| c == '\n')
}

/// The lines of `s`: maximal runs between line breaks. A trailing line break
/// closes the last line rather than opening an empty one, so `"a\n"` has the
/// single line `"a"`.
pub open spec fn split_lines(s: Seq<char>) -> Seq<Seq<char>>
    decreases s.len(),
    via split_lines_decreases
{
    if s.len() == 0 {
        Seq::empty()
    } else {
        let i = first_break(s);
        if i == s.len() {
            seq![s]
        } else {
            seq![s.take(i)] + split_lines(s.skip(i + 1))
        }
    }
}

#[via_fn]
proof fn split_lines_decreases(s: Seq<char>) {
    lemma_scan_to_bounds(s, |c: char| c == '\n');
}

/// Each line followed by one line break.
pub open spec fn join_lines(ls: Seq<Seq<char>>) -> Seq<char>
    decreases ls.len(),
{
    if ls.len() == 0 {
        Seq::empty()
    } else {
        ls[0] + seq!['\n'] + join_lines(ls.skip(1))
    }
}

/// The text written for a sequence of lines: joined with one line break
/// each, and a bare line break when there is no line at all, so the file
/// always ends in exactly one line break.
pub open spec fn render_lines(ls: Seq<Seq<char>>) -> Seq<char> {
    if ls.len() == 0 {
        seq!['\n']
    } else {
        join_lines(ls)
    }
}

pub proof fn lemma_first_break_bounds(s: Seq<char>)
    ensures
        0 <= first_break(s) <= s.len(),
        forall|j: int| 0 <= j < first_break(s) ==> s[j] != '\n',
        first_break(s) < s.len() ==> s[first_break(s)] == '\n',
{
    lemma_scan_to_bounds(s, |c: char| c == '\n');
}

/// Every line produced by `split_lines` is free of line breaks.
pub proof fn lemma_split_lines_ok(s: Seq<char>)
    ensures
        forall|i: int|
            0 <= i < split_lines(s).len() ==> #[trigger] line_ok(split_lines(s)[i]),
    decreases s.len(),
{
    if s.len() > 0 {
        let i = first_break(s);
        lemma_first_break_bounds(s);
        if i == s.len() {
            assert(line_ok(s)) by {
                assert(forall|j: int| 0 <= j < s.len() ==> s[j] != '\n');
            }
        } else {
            lemma_split_lines_ok(s.skip(i + 1));
            assert(line_ok(s.take(i))) by {
                assert(forall|j: int| 0 <= j < i ==> s.take(i)[j] != '\n');
            }
            assert(forall|k: int|
                0 <= k < split_lines(s).len() ==> #[trigger] split_lines(s)[k] == if k == 0 {
                    s.take(i)
                } else {
                    split_lines(s.skip(i + 1))[k - 1]
                });
        }
    }
}

/// Splitting the text joined from break-free lines gives those lines back.
pub proof fn lemma_split_join(ls: Seq<Seq<char>>)
    requires
        forall|i: int| 0 <= i < ls.len() ==> #[trigger] line_ok(ls[i]),
    ensures
        split_lines(join_lines(ls)) == ls,
    decreases ls.len(),
{
    if ls.len() == 0 {
        assert(split_lines(join_lines(ls)) =~= ls);
    } else {
        let head = ls[0];
        let rest = ls.skip(1);
        let s = join_lines(ls);
        assert(line_ok(head));
        assert(forall|i: int| 0 <= i < rest.len() ==> rest[i] == ls[i + 1]);
        lemma_split_join(rest);
        let n = head.len() as int;
        assert(s.len() == n + 1 + join_lines(rest).len());
        assert forall|j: int| 0 <= j < n implies s[j] != '\n' by {
            assert(s[j] == head[j]);
            assert(!head.contains('\n'));
        }
        assert(s[n] == '\n');
        lemma_scan_to_is(s, |c: char| c == '\n', n);
        assert(first_break(s) == n);
        assert(s.take(n) =~= head);
        assert(s.skip(n + 1) =~= join_lines(rest));
        assert(split_lines(s) == seq![head] + split_lines(join_lines(rest)));
        assert(seq![head] + rest =~= ls);
    }
}

/// Splitting the rendered text: the lines come back, except that rendering
/// no lines at all yields one empty line.
pub proof fn lemma_split_render(ls: Seq<Seq<char>>)
    requires
        forall|i: int| 0 <= i < ls.len() ==> #[trigger] line_ok(ls[i]),
    ensures
        ls.len() > 0 ==> split_lines(render_lines(ls)) == ls,
        ls.len() == 0 ==> split_lines(render_lines(ls)) == seq![Seq::<char>::empty()],
{
    if ls.len() > 0 {
        lemma_split_join(ls);
    } else {
        let s = seq!['\n'];
        reveal_with_fuel(split_lines, 2);
        assert(s[0] == '\n');
        lemma_scan_to_is(s, |c: char| c == '\n', 0);
        assert(first_break(s) == 0);
        assert(s.take(0) =~= Seq::<char>::empty());
        assert(s.skip(1) =~= Seq::<char>::empty());
        assert(split_lines(s.skip(1)) == Seq::<Seq<char>>::empty());
        assert(split_lines(s) =~~= seq![Seq::<char>::empty()]);
    }
}

/// Joined text always closes with a line break.
pub proof fn lemma_join_lines_last(ls: Seq<Seq<char>>)
    requires
        ls.len() > 0,
    ensures
        join_lines(ls).len() > 0,
        join_lines(ls).last() == '\n',
    decreases ls.len(),
{
    if ls.len() == 1 {
        reveal_with_fuel(join_lines, 2);
        assert(ls.skip(1) =~= Seq::<Seq<char>>::empty());
        assert(join_lines(ls.skip(1)) == Seq::<char>::empty());
        assert(join_lines(ls) =~= ls[0] + seq!['\n']);
    } else {
        lemma_join_lines_last(ls.skip(1));
    }
}

/// Rendered text is never empty and always ends with a line break.
pub proof fn lemma_render_trailing_break(ls: Seq<Seq<char>>)
    ensures
        render_lines(ls).len() > 0,
        render_lines(ls).last() == '\n',
{
    if ls.len() > 0 {
        lemma_join_lines_last(ls);
    }
}

/// Joining one more line appends it and one line break.
pub proof fn lemma_join_push(ls: Seq<Seq<char>>, l: Seq<char>)
    ensures
        join_lines(ls.push(l)) == join_lines(ls) + l + seq!['\n'],
    decreases ls.len(),
{
    if ls.len() == 0 {
        reveal_with_fuel(join_lines, 2);
        assert(ls.push(l)[0] == l);
        assert(ls.push(l).skip(1) =~= Seq::<Seq<char>>::empty());
        assert(join_lines(ls.push(l).skip(1)) == Seq::<char>::empty());
        assert(join_lines(ls.push(l)) =~= join_lines(ls) + l + seq!['\n']);
    } else {
        assert(ls.push(l).skip(1) =~= ls.skip(1).push(l));
        lemma_join_push(ls.skip(1), l);
        assert(join_lines(ls.push(l)) == ls[0] + seq!['\n'] + (join_lines(ls.skip(1)) + l
            + seq!['\n']));
        assert(ls[0] + seq!['\n'] + (join_lines(ls.skip(1)) + l + seq!['\n']) =~= (ls[0]
            + seq!['\n'] + join_lines(ls.skip(1))) + l + seq!['\n']);
    }
}

/// Split a string into its lines.
pub fn split_into_lines(text: &str) -> (lines: Vec<String>)
    ensures
        lines.deep_view() == split_lines(text@),
{
    let n = text.unicode_len();
    let mut lines: Vec<String> = Vec::new();
    let mut start: usize = 0;
    let mut i: usize = 0;
    proof {
        assert(text@.skip(0) =~= text@);
        assert(lines.deep_view() + split_lines(text@) =~= split_lines(text@));
    }
    while i < n
        invariant
            n == text@.len(),
            0 <= start <= i <= n,
            forall|j: int| start <= j < i ==> text@[j] != '\n',
            lines.deep_view() + split_lines(text@.skip(start as int)) == split_lines(text@),
        decreases n - i,
    {
        if text.get_char(i) == '\n' {
            let piece = text.substring_char(start, i);
            let ghost old_lines = lines.deep_view();
            lines.push(piece.to_owned());
            proof {
                let tail = text@.skip(start as int);
                assert forall|j: int| 0 <= j < i - start implies tail[j] != '\n' by {
                    assert(tail[j] == text@[start + j]);
                }
                assert(tail[i - start] == '\n');
                lemma_scan_to_is(tail, |c: char| c == '\n', i - start);
                assert(first_break(tail) == i - start);
                assert(tail.take(i - start) =~= text@.subrange(start as int, i as int));
                assert(tail.skip(i - start + 1) =~= text@.skip(i + 1));
                assert(split_lines(tail) == seq![text@.subrange(start as int, i as int)]
                    + split_lines(text@.skip(i + 1)));
                assert(lines.deep_view() =~= old_lines.push(piece@));
                assert(lines.deep_view() + split_lines(text@.skip(i + 1)) =~= old_lines
                    + split_lines(tail));
            }
            start = i + 1;
        }
        i = i + 1;
    }
    if start < n {
        let piece = text.substring_char(start, n);
        let ghost old_lines = lines.deep_view();
        lines.push(piece.to_owned());
        proof {
            let tail = text@.skip(start as int);
            assert forall|j: int| 0 <= j < tail.len() implies tail[j] != '\n' by {
                assert(tail[j] == text@[start + j]);
            }
            lemma_scan_to_is(tail, |c: char| c == '\n', tail.len() as int);
            assert(first_break(tail) == tail.len());
            assert(tail =~= text@.subrange(start as int, n as int));
            assert(split_lines(tail) == seq![tail]);
            assert(lines.deep_view() =~= old_lines.push(piece@));
            assert(lines.deep_view() =~= old_lines + split_lines(tail));
        }
    } else {
        proof {
            assert(text@.skip(start as int) =~= Seq::<char>::empty());
            assert(lines.deep_view() + split_lines(text@.skip(start as int)) =~= lines.deep_view());
        }
    }
    lines
}

/// Write a sequence of lines back out as one text, each line followed by one
/// line break.
pub fn render_to_text(lines: &Vec<String>) -> (r: String)
    ensures
        r@ == render_lines(lines.deep_view()),
{
    proof {
        reveal_strlit("\n");
    }
    if lines.len() == 0 {
        let r = "\n".to_owned();
        proof {
            assert(r@ =~= seq!['\n']);
        }
        return r;
    }
    let mut out = String::new();
    let mut i: usize = 0;
    while i < lines.len()
        invariant
            0 <= i <= lines.len(),
            out@ == join_lines(lines.deep_view().take(i as int)),
        decreases lines.len() - i,
    {
        let ghost prefix = lines.deep_view().take(i as int);
        out.append(lines[i].as_str());
        out.append("\n");
        proof {
            reveal_strlit("\n");
            assert("\n"@ =~= seq!['\n']);
            lemma_join_push(prefix, lines.deep_view()[i as int]);
            assert(lines.deep_view().take(i + 1) =~= prefix.push(lines.deep_view()[i as int]));
        }
        i = i + 1;
    }
    proof {
        assert(lines.deep_view().take(lines.len() as int) =~= lines.deep_view());
    }
    out
}

} // verus!
