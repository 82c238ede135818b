//! The template materializer: substituting the output directory placeholder
//! in a derived artifact with the project's canonical output path
//! (replacement is leftmost and non-overlapping), and the binary presence
//! gate — a derived artifact is written only when absent, never merged or
//! overwritten.

use vstd::prelude::*;

verus! {

/// The placeholder token substituted in templates.
pub open spec fn placeholder() -> Seq<char> {
    "{{output_dir}}"@
}

/// Every leftmost, non-overlapping occurrence of `pat` in `s` replaced by
/// `rep`; an empty pattern replaces nothing.
pub open spec fn replace_all(s: Seq<char>, pat: Seq<char>, rep: Seq<char>) -> Seq<char>
    decreases s.len(),
{
    if pat.len() == 0 || s.len() < pat.len() {
        s
    } else if s.take(pat.len() as int) == pat {
        rep + replace_all(s.skip(pat.len() as int), pat, rep)
    } else {
        seq![s[0]] + replace_all(s.skip(1), pat, rep)
    }
}

/// Peeling one character off the front commutes with replacement when the
/// pattern does not match at the front.
proof fn lemma_replace_step(s: Seq<char>, pat: Seq<char>, rep: Seq<char>)
    requires
        pat.len() > 0,
        s.len() > 0,
        s.len() < pat.len() || s.take(pat.len() as int) != pat,
    ensures
        replace_all(s, pat, rep) == seq![s[0]] + replace_all(s.skip(1), pat, rep),
{
    if s.len() < pat.len() {
        assert(s.skip(1).len() < pat.len());
        assert(replace_all(s.skip(1), pat, rep) == s.skip(1));
        assert(seq![s[0]] + s.skip(1) =~= s);
    }
}

/// Does `pat` occur in `t` at position `i`?
fn match_at(t: &str, i: usize, pat: &str) -> (r: bool)
    requires
        i + pat@.len() <= t@.len(),
        t@.len() <= usize::MAX,
    ensures
        r == (t@.subrange(i as int, i + pat@.len()) == pat@),
{
    let m = pat.unicode_len();
    let mut j: usize = 0;
    while j < m
        invariant
            m == pat@.len(),
            i + m <= t@.len(),
            t@.len() <= usize::MAX,
            0 <= j <= m,
            forall|k: int| 0 <= k < j ==> t@[i + k] == pat@[k],
        decreases m - j,
    {
        if t.get_char(i + j) != pat.get_char(j) {
            proof {
                assert(t@.subrange(i as int, i + pat@.len())[j as int] == t@[i + j]);
            }
            return false;
        }
        j = j + 1;
    }
    proof {
        assert(t@.subrange(i as int, i + pat@.len()) =~= pat@);
    }
    true
}

/// A derived artifact's store after a run: untouched when the artifact is
/// present, else the filled template.
pub open spec fn artifact_after(
    store: Option<Seq<char>>,
    template: Seq<char>,
    output_dir: Seq<char>,
) -> Option<Seq<char>> {
    match store {
        Option::Some(s) => Option::Some(s),
        Option::None => Option::Some(replace_all(template, placeholder(), output_dir)),
    }
}

/// The presence gate never rewrites: once an artifact exists, a later run
/// leaves it exactly as it was, whatever that run's template would fill in.
pub proof fn lemma_artifact_write_once(
    store: Option<Seq<char>>,
    t1: Seq<char>,
    t2: Seq<char>,
    o1: Seq<char>,
    o2: Seq<char>,
)
    ensures
        artifact_after(artifact_after(store, t1, o1), t2, o2) == artifact_after(store, t1, o1),
{
}

/// Substitute the output-directory placeholder throughout a template.
pub fn fill_template(template: &str, output_dir: &str) -> (r: String)
    ensures
        r@ == replace_all(template@, placeholder(), output_dir@),
{
    let pat = "{{output_dir}}";
    proof {
        reveal_strlit("{{output_dir}}");
    }
    let n = template.unicode_len();
    let m = pat.unicode_len();
    let mut out = String::new();
    let mut i: usize = 0;
    proof {
        assert(template@.skip(0) =~= template@);
        assert(out@ + replace_all(template@, placeholder(), output_dir@) =~= replace_all(
            template@,
            placeholder(),
            output_dir@,
        ));
    }
    while i < n
        invariant
            n == template@.len(),
            m == placeholder().len(),
            m >= 1,
            pat@ == placeholder(),
            0 <= i <= n,
            out@ + replace_all(template@.skip(i as int), placeholder(), output_dir@)
                == replace_all(template@, placeholder(), output_dir@),
        decreases n - i,
    {
        let ghost tail = template@.skip(i as int);
        let matched = if n - i >= m {
            match_at(template, i, pat)
        } else {
            false
        };
        if matched {
            out.append(output_dir);
            proof {
                assert(tail.take(m as int) =~= template@.subrange(i as int, i + m));
                assert(replace_all(tail, placeholder(), output_dir@) == output_dir@ + replace_all(
                    tail.skip(m as int),
                    placeholder(),
                    output_dir@,
                ));
                assert(tail.skip(m as int) =~= template@.skip(i + m));
            }
            i = i + m;
        } else {
            let c = template.substring_char(i, i + 1);
            out.append(c);
            proof {
                if tail.len() >= m {
                    assert(tail.take(m as int) =~= template@.subrange(i as int, i + m));
                }
                lemma_replace_step(tail, placeholder(), output_dir@);
                assert(c@ =~= seq![tail[0]]);
                assert(tail.skip(1) =~= template@.skip(i + 1));
            }
            i = i + 1;
        }
    }
    proof {
        assert(template@.skip(n as int) =~= Seq::<char>::empty());
        assert(replace_all(Seq::<char>::empty(), placeholder(), output_dir@)
            == Seq::<char>::empty());
        assert(out@ + Seq::<char>::empty() =~= out@);
    }
    out
}

/// What a run writes for a derived artifact: nothing when it is already
/// present, the filled template when it is absent.
pub fn template_to_write(already_present: bool, template: &str, output_dir: &str) -> (w: Option<
    String,
>)
    ensures
        w.deep_view() == (if already_present {
            Option::<Seq<char>>::None
        } else {
            Option::Some(replace_all(template@, placeholder(), output_dir@))
        }),
{
    if already_present {
        Option::None
    } else {
        Option::Some(fill_template(template, output_dir))
    }
}

} // verus!
