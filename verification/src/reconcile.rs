//! The reconciliation engine: merge freshly generated owned assignment lines
//! into existing configuration text, dropping every old line whose key is
//! owned this run and preserving all other lines verbatim and in order.

use vstd::prelude::*;
use crate::classify::{is_opaque_line, line_key, line_owned, line_is_owned};
use crate::lines::{
    line_ok, split_lines, render_lines, split_into_lines, render_to_text, lemma_split_lines_ok,
    lemma_split_render,
};

verus! {

/// Lines the foreign-preserving pass keeps: everything not owned.
pub open spec fn retained_lines(ls: Seq<Seq<char>>, keys: Seq<Seq<char>>) -> Seq<Seq<char>> {
    ls.filter(|l: Seq<char>| !line_owned(l, keys))
}

/// The whole merge: split, keep the non-owned lines, append the generated
/// lines, and write the result back with exactly one trailing line break.
pub open spec fn reconcile_spec(
    text: Seq<char>,
    keys: Seq<Seq<char>>,
    gen: Seq<Seq<char>>,
) -> Seq<char> {
    render_lines(retained_lines(split_lines(text), keys) + gen)
}

/// Well-formed generated lines: free of line breaks, and each an assignment
/// to an owned key, so that a later run recognizes and replaces them.
pub open spec fn gen_lines_ok(gen: Seq<Seq<char>>, keys: Seq<Seq<char>>) -> bool {
    forall|i: int|
        0 <= i < gen.len() ==> line_ok(#[trigger] gen[i]) && line_owned(gen[i], keys)
}

proof fn lemma_filter_push<A>(s: Seq<A>, pred: spec_fn(A) -> bool, x: A)
    ensures
        s.push(x).filter(pred) == if pred(x) {
            s.filter(pred).push(x)
        } else {
            s.filter(pred)
        },
{
    reveal(Seq::filter);
    assert(s.push(x).drop_last() =~= s);
    assert(s.push(x).last() == x);
}

proof fn lemma_filter_members<A>(s: Seq<A>, pred: spec_fn(A) -> bool)
    ensures
        forall|i: int| 0 <= i < s.filter(pred).len() ==> s.contains(#[trigger] s.filter(pred)[i]),
    decreases s.len(),
{
    reveal(Seq::filter);
    if s.len() > 0 {
        lemma_filter_members(s.drop_last(), pred);
        assert forall|i: int| 0 <= i < s.filter(pred).len() implies s.contains(
            #[trigger] s.filter(pred)[i],
        ) by {
            let sub = s.drop_last().filter(pred);
            if i < sub.len() {
                assert(s.filter(pred)[i] == sub[i]);
                let j = choose|j: int| 0 <= j < s.drop_last().len() && s.drop_last()[j] == sub[i];
                assert(s[j] == sub[i]);
            } else {
                assert(s.filter(pred)[i] == s.last());
                assert(s[s.len() - 1] == s.last());
            }
        }
    }
}

proof fn lemma_filter_all<A>(s: Seq<A>, pred: spec_fn(A) -> bool)
    requires
        forall|i: int| 0 <= i < s.len() ==> pred(#[trigger] s[i]),
    ensures
        s.filter(pred) == s,
    decreases s.len(),
{
    reveal(Seq::filter);
    if s.len() > 0 {
        assert(forall|i: int| 0 <= i < s.drop_last().len() ==> pred(#[trigger] s.drop_last()[i]));
        lemma_filter_all(s.drop_last(), pred);
        assert(pred(s.last()));
        assert(s.drop_last().push(s.last()) =~= s);
    }
}

proof fn lemma_filter_none<A>(s: Seq<A>, pred: spec_fn(A) -> bool)
    requires
        forall|i: int| 0 <= i < s.len() ==> !pred(#[trigger] s[i]),
    ensures
        s.filter(pred) == Seq::<A>::empty(),
    decreases s.len(),
{
    reveal(Seq::filter);
    if s.len() > 0 {
        assert(forall|i: int| 0 <= i < s.drop_last().len() ==> !pred(#[trigger] s.drop_last()[i]));
        lemma_filter_none(s.drop_last(), pred);
        assert(!pred(s.last()));
    }
}

proof fn lemma_filter_one<A>(s: Seq<A>, pred: spec_fn(A) -> bool, i: int)
    requires
        0 <= i < s.len(),
        pred(s[i]),
        forall|j: int| 0 <= j < s.len() && j != i ==> !pred(#[trigger] s[j]),
    ensures
        s.filter(pred) == seq![s[i]],
    decreases s.len(),
{
    reveal(Seq::filter);
    if i == s.len() - 1 {
        assert(forall|j: int| 0 <= j < s.drop_last().len() ==> !pred(#[trigger] s.drop_last()[j]));
        lemma_filter_none(s.drop_last(), pred);
        assert(s.last() == s[i]);
        assert(Seq::<A>::empty().push(s[i]) =~= seq![s[i]]);
    } else {
        assert(forall|j: int| 0 <= j < s.drop_last().len() && j != i ==> !pred(
            #[trigger] s.drop_last()[j],
        ));
        assert(s.drop_last()[i] == s[i]);
        lemma_filter_one(s.drop_last(), pred, i);
        assert(!pred(s.last()));
    }
}

/// The shape of the merged file: first every preserved line of the old text,
/// in its original relative order, then every generated line, in ledger
/// order. This is the foreign-preservation and ordering guarantee in one
/// statement.
pub proof fn lemma_reconcile_lines(text: Seq<char>, keys: Seq<Seq<char>>, gen: Seq<Seq<char>>)
    requires
        gen_lines_ok(gen, keys),
    ensures
        (retained_lines(split_lines(text), keys) + gen).len() > 0 ==> split_lines(
            reconcile_spec(text, keys, gen),
        ) == retained_lines(split_lines(text), keys) + gen,
        (retained_lines(split_lines(text), keys) + gen).len() == 0 ==> split_lines(
            reconcile_spec(text, keys, gen),
        ) == seq![Seq::<char>::empty()],
{
    let kept = retained_lines(split_lines(text), keys);
    let ls = kept + gen;
    lemma_split_lines_ok(text);
    lemma_filter_members(split_lines(text), |l: Seq<char>| !line_owned(l, keys));
    assert forall|i: int| 0 <= i < ls.len() implies line_ok(#[trigger] ls[i]) by {
        if i < kept.len() {
            assert(split_lines(text).contains(kept[i]));
            let j = choose|j: int|
                0 <= j < split_lines(text).len() && split_lines(text)[j] == kept[i];
            assert(line_ok(split_lines(text)[j]));
        } else {
            assert(ls[i] == gen[i - kept.len()]);
        }
    }
    lemma_split_render(ls);
}

/// Any line of the old text whose key is not owned this run appears in the
/// merged file.
pub proof fn lemma_foreign_line_survives(
    text: Seq<char>,
    keys: Seq<Seq<char>>,
    gen: Seq<Seq<char>>,
    i: int,
)
    requires
        gen_lines_ok(gen, keys),
        0 <= i < split_lines(text).len(),
        !line_owned(split_lines(text)[i], keys),
    ensures
        split_lines(reconcile_spec(text, keys, gen)).contains(split_lines(text)[i]),
{
    let pred = |l: Seq<char>| !line_owned(l, keys);
    let kept = retained_lines(split_lines(text), keys);
    lemma_reconcile_lines(text, keys, gen);
    Seq::lemma_filter_contains(split_lines(text), pred, i);
    let j = choose|j: int| 0 <= j < kept.len() && kept[j] == split_lines(text)[i];
    assert((kept + gen)[j] == split_lines(text)[i]);
}

/// Reconciliation is idempotent: merging the same keys and generated lines
/// into its own output changes nothing.
pub proof fn lemma_reconcile_idempotent(text: Seq<char>, keys: Seq<Seq<char>>, gen: Seq<Seq<char>>)
    requires
        gen_lines_ok(gen, keys),
    ensures
        reconcile_spec(reconcile_spec(text, keys, gen), keys, gen) == reconcile_spec(
            text,
            keys,
            gen,
        ),
{
    let pred = |l: Seq<char>| !line_owned(l, keys);
    let kept = retained_lines(split_lines(text), keys);
    let out = reconcile_spec(text, keys, gen);
    lemma_reconcile_lines(text, keys, gen);
    if (kept + gen).len() > 0 {
        assert(split_lines(out) == kept + gen);
        Seq::filter_distributes_over_add(kept, gen, pred);
        assert forall|i: int| 0 <= i < kept.len() implies pred(#[trigger] kept[i]) by {
            Seq::lemma_filter_pred(split_lines(text), pred, i);
        }
        lemma_filter_all(kept, pred);
        assert(forall|i: int| 0 <= i < gen.len() ==> !pred(#[trigger] gen[i]));
        lemma_filter_none(gen, pred);
        assert(kept + Seq::<Seq<char>>::empty() =~= kept);
        assert(retained_lines(split_lines(out), keys) == kept);
    } else {
        assert(kept.len() == 0 && gen.len() == 0);
        assert(split_lines(out) == seq![Seq::<char>::empty()]);
        let e = Seq::<char>::empty();
        assert(crate::classify::trimmed(e) == e);
        assert(is_opaque_line(e));
        assert(pred(e));
        assert forall|i: int| 0 <= i < split_lines(out).len() implies pred(
            #[trigger] split_lines(out)[i],
        ) by {
            assert(split_lines(out)[i] == e);
        }
        lemma_filter_all(split_lines(out), pred);
        assert(retained_lines(split_lines(out), keys) + gen =~= seq![e]);
        reveal_with_fuel(crate::lines::join_lines, 2);
        assert(seq![e].skip(1) =~= Seq::<Seq<char>>::empty());
        assert(crate::lines::join_lines(seq![e].skip(1)) == Seq::<char>::empty());
        assert(render_lines(seq![e]) =~= seq!['\n']);
        assert(render_lines(kept + gen) =~= seq!['\n']);
    }
}

/// Owned replacement: when each generated line carries the matching owned
/// key and the owned keys are pairwise distinct, the merged file holds
/// exactly one assignment to each owned key, the freshly generated one.
pub proof fn lemma_owned_replaced(
    text: Seq<char>,
    keys: Seq<Seq<char>>,
    gen: Seq<Seq<char>>,
    i: int,
)
    requires
        gen_lines_ok(gen, keys),
        gen.len() == keys.len(),
        forall|j: int| 0 <= j < gen.len() ==> line_key(#[trigger] gen[j]) == keys[j],
        forall|j1: int, j2: int|
            0 <= j1 < j2 < keys.len() ==> #[trigger] keys[j1] != #[trigger] keys[j2],
        0 <= i < keys.len(),
    ensures
        split_lines(reconcile_spec(text, keys, gen)).filter(
            |l: Seq<char>| !is_opaque_line(l) && line_key(l) == keys[i],
        ) == seq![gen[i]],
{
    let hask = |l: Seq<char>| !is_opaque_line(l) && line_key(l) == keys[i];
    let keep = |l: Seq<char>| !line_owned(l, keys);
    let kept = retained_lines(split_lines(text), keys);
    lemma_reconcile_lines(text, keys, gen);
    assert((kept + gen).len() > 0);
    let out = split_lines(reconcile_spec(text, keys, gen));
    assert(out == kept + gen);
    Seq::filter_distributes_over_add(kept, gen, hask);
    assert forall|j: int| 0 <= j < kept.len() implies !hask(#[trigger] kept[j]) by {
        Seq::lemma_filter_pred(split_lines(text), keep, j);
        if hask(kept[j]) {
            assert(keys.contains(keys[i]));
            assert(line_owned(kept[j], keys));
        }
    }
    lemma_filter_none(kept, hask);
    assert forall|j: int| 0 <= j < gen.len() && j != i implies !hask(#[trigger] gen[j]) by {
        if j < i {
            assert(keys[j] != keys[i]);
        } else {
            assert(keys[i] != keys[j]);
        }
    }
    assert(hask(gen[i]));
    lemma_filter_one(gen, hask, i);
    assert(Seq::<Seq<char>>::empty() + seq![gen[i]] =~= seq![gen[i]]);
}

/// Merge generated owned lines into the existing text.
pub fn reconcile(text: &str, keys: &Vec<String>, gen: &Vec<String>) -> (r: String)
    ensures
        r@ == reconcile_spec(text@, keys.deep_view(), gen.deep_view()),
{
    let keep_pred = Ghost(|l: Seq<char>| !line_owned(l, keys.deep_view()));
    let lines = split_into_lines(text);
    let mut kept: Vec<String> = Vec::new();
    let mut i: usize = 0;
    proof {
        reveal(Seq::filter);
        assert(lines.deep_view().take(0) =~= Seq::<Seq<char>>::empty());
        assert(kept.deep_view() =~= Seq::<Seq<char>>::empty().filter(keep_pred@));
    }
    while i < lines.len()
        invariant
            0 <= i <= lines@.len(),
            lines.deep_view().len() == lines@.len(),
            kept.deep_view() == lines.deep_view().take(i as int).filter(keep_pred@),
            keep_pred@ == (|l: Seq<char>| !line_owned(l, keys.deep_view())),
        decreases lines@.len() - i,
    {
        let ghost prefix = lines.deep_view().take(i as int);
        let owned_here = line_is_owned(lines[i].as_str(), keys);
        if !owned_here {
            let ghost old_kept = kept.deep_view();
            kept.push(lines[i].clone());
            proof {
                assert(kept.deep_view() =~= old_kept.push(lines.deep_view()[i as int]));
            }
        }
        proof {
            lemma_filter_push(prefix, keep_pred@, lines.deep_view()[i as int]);
            assert(lines.deep_view().take(i + 1) =~= prefix.push(lines.deep_view()[i as int]));
        }
        i = i + 1;
    }
    proof {
        assert(lines.deep_view().take(lines@.len() as int) =~= lines.deep_view());
    }
    let ghost kept_spec = retained_lines(split_lines(text@), keys.deep_view());
    proof {
        assert(kept.deep_view() == kept_spec);
    }
    let mut j: usize = 0;
    while j < gen.len()
        invariant
            0 <= j <= gen@.len(),
            gen.deep_view().len() == gen@.len(),
            kept.deep_view() == kept_spec + gen.deep_view().take(j as int),
        decreases gen@.len() - j,
    {
        let ghost old_kept = kept.deep_view();
        kept.push(gen[j].clone());
        proof {
            assert(kept.deep_view() =~= old_kept.push(gen.deep_view()[j as int]));
            assert(old_kept.push(gen.deep_view()[j as int]) =~= kept_spec + gen.deep_view().take(
                j + 1,
            ));
        }
        j = j + 1;
    }
    proof {
        assert(gen.deep_view().take(gen@.len() as int) =~= gen.deep_view());
        assert(kept.deep_view() == kept_spec + gen.deep_view());
    }
    render_to_text(&kept)
}

} // verus!
