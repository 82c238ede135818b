//! The env reconciler at the project level: the generic merge applied to the
//! owned keys and generated lines that the ledger derives from the run's
//! prefix and canonical root path, with the reconciliation guarantees
//! restated for this concrete key set.

use vstd::prelude::*;
use crate::classify::{is_opaque_line, line_key};
use crate::ledger::{
    owned_keys_spec, generated_lines_spec, normalize_prefix_spec, owned_keys, generated_lines,
    root_key, category_key_names, lemma_category_tables_wf, lemma_normalize_prefix_wf,
    lemma_assignment_line_parts, key_name_wf, assignment_line,
};
use crate::lines::{line_ok, split_lines};
use crate::reconcile::{
    reconcile, reconcile_spec, retained_lines, gen_lines_ok, lemma_reconcile_idempotent,
    lemma_reconcile_lines, lemma_foreign_line_survives, lemma_owned_replaced,
};

verus! {

/// The whole reconciliation of a run: the owned keys and generated lines are
/// both derived from the raw prefix token; the root path is the canonical
/// absolute project root.
pub open spec fn reconcile_env_spec(
    text: Seq<char>,
    raw_prefix: Seq<char>,
    root: Seq<char>,
) -> Seq<char> {
    reconcile_spec(
        text,
        owned_keys_spec(normalize_prefix_spec(raw_prefix)),
        generated_lines_spec(normalize_prefix_spec(raw_prefix), root),
    )
}

/// Merge the owned configuration lines of this run into the existing text.
/// Absent configuration content is passed as the empty string.
pub fn reconcile_env(text: &str, raw_prefix: &str, root: &str) -> (r: String)
    ensures
        r@ == reconcile_env_spec(text@, raw_prefix@, root@),
{
    let keys = owned_keys(raw_prefix);
    let gen = generated_lines(raw_prefix, root);
    reconcile(text, &keys, &gen)
}

/// The ledger output of a run is well formed whenever the root path holds no
/// line break: every generated line is a break-free assignment to the owned
/// key of the same position, and the owned keys are pairwise distinct.
pub proof fn lemma_run_wf(raw_prefix: Seq<char>, root: Seq<char>)
    requires
        !root.contains('\n'),
    ensures
        gen_lines_ok(
            generated_lines_spec(normalize_prefix_spec(raw_prefix), root),
            owned_keys_spec(normalize_prefix_spec(raw_prefix)),
        ),
        generated_lines_spec(normalize_prefix_spec(raw_prefix), root).len() == owned_keys_spec(
            normalize_prefix_spec(raw_prefix),
        ).len(),
        generated_lines_spec(normalize_prefix_spec(raw_prefix), root).len() > 0,
        forall|j: int|
            0 <= j < generated_lines_spec(normalize_prefix_spec(raw_prefix), root).len()
                ==> line_key(
                #[trigger] generated_lines_spec(normalize_prefix_spec(raw_prefix), root)[j],
            ) == owned_keys_spec(normalize_prefix_spec(raw_prefix))[j],
        forall|j1: int, j2: int|
            0 <= j1 < j2 < owned_keys_spec(normalize_prefix_spec(raw_prefix)).len()
                ==> #[trigger] owned_keys_spec(normalize_prefix_spec(raw_prefix))[j1]
                != #[trigger] owned_keys_spec(normalize_prefix_spec(raw_prefix))[j2],
{
    let p = normalize_prefix_spec(raw_prefix);
    let keys = owned_keys_spec(p);
    let gen = generated_lines_spec(p, root);
    let names = category_key_names();
    lemma_category_tables_wf();
    lemma_normalize_prefix_wf(raw_prefix);

    assert(keys.len() == 1 + names.len());
    assert(gen.len() == 1 + names.len());
    assert(keys[0] == root_key());
    assert forall|i: int| 0 <= i < names.len() implies #[trigger] keys[1 + i] == p + names[i] by {
        assert(keys[1 + i] == names.map_values(|k: Seq<char>| p + k)[i]);
    }

    assert forall|i: int| 0 <= i < names.len() implies key_name_wf(p + #[trigger] names[i]) by {
        assert(key_name_wf(names[i]));
        assert((p + names[i]).len() > 0);
        assert forall|t: int| 0 <= t < (p + names[i]).len() implies crate::chars::is_key_char(
            #[trigger] (p + names[i])[t],
        ) by {
            if t < p.len() {
                assert((p + names[i])[t] == p[t]);
            } else {
                assert((p + names[i])[t] == names[i][t - p.len()]);
            }
        }
    }

    // Each generated line is a well-formed assignment to the key of the same
    // position.
    assert forall|j: int| 0 <= j < gen.len() implies line_ok(#[trigger] gen[j]) && !is_opaque_line(
        gen[j],
    ) && line_key(gen[j]) == keys[j] by {
        if j == 0 {
            assert(gen[0] == assignment_line(root_key(), root));
            lemma_assignment_line_parts(root_key(), root);
        } else {
            let i = j - 1;
            let v = root + seq!['/'] + crate::ledger::category_rel_paths()[i];
            assert(gen[j] == assignment_line(p + names[i], v));
            assert(!v.contains('\n')) by {
                assert forall|t: int| 0 <= t < v.len() implies v[t] != '\n' by {
                    if t < root.len() {
                        assert(v[t] == root[t]);
                    } else if t == root.len() {
                        assert(v[t] == '/');
                    } else {
                        assert(v[t] == crate::ledger::category_rel_paths()[i][t - root.len() - 1]);
                        assert(!crate::ledger::category_rel_paths()[i].contains('\n'));
                    }
                }
            }
            lemma_assignment_line_parts(p + names[i], v);
        }
    }
    assert forall|j: int| 0 <= j < gen.len() implies crate::classify::line_owned(
        #[trigger] gen[j],
        keys,
    ) by {
        assert(keys[j] == line_key(gen[j]));
        assert(keys.contains(line_key(gen[j])));
    }

    // The owned keys are pairwise distinct.
    assert forall|j1: int, j2: int| 0 <= j1 < j2 < keys.len() implies #[trigger] keys[j1]
        != #[trigger] keys[j2] by {
        if j1 == 0 {
            let n = names[j2 - 1];
            assert(keys[j2] == p + n);
            assert(n.len() > 0 && n.last() == 'R');
            assert((p + n).last() == n.last());
            assert(root_key().last() == 'T');
        } else {
            let a = names[j1 - 1];
            let b = names[j2 - 1];
            assert(keys[j1] == p + a);
            assert(keys[j2] == p + b);
            if p + a == p + b {
                assert(a.len() == b.len());
                assert forall|t: int| 0 <= t < a.len() implies a[t] == b[t] by {
                    assert((p + a)[p.len() + t] == a[t]);
                    assert((p + b)[p.len() + t] == b[t]);
                }
                assert(a =~= b);
                assert(a != b);
            }
        }
    }
}

/// The merged file of a run ends with exactly one line break: the last
/// character is a line break, and the character before it is the closing
/// quote of the last generated assignment.
pub proof fn lemma_reconcile_env_trailing_break(
    text: Seq<char>,
    raw_prefix: Seq<char>,
    root: Seq<char>,
)
    requires
        !root.contains('\n'),
    ensures
        reconcile_env_spec(text, raw_prefix, root).len() >= 2,
        reconcile_env_spec(text, raw_prefix, root).last() == '\n',
        reconcile_env_spec(text, raw_prefix, root)[reconcile_env_spec(
            text,
            raw_prefix,
            root,
        ).len() - 2] == '"',
{
    let p = normalize_prefix_spec(raw_prefix);
    let keys = owned_keys_spec(p);
    let gen = generated_lines_spec(p, root);
    let kept = retained_lines(split_lines(text), keys);
    let ls = kept + gen;
    lemma_run_wf(raw_prefix, root);
    let last_line = gen[gen.len() - 1];
    assert(ls.len() > 0);
    assert(ls[ls.len() - 1] == last_line);
    assert(ls.drop_last().push(last_line) =~= ls);
    crate::lines::lemma_join_push(ls.drop_last(), last_line);
    let out = reconcile_env_spec(text, raw_prefix, root);
    assert(out == crate::lines::join_lines(ls.drop_last()) + last_line + seq!['\n']);
    let i = gen.len() - 2;
    assert(last_line == assignment_line(
        p + category_key_names()[i],
        root + seq!['/'] + crate::ledger::category_rel_paths()[i],
    ));
    assert(last_line.len() > 0 && last_line.last() == '"');
    assert(out[out.len() - 2] == last_line.last());
}

/// Idempotence of the run-level reconciliation: feeding its own output back
/// with the same prefix and root reproduces that output exactly.
pub proof fn lemma_reconcile_env_idempotent(text: Seq<char>, raw_prefix: Seq<char>, root: Seq<char>)
    requires
        !root.contains('\n'),
    ensures
        reconcile_env_spec(reconcile_env_spec(text, raw_prefix, root), raw_prefix, root)
            == reconcile_env_spec(text, raw_prefix, root),
{
    let p = normalize_prefix_spec(raw_prefix);
    lemma_run_wf(raw_prefix, root);
    lemma_reconcile_idempotent(text, owned_keys_spec(p), generated_lines_spec(p, root));
}

/// Shape of the merged file for a run: every preserved line of the old text
/// first, in original order, then the generated lines in canonical ledger
/// order (root key first).
pub proof fn lemma_reconcile_env_lines(text: Seq<char>, raw_prefix: Seq<char>, root: Seq<char>)
    requires
        !root.contains('\n'),
    ensures
        split_lines(reconcile_env_spec(text, raw_prefix, root)) == retained_lines(
            split_lines(text),
            owned_keys_spec(normalize_prefix_spec(raw_prefix)),
        ) + generated_lines_spec(normalize_prefix_spec(raw_prefix), root),
{
    let p = normalize_prefix_spec(raw_prefix);
    lemma_run_wf(raw_prefix, root);
    lemma_reconcile_lines(text, owned_keys_spec(p), generated_lines_spec(p, root));
}

/// Foreign preservation for a run: a line of the old text whose key is not
/// owned appears in the merged file.
pub proof fn lemma_reconcile_env_foreign(
    text: Seq<char>,
    raw_prefix: Seq<char>,
    root: Seq<char>,
    i: int,
)
    requires
        !root.contains('\n'),
        0 <= i < split_lines(text).len(),
        !crate::classify::line_owned(
            split_lines(text)[i],
            owned_keys_spec(normalize_prefix_spec(raw_prefix)),
        ),
    ensures
        split_lines(reconcile_env_spec(text, raw_prefix, root)).contains(split_lines(text)[i]),
{
    let p = normalize_prefix_spec(raw_prefix);
    lemma_run_wf(raw_prefix, root);
    lemma_foreign_line_survives(text, owned_keys_spec(p), generated_lines_spec(p, root), i);
}

/// Owned replacement for a run: the merged file holds exactly one assignment
/// to each owned key, the freshly generated one; no old assignment to that
/// key survives.
pub proof fn lemma_reconcile_env_owned(
    text: Seq<char>,
    raw_prefix: Seq<char>,
    root: Seq<char>,
    i: int,
)
    requires
        !root.contains('\n'),
        0 <= i < owned_keys_spec(normalize_prefix_spec(raw_prefix)).len(),
    ensures
        split_lines(reconcile_env_spec(text, raw_prefix, root)).filter(
            |l: Seq<char>| !is_opaque_line(l) && line_key(l) == owned_keys_spec(
                normalize_prefix_spec(raw_prefix),
            )[i],
        ) == seq![generated_lines_spec(normalize_prefix_spec(raw_prefix), root)[i]],
{
    let p = normalize_prefix_spec(raw_prefix);
    lemma_run_wf(raw_prefix, root);
    lemma_owned_replaced(text, owned_keys_spec(p), generated_lines_spec(p, root), i);
}

} // verus!
