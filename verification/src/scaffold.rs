//! The directory scaffold plan: the fixed ordered set of relative
//! directories ensured under the project root, and the per-entry
//! created-or-found report for a run.
//!
//! Scaffolding only ever adds directories. That is visible in the model:
//! the directory set after a run is the old set joined with the scaffold
//! paths, a superset of what was there.

use vstd::prelude::*;

verus! {

/// Relative directory paths ensured under the project root, in fixed order.
pub open spec fn scaffold_rel_paths() -> Seq<Seq<char>> {
    seq![
        "input"@,
        "output"@,
        "assets/temp"@,
        "src"@,
        "scripts"@,
        "configs"@,
        "docs"@,
        "notebooks"@,
    ]
}

/// The scaffold paths as a set.
pub open spec fn scaffold_paths_set() -> Set<Seq<char>> {
    Set::new(|p: Seq<char>| scaffold_rel_paths().contains(p))
}

/// Abstract model of one scaffold run over the set of directories that
/// exist under the root: afterwards, the old directories and the scaffold
/// paths all exist.
pub open spec fn scaffold_result(existing: Set<Seq<char>>) -> Set<Seq<char>> {
    existing.union(scaffold_paths_set())
}

/// Scaffolding never removes a directory: whatever existed before a run
/// still exists after it, and every scaffold path exists as well.
pub proof fn lemma_scaffold_non_destructive(existing: Set<Seq<char>>)
    ensures
        existing.subset_of(scaffold_result(existing)),
        forall|i: int|
            0 <= i < scaffold_rel_paths().len() ==> scaffold_result(existing).contains(
                #[trigger] scaffold_rel_paths()[i],
            ),
{
    assert forall|i: int| 0 <= i < scaffold_rel_paths().len() implies scaffold_result(
        existing,
    ).contains(#[trigger] scaffold_rel_paths()[i]) by {
        assert(scaffold_rel_paths().contains(scaffold_rel_paths()[i]));
    }
}

/// The scaffold paths a run creates, given which already exist (one flag
/// per path, in table order).
pub open spec fn created_paths(existing_flags: Seq<bool>) -> Set<Seq<char>> {
    Set::new(
        |q: Seq<char>|
            exists|i: int|
                0 <= i < scaffold_rel_paths().len() && #[trigger] scaffold_rel_paths()[i] == q
                    && !existing_flags[i],
    )
}

/// Performing the plan matches the model: when the existence flags are
/// faithful to the directory set, creating exactly the planned directories
/// yields the old set joined with the scaffold paths, with nothing removed.
pub proof fn lemma_plan_matches_model(existing_set: Set<Seq<char>>, flags: Seq<bool>)
    requires
        flags.len() == scaffold_rel_paths().len(),
        forall|i: int|
            0 <= i < flags.len() ==> flags[i] == existing_set.contains(
                #[trigger] scaffold_rel_paths()[i],
            ),
    ensures
        existing_set.union(created_paths(flags)) == scaffold_result(existing_set),
{
    let lhs = existing_set.union(created_paths(flags));
    let rhs = scaffold_result(existing_set);
    assert forall|q: Seq<char>| lhs.contains(q) implies rhs.contains(q) by {
        if created_paths(flags).contains(q) {
            let i = choose|i: int|
                0 <= i < scaffold_rel_paths().len() && #[trigger] scaffold_rel_paths()[i] == q
                    && !flags[i];
            assert(scaffold_rel_paths().contains(q));
        }
    }
    assert forall|q: Seq<char>| rhs.contains(q) implies lhs.contains(q) by {
        if !existing_set.contains(q) && scaffold_paths_set().contains(q) {
            let i = choose|i: int|
                0 <= i < scaffold_rel_paths().len() && scaffold_rel_paths()[i] == q;
            assert(flags[i] == existing_set.contains(scaffold_rel_paths()[i]));
            assert(!flags[i]);
            assert(created_paths(flags).contains(q));
        }
    }
    assert(lhs =~= rhs);
}

/// The executable table of scaffold paths.
pub fn scaffold_dirs() -> (v: Vec<String>)
    ensures
        v.deep_view() == scaffold_rel_paths(),
{
    let mut v: Vec<String> = Vec::new();
    v.push("input".to_owned());
    v.push("output".to_owned());
    v.push("assets/temp".to_owned());
    v.push("src".to_owned());
    v.push("scripts".to_owned());
    v.push("configs".to_owned());
    v.push("docs".to_owned());
    v.push("notebooks".to_owned());
    proof {
        assert(v.deep_view() =~= scaffold_rel_paths());
    }
    v
}

/// One entry of the scaffold plan: a relative path, and whether this run
/// must create it (`true`) or found it already present (`false`).
pub struct ScaffoldEntry {
    pub rel_path: String,
    pub created: bool,
}

/// The plan of a run, given which scaffold paths already exist (one flag
/// per path, in table order): every path appears once, in order, marked
/// created exactly when it was missing. There is no removal entry; the
/// scaffolder cannot express one.
pub fn plan_scaffold(existing: &Vec<bool>) -> (plan: Vec<ScaffoldEntry>)
    requires
        existing@.len() == scaffold_rel_paths().len(),
    ensures
        plan@.len() == scaffold_rel_paths().len(),
        forall|i: int|
            0 <= i < plan@.len() ==> (#[trigger] plan@[i]).rel_path@ == scaffold_rel_paths()[i]
                && plan@[i].created == !existing@[i],
{
    let dirs = scaffold_dirs();
    let mut plan: Vec<ScaffoldEntry> = Vec::new();
    let mut i: usize = 0;
    while i < dirs.len()
        invariant
            dirs.deep_view() == scaffold_rel_paths(),
            dirs@.len() == scaffold_rel_paths().len(),
            existing@.len() == scaffold_rel_paths().len(),
            0 <= i <= dirs@.len(),
            plan@.len() == i,
            forall|j: int|
                0 <= j < i ==> (#[trigger] plan@[j]).rel_path@ == scaffold_rel_paths()[j]
                    && plan@[j].created == !existing@[j],
        decreases dirs@.len() - i,
    {
        plan.push(
            ScaffoldEntry { rel_path: dirs[i].clone(), created: !existing[i] },
        );
        i = i + 1;
    }
    plan
}

} // verus!
