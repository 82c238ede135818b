//! The managed-key ledger: which configuration keys the tool owns for a run,
//! derived from the optional project prefix, and the freshly generated
//! assignment lines for those keys.
//!
//! The root-path key is never prefixed; every directory-category key is. The
//! order is fixed: root key first, then the categories in declaration order.

use vstd::prelude::*;
use crate::chars::{fold_char, fold_char_exec, is_key_char, lemma_fold_char_is_key_char};
use crate::classify::{is_opaque_line, line_key, lemma_trim_noop, first_eq, trimmed};
use crate::chars::lemma_scan_to_is;
use crate::lines::line_ok;

verus! {

/// The one key that names the project root path; never prefixed.
pub open spec fn root_key() -> Seq<char> {
    "PROJECT_ROOT"@
}

/// Key names of the directory categories, in fixed declaration order.
pub open spec fn category_key_names() -> Seq<Seq<char>> {
    seq![
        "INPUT_DIR"@,
        "OUTPUT_DIR"@,
        "TEMP_ASSETS_DIR"@,
        "SRC_DIR"@,
        "SCRIPTS_DIR"@,
        "CONFIGS_DIR"@,
        "DOCS_DIR"@,
        "NOTEBOOKS_DIR"@,
    ]
}

/// Relative path assigned to each directory-category key, in the same order.
pub open spec fn category_rel_paths() -> Seq<Seq<char>> {
    seq![
        "input"@,
        "output"@,
        "assets/temp"@,
        "src"@,
        "scripts"@,
        "configs"@,
        "docs"@,
        "notebooks"@,
    ]
}

/// Prefix normalization: empty stays empty (no namespacing); anything else
/// is folded character by character to uppercase alphanumeric-or-underscore
/// and closed with exactly one underscore separator.
pub open spec fn normalize_prefix_spec(raw: Seq<char>) -> Seq<char> {
    if raw.len() == 0 {
        raw
    } else {
        raw.map_values(|c: char| fold_char(c)).push('_')
    }
}

/// The owned-key set of a run, as an ordered sequence: root key first, then
/// one prefixed key per category.
pub open spec fn owned_keys_spec(prefix: Seq<char>) -> Seq<Seq<char>> {
    seq![root_key()] + category_key_names().map_values(|k: Seq<char>| prefix + k)
}

/// One generated configuration line: `KEY="value"`.
pub open spec fn assignment_line(k: Seq<char>, v: Seq<char>) -> Seq<char> {
    k + seq!['=', '"'] + v + seq!['"']
}

/// The freshly generated lines of a run, in canonical order: the root path
/// first, then each category path `root/relative`.
pub open spec fn generated_lines_spec(prefix: Seq<char>, root: Seq<char>) -> Seq<Seq<char>> {
    seq![assignment_line(root_key(), root)] + Seq::new(
        category_key_names().len(),
        |i: int|
            assignment_line(
                prefix + category_key_names()[i],
                root + seq!['/'] + category_rel_paths()[i],
            ),
    )
}

/// A well-formed key name: non-empty, all characters from the key class.
pub open spec fn key_name_wf(k: Seq<char>) -> bool {
    k.len() > 0 && forall|i: int| 0 <= i < k.len() ==> is_key_char(#[trigger] k[i])
}

/// Normalize the raw prefix token.
pub fn normalize_prefix(raw: &str) -> (p: String)
    ensures
        p@ == normalize_prefix_spec(raw@),
{
    let n = raw.unicode_len();
    let mut p = String::new();
    if n == 0 {
        proof {
            assert(p@ =~= normalize_prefix_spec(raw@));
        }
        return p;
    }
    let mut i: usize = 0;
    while i < n
        invariant
            n == raw@.len(),
            0 <= i <= n,
            p@ == raw@.take(i as int).map_values(|c: char| fold_char(c)),
        decreases n - i,
    {
        let ghost old_p = p@;
        p.push(fold_char_exec(raw.get_char(i)));
        proof {
            assert(raw@.take(i + 1) =~= raw@.take(i as int).push(raw@[i as int]));
            assert(raw@.take(i + 1).map_values(|c: char| fold_char(c)) =~= old_p.push(
                fold_char(raw@[i as int]),
            ));
        }
        i = i + 1;
    }
    proof {
        assert(raw@.take(n as int) =~= raw@);
    }
    p.push('_');
    p
}

/// The normalized prefix holds only key characters.
pub proof fn lemma_normalize_prefix_wf(raw: Seq<char>)
    ensures
        forall|i: int|
            0 <= i < normalize_prefix_spec(raw).len() ==> is_key_char(
                #[trigger] normalize_prefix_spec(raw)[i],
            ),
{
    let p = normalize_prefix_spec(raw);
    if raw.len() > 0 {
        assert forall|i: int| 0 <= i < p.len() implies is_key_char(p[i]) by {
            if i < raw.len() {
                assert(p[i] == fold_char(raw[i]));
                lemma_fold_char_is_key_char(raw[i]);
            } else {
                assert(p[i] == '_');
            }
        }
    }
}

/// The executable table of category key names.
pub fn category_key_names_exec() -> (v: Vec<String>)
    ensures
        v.deep_view() == category_key_names(),
{
    let mut v: Vec<String> = Vec::new();
    v.push("INPUT_DIR".to_owned());
    v.push("OUTPUT_DIR".to_owned());
    v.push("TEMP_ASSETS_DIR".to_owned());
    v.push("SRC_DIR".to_owned());
    v.push("SCRIPTS_DIR".to_owned());
    v.push("CONFIGS_DIR".to_owned());
    v.push("DOCS_DIR".to_owned());
    v.push("NOTEBOOKS_DIR".to_owned());
    proof {
        assert(v.deep_view() =~= category_key_names());
    }
    v
}

/// The executable table of category relative paths.
pub fn category_rel_paths_exec() -> (v: Vec<String>)
    ensures
        v.deep_view() == category_rel_paths(),
{
    let mut v: Vec<String> = Vec::new();
    v.push("input".to_owned());
    v.push("output".to_owned());
    v.push("assets/temp".to_owned());
    v.push("src".to_owned());
    v.push("scripts".to_owned());
    v.push("configs".to_owned());
    v.push("docs".to_owned());
    v.push("notebooks".to_owned());
    proof {
        assert(v.deep_view() =~= category_rel_paths());
    }
    v
}

/// The owned keys of a run, from the raw (un-normalized) prefix token.
pub fn owned_keys(raw_prefix: &str) -> (keys: Vec<String>)
    ensures
        keys.deep_view() == owned_keys_spec(normalize_prefix_spec(raw_prefix@)),
{
    let ghost pspec = normalize_prefix_spec(raw_prefix@);
    let p = normalize_prefix(raw_prefix);
    let names = category_key_names_exec();
    let mut keys: Vec<String> = Vec::new();
    keys.push("PROJECT_ROOT".to_owned());
    proof {
        assert(keys.deep_view() =~= owned_keys_spec(pspec).take(1));
    }
    let mut i: usize = 0;
    while i < names.len()
        invariant
            names.deep_view() == category_key_names(),
            names@.len() == category_key_names().len(),
            p@ == pspec,
            0 <= i <= names@.len(),
            keys.deep_view() == owned_keys_spec(pspec).take(1 + i as int),
        decreases names@.len() - i,
    {
        let ghost old_keys = keys.deep_view();
        let mut k = String::new();
        k.append(p.as_str());
        k.append(names[i].as_str());
        keys.push(k);
        proof {
            assert(k@ == pspec + category_key_names()[i as int]);
            assert(owned_keys_spec(pspec)[1 + i as int] == pspec + category_key_names()[i as int]);
            assert(keys.deep_view() =~= old_keys.push(k@));
            assert(old_keys.push(k@) =~= owned_keys_spec(pspec).take(2 + i as int));
        }
        i = i + 1;
    }
    proof {
        assert(owned_keys_spec(pspec).take(owned_keys_spec(pspec).len() as int) =~= owned_keys_spec(
            pspec,
        ));
    }
    keys
}

/// Render one `KEY="value"` line.
pub fn render_assignment(key: &str, value: &str) -> (r: String)
    ensures
        r@ == assignment_line(key@, value@),
{
    let mut r = String::new();
    r.append(key);
    r.append("=\"");
    r.append(value);
    r.append("\"");
    proof {
        reveal_strlit("=\"");
        reveal_strlit("\"");
        assert("=\""@ =~= seq!['=', '"']);
        assert("\""@ =~= seq!['"']);
        assert(r@ =~= assignment_line(key@, value@));
    }
    r
}

/// The freshly generated lines of a run, in canonical order, from the raw
/// prefix token and the canonical absolute root path.
pub fn generated_lines(raw_prefix: &str, root: &str) -> (gen: Vec<String>)
    ensures
        gen.deep_view() == generated_lines_spec(normalize_prefix_spec(raw_prefix@), root@),
{
    let ghost pspec = normalize_prefix_spec(raw_prefix@);
    let ghost gspec = generated_lines_spec(pspec, root@);
    let p = normalize_prefix(raw_prefix);
    let names = category_key_names_exec();
    let rels = category_rel_paths_exec();
    let mut gen: Vec<String> = Vec::new();
    gen.push(render_assignment("PROJECT_ROOT", root));
    proof {
        assert(gen.deep_view() =~= gspec.take(1));
    }
    let mut i: usize = 0;
    while i < names.len()
        invariant
            names.deep_view() == category_key_names(),
            rels.deep_view() == category_rel_paths(),
            names@.len() == category_key_names().len(),
            rels@.len() == category_rel_paths().len(),
            p@ == pspec,
            gspec == generated_lines_spec(pspec, root@),
            0 <= i <= names@.len(),
            gen.deep_view() == gspec.take(1 + i as int),
        decreases names@.len() - i,
    {
        let ghost old_gen = gen.deep_view();
        let mut k = String::new();
        k.append(p.as_str());
        k.append(names[i].as_str());
        let mut val = String::new();
        val.append(root);
        val.append("/");
        val.append(rels[i].as_str());
        let line = render_assignment(k.as_str(), val.as_str());
        gen.push(line);
        proof {
            reveal_strlit("/");
            assert("/"@ =~= seq!['/']);
            assert(val@ =~= root@ + seq!['/'] + category_rel_paths()[i as int]);
            assert(k@ == pspec + category_key_names()[i as int]);
            assert(gspec[1 + i as int] == assignment_line(
                pspec + category_key_names()[i as int],
                root@ + seq!['/'] + category_rel_paths()[i as int],
            ));
            assert(gen.deep_view() =~= old_gen.push(line@));
            assert(old_gen.push(line@) =~= gspec.take(2 + i as int));
        }
        i = i + 1;
    }
    proof {
        assert(gspec.take(gspec.len() as int) =~= gspec);
    }
    gen
}

/// How a generated `KEY="value"` line classifies: not opaque, its key is
/// exactly `KEY`, and it holds no line break.
pub proof fn lemma_assignment_line_parts(k: Seq<char>, v: Seq<char>)
    requires
        key_name_wf(k),
        !v.contains('\n'),
    ensures
        !is_opaque_line(assignment_line(k, v)),
        line_key(assignment_line(k, v)) == k,
        line_ok(assignment_line(k, v)),
{
    let l = assignment_line(k, v);
    assert(l.len() == k.len() + 2 + v.len() + 1);
    assert(l[0] == k[0]);
    assert(is_key_char(k[0]));
    assert(l.last() == '"');
    lemma_trim_noop(l);
    assert forall|j: int| 0 <= j < k.len() implies !((l[j]) == '=') by {
        assert(l[j] == k[j]);
        assert(is_key_char(k[j]));
    }
    assert(l[k.len() as int] == '=');
    lemma_scan_to_is(l, |c: char| c == '=', k.len() as int);
    assert(first_eq(trimmed(l)) == k.len());
    assert(l.take(k.len() as int) =~= k);
    assert(line_key(l) == k);
    assert(trimmed(l)[0] == k[0]);
    assert(!is_opaque_line(l));
    assert forall|j: int| 0 <= j < l.len() implies l[j] != '\n' by {
        if j < k.len() {
            assert(l[j] == k[j]);
            assert(is_key_char(k[j]));
        } else if j < k.len() + 2 {
        } else if j < k.len() + 2 + v.len() {
            assert(l[j] == v[j - k.len() - 2]);
            assert(!v.contains('\n'));
        } else {
            assert(l[j] == '"');
        }
    }
    assert(line_ok(l));
}

/// The fixed tables are well formed: as many paths as keys, every key name
/// well formed and ending in a distinguishing letter, every relative path
/// free of line breaks, and the key names pairwise distinct.
pub proof fn lemma_category_tables_wf()
    ensures
        category_key_names().len() == category_rel_paths().len(),
        key_name_wf(root_key()),
        forall|i: int|
            0 <= i < category_key_names().len() ==> key_name_wf(#[trigger] category_key_names()[i]),
        forall|i: int|
            0 <= i < category_rel_paths().len() ==> !(#[trigger] category_rel_paths()[i]).contains(
                '\n',
            ),
        forall|i: int|
            0 <= i < category_key_names().len() ==> (#[trigger] category_key_names()[i]).len() > 0
                && category_key_names()[i].last() == 'R',
        root_key().last() == 'T',
        forall|i: int, j: int|
            0 <= i < j < category_key_names().len() ==> #[trigger] category_key_names()[i]
                != #[trigger] category_key_names()[j],
{
    reveal_strlit("PROJECT_ROOT");
    reveal_strlit("INPUT_DIR");
    reveal_strlit("OUTPUT_DIR");
    reveal_strlit("TEMP_ASSETS_DIR");
    reveal_strlit("SRC_DIR");
    reveal_strlit("SCRIPTS_DIR");
    reveal_strlit("CONFIGS_DIR");
    reveal_strlit("DOCS_DIR");
    reveal_strlit("NOTEBOOKS_DIR");
    reveal_strlit("input");
    reveal_strlit("output");
    reveal_strlit("assets/temp");
    reveal_strlit("src");
    reveal_strlit("scripts");
    reveal_strlit("configs");
    reveal_strlit("docs");
    reveal_strlit("notebooks");
    assert("PROJECT_ROOT"@ =~= seq!['P', 'R', 'O', 'J', 'E', 'C', 'T', '_', 'R', 'O', 'O', 'T']);
    assert("INPUT_DIR"@ =~= seq!['I', 'N', 'P', 'U', 'T', '_', 'D', 'I', 'R']);
    assert("OUTPUT_DIR"@ =~= seq!['O', 'U', 'T', 'P', 'U', 'T', '_', 'D', 'I', 'R']);
    assert("TEMP_ASSETS_DIR"@ =~= seq![
        'T', 'E', 'M', 'P', '_', 'A', 'S', 'S', 'E', 'T', 'S', '_', 'D', 'I', 'R',
    ]);
    assert("SRC_DIR"@ =~= seq!['S', 'R', 'C', '_', 'D', 'I', 'R']);
    assert("SCRIPTS_DIR"@ =~= seq!['S', 'C', 'R', 'I', 'P', 'T', 'S', '_', 'D', 'I', 'R']);
    assert("CONFIGS_DIR"@ =~= seq!['C', 'O', 'N', 'F', 'I', 'G', 'S', '_', 'D', 'I', 'R']);
    assert("DOCS_DIR"@ =~= seq!['D', 'O', 'C', 'S', '_', 'D', 'I', 'R']);
    assert("NOTEBOOKS_DIR"@ =~= seq![
        'N', 'O', 'T', 'E', 'B', 'O', 'O', 'K', 'S', '_', 'D', 'I', 'R',
    ]);
    assert(!"input"@.contains('\n')) by {
        assert(forall|j: int| 0 <= j < "input"@.len() ==> "input"@[j] != '\n');
    }
    assert(!"output"@.contains('\n')) by {
        assert(forall|j: int| 0 <= j < "output"@.len() ==> "output"@[j] != '\n');
    }
    assert(!"assets/temp"@.contains('\n')) by {
        assert(forall|j: int| 0 <= j < "assets/temp"@.len() ==> "assets/temp"@[j] != '\n');
    }
    assert(!"src"@.contains('\n')) by {
        assert(forall|j: int| 0 <= j < "src"@.len() ==> "src"@[j] != '\n');
    }
    assert(!"scripts"@.contains('\n')) by {
        assert(forall|j: int| 0 <= j < "scripts"@.len() ==> "scripts"@[j] != '\n');
    }
    assert(!"configs"@.contains('\n')) by {
        assert(forall|j: int| 0 <= j < "configs"@.len() ==> "configs"@[j] != '\n');
    }
    assert(!"docs"@.contains('\n')) by {
        assert(forall|j: int| 0 <= j < "docs"@.len() ==> "docs"@[j] != '\n');
    }
    assert(!"notebooks"@.contains('\n')) by {
        assert(forall|j: int| 0 <= j < "notebooks"@.len() ==> "notebooks"@[j] != '\n');
    }
}

} // verus!
