//! The write-once provenance record: a human-readable summary of a run's
//! choices, written only when no record exists yet. A present record is
//! never read, merged, or overwritten; its presence alone suppresses the
//! write, so the artifact of the first run survives every later run.

use vstd::prelude::*;
use crate::chars::lemma_scan_to_is;

verus! {

/// The provenance record of a run.
pub struct ProvenanceRecord {
    pub version: String,
    pub prefix: Option<String>,
    pub git_initialized: bool,
    pub license: Option<String>,
    pub dirs: Vec<String>,
}

/// Mathematical image of a record.
pub struct ProvenanceRecordView {
    pub version: Seq<char>,
    pub prefix: Option<Seq<char>>,
    pub git_initialized: bool,
    pub license: Option<Seq<char>>,
    pub dirs: Seq<Seq<char>>,
}

impl View for ProvenanceRecord {
    type V = ProvenanceRecordView;

    open spec fn view(&self) -> ProvenanceRecordView {
        ProvenanceRecordView {
            version: self.version@,
            prefix: self.prefix.deep_view(),
            git_initialized: self.git_initialized,
            license: self.license.deep_view(),
            dirs: self.dirs.deep_view(),
        }
    }
}

/// A string-or-absent field value: quoted when present, `false` when absent.
pub open spec fn opt_field(o: Option<Seq<char>>) -> Seq<char> {
    match o {
        Option::None => "false"@,
        Option::Some(s) => "\""@ + s + "\""@,
    }
}

pub open spec fn bool_field(b: bool) -> Seq<char> {
    if b {
        "true"@
    } else {
        "false"@
    }
}

/// The directory list: each entry quoted, separated by comma and space.
pub open spec fn quoted_list(ds: Seq<Seq<char>>) -> Seq<char>
    decreases ds.len(),
{
    if ds.len() == 0 {
        Seq::empty()
    } else if ds.len() == 1 {
        "\""@ + ds[0] + "\""@
    } else {
        "\""@ + ds[0] + "\""@ + ", "@ + quoted_list(ds.skip(1))
    }
}

/// The full rendered record.
pub open spec fn render_provenance_spec(r: ProvenanceRecordView) -> Seq<char> {
    "# yuuskel provenance record; do not edit by hand\n\n[yuuskel]\nversion = \""@ + r.version
        + "\"\nprefix = "@ + opt_field(r.prefix) + "\ngit_initialized = "@ + bool_field(
        r.git_initialized,
    ) + "\nlicense = "@ + opt_field(r.license) + "\ndirs = ["@ + quoted_list(r.dirs) + "]\n"@
}

/// The provenance store after a run: untouched when a record is present,
/// else the rendered record of this run.
pub open spec fn provenance_after(
    store: Option<Seq<char>>,
    rec: ProvenanceRecordView,
) -> Option<Seq<char>> {
    match store {
        Option::Some(s) => Option::Some(s),
        Option::None => Option::Some(render_provenance_spec(rec)),
    }
}

/// Write-once: after a first run, a second run leaves the store exactly as
/// the first run left it, whatever the second run's record would have said.
pub proof fn lemma_provenance_write_once(
    store: Option<Seq<char>>,
    first: ProvenanceRecordView,
    second: ProvenanceRecordView,
)
    ensures
        provenance_after(provenance_after(store, first), second) == provenance_after(store, first),
{
}

proof fn lemma_quoted_list_push(ds: Seq<Seq<char>>, d: Seq<char>)
    ensures
        quoted_list(ds.push(d)) == if ds.len() == 0 {
            "\""@ + d + "\""@
        } else {
            quoted_list(ds) + ", "@ + quoted_list(seq![d])
        },
    decreases ds.len(),
{
    reveal_with_fuel(quoted_list, 2);
    if ds.len() == 0 {
        assert(ds.push(d)[0] == d);
    } else {
        assert(ds.push(d).skip(1) =~= ds.skip(1).push(d));
        lemma_quoted_list_push(ds.skip(1), d);
        assert(seq![d][0] == d);
        assert(quoted_list(seq![d]) == "\""@ + d + "\""@);
        assert(ds.push(d).len() >= 2);
        assert(ds.push(d)[0] == ds[0]);
        if ds.len() == 1 {
            assert(ds.skip(1).len() == 0);
            assert(quoted_list(ds.push(d)) == "\""@ + ds[0] + "\""@ + ", "@ + quoted_list(
                ds.skip(1).push(d),
            ));
            assert(quoted_list(ds.push(d)) =~= quoted_list(ds) + ", "@ + quoted_list(seq![d]));
        } else {
            assert(quoted_list(ds.push(d)) == "\""@ + ds[0] + "\""@ + ", "@ + (quoted_list(
                ds.skip(1),
            ) + ", "@ + quoted_list(seq![d])));
            assert(quoted_list(ds.push(d)) =~= quoted_list(ds) + ", "@ + quoted_list(seq![d]));
        }
    }
}

fn append_quoted(out: &mut String, d: &str)
    ensures
        final(out)@ == old(out)@ + "\""@ + d@ + "\""@,
{
    out.append("\"");
    out.append(d);
    out.append("\"");
}

fn append_opt(out: &mut String, o: &Option<String>)
    ensures
        final(out)@ == old(out)@ + opt_field(o.deep_view()),
{
    match o {
        Option::None => {
            out.append("false");
        },
        Option::Some(s) => {
            append_quoted(out, s.as_str());
        },
    }
}

fn append_bool(out: &mut String, b: bool)
    ensures
        final(out)@ == old(out)@ + bool_field(b),
{
    if b {
        out.append("true");
    } else {
        out.append("false");
    }
}

fn append_quoted_list(out: &mut String, ds: &Vec<String>)
    ensures
        final(out)@ == old(out)@ + quoted_list(ds.deep_view()),
{
    let mut i: usize = 0;
    proof {
        assert(ds.deep_view().take(0) =~= Seq::<Seq<char>>::empty());
        assert(out@ + quoted_list(ds.deep_view().take(0)) =~= out@);
    }
    while i < ds.len()
        invariant
            0 <= i <= ds@.len(),
            ds.deep_view().len() == ds@.len(),
            out@ == old(out)@ + quoted_list(ds.deep_view().take(i as int)),
        decreases ds@.len() - i,
    {
        let ghost prefix = ds.deep_view().take(i as int);
        let ghost d = ds.deep_view()[i as int];
        if i > 0 {
            out.append(", ");
        }
        append_quoted(out, ds[i].as_str());
        proof {
            lemma_quoted_list_push(prefix, d);
            assert(ds.deep_view().take(i + 1) =~= prefix.push(d));
            if i == 0 {
                assert(out@ =~= old(out)@ + quoted_list(ds.deep_view().take(i + 1)));
            } else {
                assert(quoted_list(seq![d]) == "\""@ + d + "\""@) by {
                    assert(seq![d][0] == d);
                }
                assert(out@ =~= old(out)@ + quoted_list(ds.deep_view().take(i + 1)));
            }
        }
        i = i + 1;
    }
    proof {
        assert(ds.deep_view().take(ds@.len() as int) =~= ds.deep_view());
    }
}

/// Render the provenance record of a run.
pub fn render_provenance(rec: &ProvenanceRecord) -> (r: String)
    ensures
        r@ == render_provenance_spec(rec@),
{
    let mut out = String::new();
    out.append("# yuuskel provenance record; do not edit by hand\n\n[yuuskel]\nversion = \"");
    out.append(rec.version.as_str());
    out.append("\"\nprefix = ");
    append_opt(&mut out, &rec.prefix);
    out.append("\ngit_initialized = ");
    append_bool(&mut out, rec.git_initialized);
    out.append("\nlicense = ");
    append_opt(&mut out, &rec.license);
    out.append("\ndirs = [");
    append_quoted_list(&mut out, &rec.dirs);
    out.append("]\n");
    proof {
        assert(out@ =~= render_provenance_spec(rec@));
    }
    out
}

/// What a run writes for provenance: nothing when the artifact is already
/// present, the rendered record when it is absent.
pub fn provenance_to_write(already_present: bool, rec: &ProvenanceRecord) -> (w: Option<String>)
    ensures
        w.deep_view() == (if already_present {
            Option::<Seq<char>>::None
        } else {
            Option::Some(render_provenance_spec(rec@))
        }),
{
    if already_present {
        Option::None
    } else {
        Option::Some(render_provenance(rec))
    }
}

/// The trailing separator underscores of a normalized prefix, removed: how
/// the prefix is reported and recorded.
pub open spec fn strip_trailing_underscores(s: Seq<char>) -> Seq<char>
    decreases s.len(),
{
    if s.len() > 0 && s.last() == '_' {
        strip_trailing_underscores(s.drop_last())
    } else {
        s
    }
}

proof fn lemma_strip_trailing_is(s: Seq<char>, m: int)
    requires
        0 <= m <= s.len(),
        forall|k: int| m <= k < s.len() ==> s[k] == '_',
        m > 0 ==> s[m - 1] != '_',
    ensures
        strip_trailing_underscores(s) == s.take(m),
    decreases s.len(),
{
    if s.len() == 0 {
        assert(s.take(0) =~= s);
    } else if s.last() == '_' {
        assert(m < s.len());
        assert forall|k: int| m <= k < s.drop_last().len() implies s.drop_last()[k] == '_' by {
            assert(s.drop_last()[k] == s[k]);
        }
        if m > 0 {
            assert(s.drop_last()[m - 1] == s[m - 1]);
        }
        lemma_strip_trailing_is(s.drop_last(), m);
        assert(s.drop_last().take(m) =~= s.take(m));
    } else {
        assert(m == s.len());
        assert(s.take(m) =~= s);
    }
}

/// The prefix as reported to the user and recorded in provenance: the
/// normalized token without its trailing separator underscores.
pub fn prefix_label(prefix: &str) -> (r: String)
    ensures
        r@ == strip_trailing_underscores(prefix@),
{
    let n = prefix.unicode_len();
    let mut j: usize = n;
    while j > 0 && prefix.get_char(j - 1) == '_'
        invariant
            n == prefix@.len(),
            0 <= j <= n,
            forall|k: int| j <= k < n ==> prefix@[k] == '_',
        decreases j,
    {
        j = j - 1;
    }
    proof {
        lemma_strip_trailing_is(prefix@, j as int);
    }
    let r = prefix.substring_char(0, j);
    proof {
        assert(r@ == prefix@.subrange(0, j as int));
        assert(prefix@.take(j as int) =~= prefix@.subrange(0, j as int));
    }
    r.to_owned()
}

} // verus!
