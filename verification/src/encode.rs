//! The exposition encoder: renders a snapshot into the textual wire format,
//! one `# HELP` and `# TYPE` comment per family followed by one line per
//! series, histograms as cumulative `_bucket` lines plus `_sum` and `_count`.
//! The output is specified exactly, as a function of the snapshot alone.

use vstd::prelude::*;
use vstd::string::StringExecFns;

use crate::model::{wf_family, FamilyModel, MetricKind, SeriesModel};
use crate::registry::{Accumulator, Family, FamilyDef, Registry, Series, Snapshot};
use crate::text::{
    push_bound, push_escaped_help, push_escaped_label, push_i64, push_millis, push_u64,
    spec_dec, spec_escape_help, spec_escape_label, spec_fmt_bound, spec_fmt_i64, spec_fmt_millis,
};

verus! {

/// The kind name on a `# TYPE` line.
pub open spec fn kind_text(k: MetricKind) -> Seq<char> {
    match k {
        MetricKind::Counter => "counter"@,
        MetricKind::Gauge => "gauge"@,
        MetricKind::Histogram => "histogram"@,
    }
}

/// One rendered `name="text"` pair; `text` is already escaped or rendered.
pub open spec fn spec_pair(name: Seq<char>, text: Seq<char>) -> Seq<char> {
    name + "=\""@ + text + "\""@
}

/// The first `n` pairs, comma-separated.
pub open spec fn spec_pairs_upto(names: Seq<Seq<char>>, texts: Seq<Seq<char>>, n: int) -> Seq<char>
    decreases n,
{
    if n <= 0 {
        Seq::empty()
    } else if n == 1 {
        spec_pair(names[0], texts[0])
    } else {
        spec_pairs_upto(names, texts, n - 1) + ","@ + spec_pair(names[n - 1], texts[n - 1])
    }
}

/// Label values, each escaped for the wire.
pub open spec fn esc_texts(values: Seq<Seq<char>>) -> Seq<Seq<char>> {
    Seq::new(values.len(), |i: int| spec_escape_label(values[i]))
}

/// The rendered label set: empty for an unlabelled series, else the pairs in
/// braces.
pub open spec fn spec_label_block(names: Seq<Seq<char>>, texts: Seq<Seq<char>>) -> Seq<char> {
    if names.len() == 0 {
        Seq::empty()
    } else {
        "{"@ + spec_pairs_upto(names, texts, names.len() as int) + "}"@
    }
}

/// One series line: metric name, label set, a space, the value, a newline.
pub open spec fn spec_series_line(
    metric: Seq<char>,
    names: Seq<Seq<char>>,
    texts: Seq<Seq<char>>,
    value_text: Seq<char>,
) -> Seq<char> {
    metric + spec_label_block(names, texts) + " "@ + value_text + "\n"@
}

/// The `le` text of bucket `i`: a finite bound, or `+Inf` past the last.
pub open spec fn spec_bound_text(bounds: Seq<u64>, i: int) -> Seq<char> {
    if i < bounds.len() {
        spec_fmt_bound(bounds[i] as nat)
    } else {
        "+Inf"@
    }
}

/// The first `n` cumulative bucket lines of one histogram series.
pub open spec fn spec_bucket_lines_upto(
    name: Seq<char>,
    label_names: Seq<Seq<char>>,
    labels: Seq<Seq<char>>,
    bounds: Seq<u64>,
    counts: Seq<u64>,
    n: int,
) -> Seq<char>
    decreases n,
{
    if n <= 0 {
        Seq::empty()
    } else {
        spec_bucket_lines_upto(name, label_names, labels, bounds, counts, n - 1)
            + spec_series_line(
            name + "_bucket"@,
            label_names.push("le"@),
            esc_texts(labels).push(spec_bound_text(bounds, n - 1)),
            spec_dec(counts[n - 1] as nat),
        )
    }
}

/// The lines of one series: a single line for a counter or gauge, and for a
/// histogram every bucket line followed by `_sum` and `_count`.
pub open spec fn spec_encode_series(
    name: Seq<char>,
    label_names: Seq<Seq<char>>,
    s: SeriesModel,
) -> Seq<char> {
    match s.acc {
        crate::model::AccModel::Counter { value } => spec_series_line(
            name,
            label_names,
            esc_texts(s.labels),
            spec_dec(value as nat),
        ),
        crate::model::AccModel::Gauge { value } => spec_series_line(
            name,
            label_names,
            esc_texts(s.labels),
            spec_fmt_i64(value as int),
        ),
        crate::model::AccModel::Histogram { bounds, counts, total, sum } => spec_bucket_lines_upto(
            name,
            label_names,
            s.labels,
            bounds,
            counts,
            counts.len() as int,
        ) + spec_series_line(
            name + "_sum"@,
            label_names,
            esc_texts(s.labels),
            spec_fmt_millis(sum as nat),
        ) + spec_series_line(
            name + "_count"@,
            label_names,
            esc_texts(s.labels),
            spec_dec(total as nat),
        ),
    }
}

/// The lines of a family's first `n` series.
pub open spec fn spec_series_upto(f: FamilyModel, n: int) -> Seq<char>
    decreases n,
{
    if n <= 0 {
        Seq::empty()
    } else {
        spec_series_upto(f, n - 1) + spec_encode_series(f.name, f.label_names, f.series[n - 1])
    }
}

/// One family: its `# HELP` and `# TYPE` comments, then its series in
/// creation order.
pub open spec fn spec_encode_family(f: FamilyModel) -> Seq<char> {
    "# HELP "@ + f.name + " "@ + spec_escape_help(f.help) + "\n"@ + "# TYPE "@ + f.name + " "@
        + kind_text(f.kind) + "\n"@ + spec_series_upto(f, f.series.len() as int)
}

/// The first `n` families of a snapshot.
pub open spec fn spec_encode_upto(fams: Seq<FamilyModel>, n: int) -> Seq<char>
    decreases n,
{
    if n <= 0 {
        Seq::empty()
    } else {
        spec_encode_upto(fams, n - 1) + spec_encode_family(fams[n - 1])
    }
}

/// The exposition text of a whole snapshot, family by family in registration
/// order.
pub open spec fn spec_encode(fams: Seq<FamilyModel>) -> Seq<char> {
    spec_encode_upto(fams, fams.len() as int)
}

/// Appending a pair to the schema leaves the first pairs' rendering alone.
proof fn lemma_pairs_upto_push(
    names: Seq<Seq<char>>,
    texts: Seq<Seq<char>>,
    en: Seq<char>,
    et: Seq<char>,
    k: int,
)
    requires
        0 <= k <= names.len(),
        names.len() == texts.len(),
    ensures
        spec_pairs_upto(names.push(en), texts.push(et), k) == spec_pairs_upto(names, texts, k),
    decreases k,
{
    if k <= 0 {
    } else if k == 1 {
    } else {
        lemma_pairs_upto_push(names, texts, en, et, k - 1);
    }
}

/// Writes the comma-separated `name="value"` pairs of one series.
fn push_pairs(out: &mut String, names: &Vec<String>, values: &Vec<String>)
    requires
        names.len() == values.len(),
    ensures
        final(out)@ == old(out)@ + spec_pairs_upto(
            names.deep_view(),
            esc_texts(values.deep_view()),
            names.len() as int,
        ),
{
    let mut i: usize = 0;
    while i < names.len()
        invariant
            i <= names.len(),
            names.len() == values.len(),
            out@ == old(out)@ + spec_pairs_upto(
                names.deep_view(),
                esc_texts(values.deep_view()),
                i as int,
            ),
        decreases names.len() - i,
    {
        let ghost pre = out@;
        if i > 0 {
            out.append(",");
        }
        out.append((&names[i]).as_str());
        out.append("=\"");
        push_escaped_label(out, (&values[i]).as_str());
        out.append("\"");
        proof {
            let nd = names.deep_view();
            let td = esc_texts(values.deep_view());
            assert(nd[i as int] == names@[i as int]@);
            assert(td[i as int] == spec_escape_label(values@[i as int]@));
            let sep: Seq<char> = if i > 0 {
                ","@
            } else {
                Seq::empty()
            };
            assert(out@ =~= pre + sep + spec_pair(nd[i as int], td[i as int]));
            if i == 0 {
                assert(spec_pairs_upto(nd, td, 1) == spec_pair(nd[0], td[0]));
                assert(pre =~= old(out)@);
            } else {
                assert(spec_pairs_upto(nd, td, i as int + 1) == spec_pairs_upto(nd, td, i as int)
                    + ","@ + spec_pair(nd[i as int], td[i as int]));
            }
            assert(out@ =~= old(out)@ + spec_pairs_upto(nd, td, i as int + 1));
        }
        i += 1;
    }
}

/// Writes the label set of one series: nothing when the schema is empty.
fn push_label_block(out: &mut String, names: &Vec<String>, values: &Vec<String>)
    requires
        names.len() == values.len(),
    ensures
        final(out)@ == old(out)@ + spec_label_block(
            names.deep_view(),
            esc_texts(values.deep_view()),
        ),
{
    if names.len() == 0 {
        return ;
    }
    out.append("{");
    push_pairs(out, names, values);
    out.append("}");
    proof {
        assert(out@ =~= old(out)@ + spec_label_block(
            names.deep_view(),
            esc_texts(values.deep_view()),
        ));
    }
}

/// Writes the label set of one bucket line: the series labels plus `le`.
fn push_block_with_le(out: &mut String, names: &Vec<String>, values: &Vec<String>, bt: &String)
    requires
        names.len() == values.len(),
    ensures
        final(out)@ == old(out)@ + spec_label_block(
            names.deep_view().push("le"@),
            esc_texts(values.deep_view()).push(bt@),
        ),
{
    out.append("{");
    push_pairs(out, names, values);
    if names.len() > 0 {
        out.append(",");
    }
    out.append("le");
    out.append("=\"");
    out.append(bt.as_str());
    out.append("\"");
    out.append("}");
    proof {
        let pn = names.deep_view().push("le"@);
        let pt = esc_texts(values.deep_view()).push(bt@);
        lemma_pairs_upto_push(
            names.deep_view(),
            esc_texts(values.deep_view()),
            "le"@,
            bt@,
            names.deep_view().len() as int,
        );
        assert(pn[pn.len() - 1] == "le"@);
        assert(pt[pt.len() - 1] == bt@);
        assert(out@ =~= old(out)@ + spec_label_block(pn, pt));
    }
}

/// Writes every line of one series.
#[verifier::rlimit(100)]
fn encode_series(out: &mut String, def: &FamilyDef, s: &Series)
    requires
        s.label_values.len() == def.label_names.len(),
    ensures
        final(out)@ == old(out)@ + spec_encode_series(
            def.name@,
            def.label_names.deep_view(),
            s@,
        ),
{
    match &s.acc {
        Accumulator::Counter { value } => {
            out.append(def.name.as_str());
            push_label_block(out, &def.label_names, &s.label_values);
            out.append(" ");
            push_u64(out, *value);
            out.append("\n");
            proof {
                assert(out@ =~= old(out)@ + spec_encode_series(
                    def.name@,
                    def.label_names.deep_view(),
                    s@,
                ));
            }
        },
        Accumulator::Gauge { value } => {
            out.append(def.name.as_str());
            push_label_block(out, &def.label_names, &s.label_values);
            out.append(" ");
            push_i64(out, *value);
            out.append("\n");
            proof {
                assert(out@ =~= old(out)@ + spec_encode_series(
                    def.name@,
                    def.label_names.deep_view(),
                    s@,
                ));
            }
        },
        Accumulator::Histogram { bounds, counts, total, sum } => {
            let ghost base = out@;
            let mut i: usize = 0;
            while i < counts.len()
                invariant
                    i <= counts.len(),
                    s.label_values.len() == def.label_names.len(),
                    s.acc@ == (crate::model::AccModel::Histogram {
                        bounds: bounds@,
                        counts: counts@,
                        total: *total,
                        sum: *sum,
                    }),
                    out@ == base + spec_bucket_lines_upto(
                        def.name@,
                        def.label_names.deep_view(),
                        s.label_values.deep_view(),
                        bounds@,
                        counts@,
                        i as int,
                    ),
                decreases counts.len() - i,
            {
                out.append(def.name.as_str());
                out.append("_bucket");
                let mut bt = String::new();
                if i < bounds.len() {
                    push_bound(&mut bt, bounds[i]);
                } else {
                    bt.append("+Inf");
                }
                proof {
                    assert(bt@ == spec_bound_text(bounds@, i as int));
                }
                push_block_with_le(out, &def.label_names, &s.label_values, &bt);
                out.append(" ");
                push_u64(out, counts[i]);
                out.append("\n");
                proof {
                    assert(out@ =~= base + spec_bucket_lines_upto(
                        def.name@,
                        def.label_names.deep_view(),
                        s.label_values.deep_view(),
                        bounds@,
                        counts@,
                        i as int + 1,
                    ));
                }
                i += 1;
            }
            out.append(def.name.as_str());
            out.append("_sum");
            push_label_block(out, &def.label_names, &s.label_values);
            out.append(" ");
            push_millis(out, *sum);
            out.append("\n");
            out.append(def.name.as_str());
            out.append("_count");
            push_label_block(out, &def.label_names, &s.label_values);
            out.append(" ");
            push_u64(out, *total);
            out.append("\n");
            proof {
                assert(out@ =~= old(out)@ + spec_encode_series(
                    def.name@,
                    def.label_names.deep_view(),
                    s@,
                ));
            }
        },
    }
}

/// Writes one family: its two comment lines, then all its series.
#[verifier::rlimit(100)]
fn encode_family(out: &mut String, f: &Family)
    requires
        wf_family(f@),
    ensures
        final(out)@ == old(out)@ + spec_encode_family(f@),
{
    out.append("# HELP ");
    out.append(f.def.name.as_str());
    out.append(" ");
    push_escaped_help(out, f.def.help.as_str());
    out.append("\n");
    out.append("# TYPE ");
    out.append(f.def.name.as_str());
    out.append(" ");
    match f.def.kind {
        MetricKind::Counter => out.append("counter"),
        MetricKind::Gauge => out.append("gauge"),
        MetricKind::Histogram => out.append("histogram"),
    }
    out.append("\n");
    let ghost header = old(out)@ + "# HELP "@ + f.def.name@ + " "@ + spec_escape_help(f.def.help@)
        + "\n"@ + "# TYPE "@ + f.def.name@ + " "@ + kind_text(f.def.kind) + "\n"@;
    proof {
        assert(out@ =~= header);
    }
    let mut i: usize = 0;
    while i < f.series.len()
        invariant
            i <= f.series.len(),
            wf_family(f@),
            out@ == header + spec_series_upto(f@, i as int),
        decreases f.series.len() - i,
    {
        proof {
            assert(f@.series[i as int] == f.series@[i as int]@);
            assert(f@.series[i as int].labels.len() == f@.label_names.len());
        }
        encode_series(out, &f.def, &f.series[i]);
        proof {
            assert(out@ =~= header + spec_series_upto(f@, i as int + 1));
        }
        i += 1;
    }
    proof {
        assert(out@ =~= old(out)@ + spec_encode_family(f@));
    }
}

/// Renders a snapshot into the exposition text. The output is a pure function
/// of the snapshot: encoding does not touch the live registry, and the same
/// snapshot always renders to the same text.
pub fn encode(snap: &Snapshot) -> (r: String)
    requires
        snap.wf(),
    ensures
        r@ == spec_encode(snap@),
{
    let mut out = String::new();
    let mut i: usize = 0;
    while i < snap.families.len()
        invariant
            i <= snap.families.len(),
            snap.wf(),
            out@ == spec_encode_upto(snap@, i as int),
        decreases snap.families.len() - i,
    {
        proof {
            assert(snap@[i as int] == snap.families@[i as int]@);
            assert(wf_family(snap@[i as int]));
        }
        encode_family(&mut out, &snap.families[i]);
        proof {
            assert(out@ =~= spec_encode_upto(snap@, i as int + 1));
        }
        i += 1;
    }
    out
}

impl Registry {
    /// Takes a snapshot and renders it: what one scrape of the registry
    /// returns.
    pub fn render(&self) -> (r: String)
        requires
            self.wf(),
        ensures
            r@ == spec_encode(self@),
    {
        let snap = self.gather();
        encode(&snap)
    }
}

} // verus!
