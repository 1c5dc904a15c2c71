//! Mathematical model of the metrics engine.
//!
//! A registry is modelled as a sequence of metric families in registration
//! order; each family carries its descriptor and the series created so far.
//! Every mutating operation of the executable registry is specified by a
//! transition function on this model, so that laws about sequences of
//! operations can be stated and proved once, on the model.

use vstd::prelude::*;

verus! {

/// The kind of a metric family.
#[derive(Clone, Copy, PartialEq, Eq, Structural, Debug)]
pub enum MetricKind {
    Counter,
    Gauge,
    Histogram,
}

/// Errors surfaced by the registry API; they indicate misuse by the caller.
#[derive(Clone, Copy, PartialEq, Eq, Structural, Debug)]
pub enum RegistryError {
    /// A family with the given name is already registered.
    DuplicateName,
    /// No family with the given name and kind is registered.
    UnknownMetric,
    /// The label values handed in do not match the family's label schema.
    LabelArityMismatch,
}

/// Model of one accumulator. Histogram observations and sums are fixed-point
/// values counted in thousandths of a unit; bucket counts are cumulative.
#[verifier::ext_equal]
pub enum AccModel {
    Counter { value: u64 },
    Gauge { value: i64 },
    Histogram { bounds: Seq<u64>, counts: Seq<u64>, total: u64, sum: u64 },
}

/// Model of one series: a label-value tuple and its accumulator.
#[verifier::ext_equal]
pub struct SeriesModel {
    pub labels: Seq<Seq<char>>,
    pub acc: AccModel,
}

/// Model of one metric family with its series in creation order.
#[verifier::ext_equal]
pub struct FamilyModel {
    pub name: Seq<char>,
    pub help: Seq<char>,
    pub kind: MetricKind,
    pub label_names: Seq<Seq<char>>,
    pub series: Seq<SeriesModel>,
}

/// Addition on `u64` that pegs at the maximum instead of wrapping.
pub open spec fn sat_add_u64(a: u64, b: u64) -> u64 {
    if a + b > u64::MAX {
        u64::MAX
    } else {
        (a + b) as u64
    }
}

/// Signed addition on `i64` that pegs at the extremes instead of wrapping.
pub open spec fn sat_add_i64(a: i64, d: i64) -> i64 {
    if a + d > i64::MAX {
        i64::MAX
    } else if a + d < i64::MIN {
        i64::MIN
    } else {
        (a + d) as i64
    }
}

/// Signed subtraction on `i64` that pegs at the extremes instead of wrapping.
pub open spec fn sat_sub_i64(a: i64, d: i64) -> i64 {
    if a - d > i64::MAX {
        i64::MAX
    } else if a - d < i64::MIN {
        i64::MIN
    } else {
        (a - d) as i64
    }
}

/// The fixed histogram bucket upper bounds, in thousandths of a unit.
/// A final bucket with no finite bound (rendered `+Inf`) is implicit.
pub open spec fn default_bounds() -> Seq<u64> {
    seq![5u64, 10u64, 25u64, 50u64, 100u64, 250u64, 500u64, 1000u64, 2500u64, 5000u64, 10000u64]
}

pub open spec fn has_family(fams: Seq<FamilyModel>, name: Seq<char>) -> bool {
    exists|i: int| 0 <= i < fams.len() && fams[i].name == name
}

pub open spec fn family_index(fams: Seq<FamilyModel>, name: Seq<char>) -> int {
    choose|i: int| 0 <= i < fams.len() && fams[i].name == name
}

pub open spec fn has_series(ss: Seq<SeriesModel>, labels: Seq<Seq<char>>) -> bool {
    exists|i: int| 0 <= i < ss.len() && ss[i].labels == labels
}

pub open spec fn series_index(ss: Seq<SeriesModel>, labels: Seq<Seq<char>>) -> int {
    choose|i: int| 0 <= i < ss.len() && ss[i].labels == labels
}

pub open spec fn distinct_seqs(s: Seq<Seq<char>>) -> bool {
    forall|i: int, j: int| 0 <= i < j < s.len() ==> s[i] != s[j]
}

pub open spec fn acc_matches_kind(a: AccModel, k: MetricKind) -> bool {
    match k {
        MetricKind::Counter => a is Counter,
        MetricKind::Gauge => a is Gauge,
        MetricKind::Histogram => a is Histogram,
    }
}

/// Histogram invariant: the process-wide bucket bounds, one extra cumulative
/// count for the unbounded bucket, counts non-decreasing across the buckets,
/// and the last count equal to the total observation count.
pub open spec fn wf_acc(a: AccModel) -> bool {
    match a {
        AccModel::Histogram { bounds, counts, total, sum } => {
            &&& bounds == default_bounds()
            &&& counts.len() == bounds.len() + 1
            &&& (forall|i: int, j: int| 0 <= i <= j < counts.len() ==> counts[i] <= counts[j])
            &&& counts[counts.len() - 1] == total
        },
        _ => true,
    }
}

pub open spec fn wf_family(f: FamilyModel) -> bool {
    &&& distinct_seqs(f.label_names)
    &&& (forall|i: int|
        0 <= i < f.series.len() ==> (#[trigger] f.series[i]).labels.len() == f.label_names.len())
    &&& (forall|i: int, j: int|
        0 <= i < j < f.series.len() ==> f.series[i].labels != f.series[j].labels)
    &&& (forall|i: int|
        0 <= i < f.series.len() ==> acc_matches_kind((#[trigger] f.series[i]).acc, f.kind)
            && wf_acc(f.series[i].acc))
}

pub open spec fn wf_registry(fams: Seq<FamilyModel>) -> bool {
    &&& (forall|i: int, j: int| 0 <= i < j < fams.len() ==> fams[i].name != fams[j].name)
    &&& (forall|i: int| 0 <= i < fams.len() ==> wf_family(#[trigger] fams[i]))
}

/// A freshly registered family: the given descriptor and no series.
pub open spec fn fresh_family(
    name: Seq<char>,
    help: Seq<char>,
    kind: MetricKind,
    label_names: Seq<Seq<char>>,
) -> FamilyModel {
    FamilyModel { name, help, kind, label_names, series: Seq::empty() }
}

/// Transition of `register`: appends the family, or rejects a duplicate name
/// leaving the registry unchanged.
pub open spec fn register_tr(fams: Seq<FamilyModel>, f: FamilyModel) -> Result<
    Seq<FamilyModel>,
    RegistryError,
> {
    if has_family(fams, f.name) {
        Err(RegistryError::DuplicateName)
    } else {
        Ok(fams.push(f))
    }
}

/// The accumulator a series starts from when it is created lazily.
pub open spec fn zero_acc(k: MetricKind) -> AccModel {
    match k {
        MetricKind::Counter => AccModel::Counter { value: 0 },
        MetricKind::Gauge => AccModel::Gauge { value: 0 },
        MetricKind::Histogram => AccModel::Histogram {
            bounds: default_bounds(),
            counts: Seq::new(default_bounds().len() + 1, |i: int| 0u64),
            total: 0,
            sum: 0,
        },
    }
}

/// Common shape of every series mutation: find the family by name and kind,
/// check the label arity, then apply `step` to the addressed series'
/// accumulator, creating the series from `zero_acc` on first use.
pub open spec fn series_update_tr(
    fams: Seq<FamilyModel>,
    name: Seq<char>,
    kind: MetricKind,
    labels: Seq<Seq<char>>,
    step: spec_fn(AccModel) -> AccModel,
) -> Result<Seq<FamilyModel>, RegistryError> {
    if !has_family(fams, name) {
        Err(RegistryError::UnknownMetric)
    } else {
        let fi = family_index(fams, name);
        let f = fams[fi];
        if f.kind != kind {
            Err(RegistryError::UnknownMetric)
        } else if labels.len() != f.label_names.len() {
            Err(RegistryError::LabelArityMismatch)
        } else {
            let ss = if has_series(f.series, labels) {
                let si = series_index(f.series, labels);
                f.series.update(
                    si,
                    SeriesModel { labels: f.series[si].labels, acc: step(f.series[si].acc) },
                )
            } else {
                f.series.push(SeriesModel { labels, acc: step(zero_acc(kind)) })
            };
            Ok(fams.update(fi, FamilyModel { series: ss, ..f }))
        }
    }
}

pub open spec fn counter_of(a: AccModel) -> u64 {
    match a {
        AccModel::Counter { value } => value,
        _ => 0,
    }
}

pub open spec fn gauge_of(a: AccModel) -> i64 {
    match a {
        AccModel::Gauge { value } => value,
        _ => 0,
    }
}

pub open spec fn counter_step(a: AccModel) -> AccModel {
    AccModel::Counter { value: sat_add_u64(counter_of(a), 1) }
}

/// The step applied by `counter_inc`, as a first-class spec function.
pub open spec fn counter_step_fn() -> spec_fn(AccModel) -> AccModel {
    |a: AccModel| counter_step(a)
}

/// The step applied by `gauge_set`.
pub open spec fn gauge_set_fn(v: i64) -> spec_fn(AccModel) -> AccModel {
    |a: AccModel| AccModel::Gauge { value: v }
}

/// The step applied by `gauge_inc`.
pub open spec fn gauge_inc_fn(d: i64) -> spec_fn(AccModel) -> AccModel {
    |a: AccModel| AccModel::Gauge { value: sat_add_i64(gauge_of(a), d) }
}

/// The step applied by `gauge_dec`.
pub open spec fn gauge_dec_fn(d: i64) -> spec_fn(AccModel) -> AccModel {
    |a: AccModel| AccModel::Gauge { value: sat_sub_i64(gauge_of(a), d) }
}

/// The step applied by `histogram_observe`.
pub open spec fn observe_fn(v: u64) -> spec_fn(AccModel) -> AccModel {
    |a: AccModel| observe_acc(a, v)
}

/// Transition of `counter_inc`.
pub open spec fn counter_inc_tr(
    fams: Seq<FamilyModel>,
    name: Seq<char>,
    labels: Seq<Seq<char>>,
) -> Result<Seq<FamilyModel>, RegistryError> {
    series_update_tr(fams, name, MetricKind::Counter, labels, counter_step_fn())
}

/// Transition of `gauge_set`.
pub open spec fn gauge_set_tr(
    fams: Seq<FamilyModel>,
    name: Seq<char>,
    labels: Seq<Seq<char>>,
    v: i64,
) -> Result<Seq<FamilyModel>, RegistryError> {
    series_update_tr(fams, name, MetricKind::Gauge, labels, gauge_set_fn(v))
}

/// Transition of `gauge_inc`.
pub open spec fn gauge_inc_tr(
    fams: Seq<FamilyModel>,
    name: Seq<char>,
    labels: Seq<Seq<char>>,
    d: i64,
) -> Result<Seq<FamilyModel>, RegistryError> {
    series_update_tr(fams, name, MetricKind::Gauge, labels, gauge_inc_fn(d))
}

/// Transition of `gauge_dec`.
pub open spec fn gauge_dec_tr(
    fams: Seq<FamilyModel>,
    name: Seq<char>,
    labels: Seq<Seq<char>>,
    d: i64,
) -> Result<Seq<FamilyModel>, RegistryError> {
    series_update_tr(fams, name, MetricKind::Gauge, labels, gauge_dec_fn(d))
}

/// Index of the first bucket whose bound reaches `v`; the number of buckets
/// when only the unbounded bucket does.
pub open spec fn bucket_rank(bounds: Seq<u64>, v: u64) -> int
    decreases bounds.len(),
{
    if bounds.len() == 0 {
        0
    } else if bounds[0] >= v {
        0
    } else {
        1 + bucket_rank(bounds.drop_first(), v)
    }
}

/// One observation: every cumulative bucket from the first bound reaching the
/// value on (the unbounded bucket always) is incremented, as are the total
/// count and the running sum.
pub open spec fn observe_acc(a: AccModel, v: u64) -> AccModel {
    match a {
        AccModel::Histogram { bounds, counts, total, sum } => AccModel::Histogram {
            bounds,
            counts: Seq::new(
                counts.len(),
                |i: int|
                    if i >= bucket_rank(bounds, v) {
                        sat_add_u64(counts[i], 1)
                    } else {
                        counts[i]
                    },
            ),
            total: sat_add_u64(total, 1),
            sum: sat_add_u64(sum, v),
        },
        _ => a,
    }
}

/// Transition of `histogram_observe`.
pub open spec fn observe_tr(
    fams: Seq<FamilyModel>,
    name: Seq<char>,
    labels: Seq<Seq<char>>,
    v: u64,
) -> Result<Seq<FamilyModel>, RegistryError> {
    series_update_tr(fams, name, MetricKind::Histogram, labels, observe_fn(v))
}

/// The value of one counter series: zero until its first increment.
pub open spec fn counter_value_of(
    fams: Seq<FamilyModel>,
    name: Seq<char>,
    labels: Seq<Seq<char>>,
) -> u64 {
    if has_family(fams, name) {
        let f = fams[family_index(fams, name)];
        if has_series(f.series, labels) {
            counter_of(f.series[series_index(f.series, labels)].acc)
        } else {
            0
        }
    } else {
        0
    }
}

/// The value of one gauge series: zero until it is first touched.
pub open spec fn gauge_value_of(
    fams: Seq<FamilyModel>,
    name: Seq<char>,
    labels: Seq<Seq<char>>,
) -> i64 {
    if has_family(fams, name) {
        let f = fams[family_index(fams, name)];
        if has_series(f.series, labels) {
            gauge_of(f.series[series_index(f.series, labels)].acc)
        } else {
            0
        }
    } else {
        0
    }
}

/// What reading a counter returns: its value when the name is a registered
/// counter family, nothing otherwise.
pub open spec fn spec_counter_value(
    fams: Seq<FamilyModel>,
    name: Seq<char>,
    labels: Seq<Seq<char>>,
) -> Option<u64> {
    if has_family(fams, name) && fams[family_index(fams, name)].kind is Counter {
        Some(counter_value_of(fams, name, labels))
    } else {
        None
    }
}

/// What reading a gauge returns.
pub open spec fn spec_gauge_value(
    fams: Seq<FamilyModel>,
    name: Seq<char>,
    labels: Seq<Seq<char>>,
) -> Option<i64> {
    if has_family(fams, name) && fams[family_index(fams, name)].kind is Gauge {
        Some(gauge_value_of(fams, name, labels))
    } else {
        None
    }
}

/// What reading a histogram series returns: its accumulator, a fresh one for
/// a series never observed, and nothing when the name is not a registered
/// histogram family.
pub open spec fn spec_histogram_state(
    fams: Seq<FamilyModel>,
    name: Seq<char>,
    labels: Seq<Seq<char>>,
) -> Option<AccModel> {
    if has_family(fams, name) && fams[family_index(fams, name)].kind is Histogram {
        let f = fams[family_index(fams, name)];
        if has_series(f.series, labels) {
            Some(f.series[series_index(f.series, labels)].acc)
        } else {
            Some(zero_acc(MetricKind::Histogram))
        }
    } else {
        None
    }
}

/// In a well-formed registry the family index is the unique witness.
pub proof fn lemma_family_index_is(fams: Seq<FamilyModel>, name: Seq<char>, i: int)
    requires
        wf_registry(fams),
        0 <= i < fams.len(),
        fams[i].name == name,
    ensures
        has_family(fams, name),
        family_index(fams, name) == i,
{
    assert(has_family(fams, name));
    let j = family_index(fams, name);
    if i < j {
        assert(fams[i].name != fams[j].name);
    } else if j < i {
        assert(fams[j].name != fams[i].name);
    }
}

/// In a well-formed family the series index is the unique witness.
pub proof fn lemma_series_index_is(f: FamilyModel, labels: Seq<Seq<char>>, i: int)
    requires
        wf_family(f),
        0 <= i < f.series.len(),
        f.series[i].labels == labels,
    ensures
        has_series(f.series, labels),
        series_index(f.series, labels) == i,
{
    assert(has_series(f.series, labels));
    let j = series_index(f.series, labels);
    if i < j {
        assert(f.series[i].labels != f.series[j].labels);
    } else if j < i {
        assert(f.series[j].labels != f.series[i].labels);
    }
}

/// The first-bucket index is within range and characterised as the first
/// index whose bound reaches the value.
pub proof fn lemma_bucket_rank(bounds: Seq<u64>, v: u64)
    ensures
        0 <= bucket_rank(bounds, v) <= bounds.len(),
        forall|j: int| 0 <= j < bucket_rank(bounds, v) ==> bounds[j] < v,
        bucket_rank(bounds, v) < bounds.len() ==> bounds[bucket_rank(bounds, v)] >= v,
    decreases bounds.len(),
{
    if bounds.len() == 0 {
    } else if bounds[0] >= v {
    } else {
        lemma_bucket_rank(bounds.drop_first(), v);
        assert forall|j: int| 0 <= j < bucket_rank(bounds, v) implies bounds[j] < v by {
            if j > 0 {
                assert(bounds.drop_first()[j - 1] < v);
            }
        }
        if bucket_rank(bounds, v) < bounds.len() {
            assert(bounds[bucket_rank(bounds, v)] == bounds.drop_first()[bucket_rank(
                bounds.drop_first(),
                v,
            )]);
        }
    }
}

/// `register` preserves well-formedness when the new family is well-formed.
pub proof fn lemma_register_tr_wf(fams: Seq<FamilyModel>, f: FamilyModel)
    requires
        wf_registry(fams),
        wf_family(f),
        register_tr(fams, f) is Ok,
    ensures
        wf_registry(register_tr(fams, f)->Ok_0),
{
    let out = register_tr(fams, f)->Ok_0;
    assert forall|i: int, j: int| 0 <= i < j < out.len() implies out[i].name != out[j].name by {
        if j == out.len() - 1 {
            assert(!has_family(fams, f.name));
            assert(out[i] == fams[i]);
            if out[i].name == f.name {
                assert(has_family(fams, f.name));
            }
        }
    }
}

/// Every series mutation preserves well-formedness, provided its step keeps
/// the accumulator's kind and invariant.
pub proof fn lemma_series_update_tr_wf(
    fams: Seq<FamilyModel>,
    name: Seq<char>,
    kind: MetricKind,
    labels: Seq<Seq<char>>,
    step: spec_fn(AccModel) -> AccModel,
)
    requires
        wf_registry(fams),
        forall|a: AccModel|
            acc_matches_kind(a, kind) && wf_acc(a) ==> acc_matches_kind(#[trigger] step(a), kind)
                && wf_acc(step(a)),
        series_update_tr(fams, name, kind, labels, step) is Ok,
    ensures
        wf_registry(series_update_tr(fams, name, kind, labels, step)->Ok_0),
{
    let out = series_update_tr(fams, name, kind, labels, step)->Ok_0;
    let fi = family_index(fams, name);
    let f = fams[fi];
    assert(acc_matches_kind(zero_acc(kind), kind) && wf_acc(zero_acc(kind)));
    let nf = out[fi];
    assert(wf_family(f));
    assert forall|i: int, j: int|
        0 <= i < j < nf.series.len() implies nf.series[i].labels != nf.series[j].labels by {
        if has_series(f.series, labels) {
        } else {
            if j == nf.series.len() - 1 {
                if nf.series[i].labels == labels {
                    assert(has_series(f.series, labels));
                }
            }
        }
    }
    assert(wf_family(nf));
}

/// `counter_inc` preserves well-formedness.
pub proof fn lemma_counter_inc_tr_wf(fams: Seq<FamilyModel>, name: Seq<char>, labels: Seq<Seq<char>>)
    requires
        wf_registry(fams),
        counter_inc_tr(fams, name, labels) is Ok,
    ensures
        wf_registry(counter_inc_tr(fams, name, labels)->Ok_0),
{
    lemma_series_update_tr_wf(fams, name, MetricKind::Counter, labels, counter_step_fn());
}

/// `gauge_set` preserves well-formedness.
pub proof fn lemma_gauge_set_tr_wf(
    fams: Seq<FamilyModel>,
    name: Seq<char>,
    labels: Seq<Seq<char>>,
    v: i64,
)
    requires
        wf_registry(fams),
        gauge_set_tr(fams, name, labels, v) is Ok,
    ensures
        wf_registry(gauge_set_tr(fams, name, labels, v)->Ok_0),
{
    lemma_series_update_tr_wf(fams, name, MetricKind::Gauge, labels, gauge_set_fn(v));
}

/// `gauge_inc` preserves well-formedness.
pub proof fn lemma_gauge_inc_tr_wf(
    fams: Seq<FamilyModel>,
    name: Seq<char>,
    labels: Seq<Seq<char>>,
    d: i64,
)
    requires
        wf_registry(fams),
        gauge_inc_tr(fams, name, labels, d) is Ok,
    ensures
        wf_registry(gauge_inc_tr(fams, name, labels, d)->Ok_0),
{
    lemma_series_update_tr_wf(fams, name, MetricKind::Gauge, labels, gauge_inc_fn(d));
}

/// `gauge_dec` preserves well-formedness.
pub proof fn lemma_gauge_dec_tr_wf(
    fams: Seq<FamilyModel>,
    name: Seq<char>,
    labels: Seq<Seq<char>>,
    d: i64,
)
    requires
        wf_registry(fams),
        gauge_dec_tr(fams, name, labels, d) is Ok,
    ensures
        wf_registry(gauge_dec_tr(fams, name, labels, d)->Ok_0),
{
    lemma_series_update_tr_wf(fams, name, MetricKind::Gauge, labels, gauge_dec_fn(d));
}

/// `histogram_observe` preserves well-formedness: cumulative counts stay
/// cumulative and the unbounded bucket keeps counting every observation.
pub proof fn lemma_observe_tr_wf(
    fams: Seq<FamilyModel>,
    name: Seq<char>,
    labels: Seq<Seq<char>>,
    v: u64,
)
    requires
        wf_registry(fams),
        observe_tr(fams, name, labels, v) is Ok,
    ensures
        wf_registry(observe_tr(fams, name, labels, v)->Ok_0),
{
    assert forall|a: AccModel|
        acc_matches_kind(a, MetricKind::Histogram) && wf_acc(a) implies acc_matches_kind(
        #[trigger] (observe_fn(v))(a),
        MetricKind::Histogram,
    ) && wf_acc((observe_fn(v))(a)) by {
        lemma_bucket_rank(a->Histogram_bounds, v);
    }
    lemma_series_update_tr_wf(fams, name, MetricKind::Histogram, labels, observe_fn(v));
}

} // verus!
