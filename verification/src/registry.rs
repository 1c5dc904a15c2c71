//! The executable registry: families of counter, gauge and histogram series,
//! each mutation specified by the corresponding transition on the model.

use vstd::prelude::*;

use crate::model::{
    bucket_rank, counter_inc_tr, default_bounds, distinct_seqs, fresh_family, gauge_dec_tr,
    gauge_inc_tr, gauge_set_tr, has_family, has_series, lemma_bucket_rank,
    lemma_counter_inc_tr_wf, lemma_family_index_is, lemma_gauge_dec_tr_wf, lemma_gauge_inc_tr_wf,
    lemma_gauge_set_tr_wf, lemma_observe_tr_wf, lemma_register_tr_wf, lemma_series_index_is,
    observe_tr, register_tr, sat_add_i64, sat_add_u64, sat_sub_i64, wf_registry, AccModel,
    FamilyModel, MetricKind, RegistryError, SeriesModel,
};

verus! {

/// Static definition of a metric family: name, help text, kind and label schema.
pub struct FamilyDef {
    pub name: String,
    pub help: String,
    pub kind: MetricKind,
    pub label_names: Vec<String>,
}

impl FamilyDef {
    /// The family this descriptor registers: the descriptor and no series yet.
    pub open spec fn model(&self) -> FamilyModel {
        fresh_family(self.name@, self.help@, self.kind, self.label_names.deep_view())
    }

    /// Label names must be distinct.
    pub open spec fn wf(&self) -> bool {
        distinct_seqs(self.label_names.deep_view())
    }
}

/// The numeric accumulator of one series.
pub enum Accumulator {
    Counter { value: u64 },
    Gauge { value: i64 },
    Histogram { bounds: Vec<u64>, counts: Vec<u64>, total: u64, sum: u64 },
}

impl View for Accumulator {
    type V = AccModel;

    open spec fn view(&self) -> AccModel {
        match self {
            Accumulator::Counter { value } => AccModel::Counter { value: *value },
            Accumulator::Gauge { value } => AccModel::Gauge { value: *value },
            Accumulator::Histogram { bounds, counts, total, sum } => AccModel::Histogram {
                bounds: bounds@,
                counts: counts@,
                total: *total,
                sum: *sum,
            },
        }
    }
}

/// One series: the label values addressing it and its accumulator.
pub struct Series {
    pub label_values: Vec<String>,
    pub acc: Accumulator,
}

impl View for Series {
    type V = SeriesModel;

    open spec fn view(&self) -> SeriesModel {
        SeriesModel { labels: self.label_values.deep_view(), acc: self.acc@ }
    }
}

pub open spec fn series_view(ss: Seq<Series>) -> Seq<SeriesModel> {
    Seq::new(ss.len(), |i: int| ss[i]@)
}

/// One registered family with its series in creation order.
pub struct Family {
    pub def: FamilyDef,
    pub series: Vec<Series>,
}

impl View for Family {
    type V = FamilyModel;

    open spec fn view(&self) -> FamilyModel {
        FamilyModel {
            name: self.def.name@,
            help: self.def.help@,
            kind: self.def.kind,
            label_names: self.def.label_names.deep_view(),
            series: series_view(self.series@),
        }
    }
}

pub open spec fn families_view(fs: Seq<Family>) -> Seq<FamilyModel> {
    Seq::new(fs.len(), |i: int| fs[i]@)
}

/// The registry: all families, in registration order.
pub struct Registry {
    pub families: Vec<Family>,
}

impl View for Registry {
    type V = Seq<FamilyModel>;

    open spec fn view(&self) -> Seq<FamilyModel> {
        families_view(self.families@)
    }
}

/// A point-in-time copy of the registry, safe to encode while the live
/// registry keeps changing.
pub struct Snapshot {
    pub families: Vec<Family>,
}

impl View for Snapshot {
    type V = Seq<FamilyModel>;

    open spec fn view(&self) -> Seq<FamilyModel> {
        families_view(self.families@)
    }
}

impl Snapshot {
    pub open spec fn wf(&self) -> bool {
        wf_registry(self@)
    }
}

/// Compares two label-value tuples.
fn labels_match(a: &Vec<String>, b: &Vec<String>) -> (r: bool)
    ensures
        r == (a.deep_view() == b.deep_view()),
{
    if a.len() != b.len() {
        proof {
            assert(a.deep_view().len() != b.deep_view().len());
        }
        return false;
    }
    let mut i: usize = 0;
    while i < a.len()
        invariant
            i <= a.len(),
            a.len() == b.len(),
            forall|k: int| 0 <= k < i ==> a.deep_view()[k] == b.deep_view()[k],
        decreases a.len() - i,
    {
        if !(&a[i]).eq(&b[i]) {
            proof {
                assert(a.deep_view()[i as int] != b.deep_view()[i as int]);
            }
            return false;
        }
        i += 1;
    }
    proof {
        assert(a.deep_view() =~= b.deep_view());
    }
    true
}

/// Deep copy of a label-value tuple.
fn clone_labels(v: &Vec<String>) -> (r: Vec<String>)
    ensures
        r.deep_view() == v.deep_view(),
{
    let r = v.clone();
    proof {
        assert forall|i: int| 0 <= i < v.len() implies r[i]@ == v[i]@ by {
            assert(cloned::<String>(v[i], r[i]));
        }
        assert(r.deep_view() =~~= v.deep_view());
    }
    r
}

/// Deep copy of a vector of counts or bounds.
fn clone_u64s(v: &Vec<u64>) -> (r: Vec<u64>)
    ensures
        r@ == v@,
{
    let r = v.clone();
    proof {
        assert forall|i: int| 0 <= i < v.len() implies r[i] == v[i] by {
            assert(cloned::<u64>(v[i], r[i]));
        }
        assert(r@ =~= v@);
    }
    r
}

/// The fixed bucket bounds every histogram series is created with.
pub fn default_bounds_vec() -> (r: Vec<u64>)
    ensures
        r@ == default_bounds(),
{
    let mut r: Vec<u64> = Vec::new();
    r.push(5);
    r.push(10);
    r.push(25);
    r.push(50);
    r.push(100);
    r.push(250);
    r.push(500);
    r.push(1000);
    r.push(2500);
    r.push(5000);
    r.push(10000);
    proof {
        assert(r@ =~= default_bounds());
    }
    r
}

/// Index of the first bucket whose bound reaches `v`, or the bucket count
/// when only the unbounded bucket does.
fn first_bucket_at_least(bounds: &Vec<u64>, v: u64) -> (r: usize)
    ensures
        r as int == bucket_rank(bounds@, v),
        r <= bounds.len(),
{
    proof {
        lemma_bucket_rank(bounds@, v);
    }
    let mut i: usize = 0;
    while i < bounds.len()
        invariant
            i <= bounds.len(),
            forall|k: int| 0 <= k < i ==> bounds@[k] < v,
        decreases bounds.len() - i,
    {
        if bounds[i] >= v {
            proof {
                lemma_bucket_rank(bounds@, v);
                let rk = bucket_rank(bounds@, v);
                if rk < i as int {
                    assert(bounds@[rk] < v);
                } else if rk > i as int {
                    assert(bounds@[i as int] < v);
                }
            }
            return i;
        }
        i += 1;
    }
    proof {
        lemma_bucket_rank(bounds@, v);
        let rk = bucket_rank(bounds@, v);
        if rk < bounds@.len() {
            assert(bounds@[rk] < v);
        }
    }
    i
}

/// A fresh, never-observed histogram series for the given labels.
fn zero_histogram_series(labels: &Vec<String>) -> (r: Series)
    ensures
        r@ == (SeriesModel {
            labels: labels.deep_view(),
            acc: crate::model::zero_acc(MetricKind::Histogram),
        }),
{
    let bounds = default_bounds_vec();
    let n = bounds.len();
    proof {
        assert(n == default_bounds().len());
        assert(default_bounds().len() == 11);
    }
    let mut counts: Vec<u64> = Vec::new();
    let mut i: usize = 0;
    while i <= n
        invariant
            n == 11,
            counts.len() == i,
            i <= n + 1,
            forall|k: int| 0 <= k < i ==> counts@[k] == 0u64,
        decreases n + 1 - i,
    {
        counts.push(0);
        i += 1;
    }
    let r = Series {
        label_values: clone_labels(labels),
        acc: Accumulator::Histogram { bounds, counts, total: 0, sum: 0 },
    };
    proof {
        assert(counts@ =~= Seq::new(default_bounds().len() + 1, |i: int| 0u64));
        assert(r@ =~~= SeriesModel {
            labels: labels.deep_view(),
            acc: crate::model::zero_acc(MetricKind::Histogram),
        });
    }
    r
}

impl Registry {
    pub open spec fn wf(&self) -> bool {
        wf_registry(self@)
    }

    /// A fresh registry with no families.
    pub fn new() -> (r: Registry)
        ensures
            r@ == Seq::<FamilyModel>::empty(),
            r.wf(),
    {
        let r = Registry { families: Vec::new() };
        proof {
            assert(r@ =~= Seq::<FamilyModel>::empty());
        }
        r
    }

    /// Index of the family with the given name, if any.
    fn find_family(&self, name: &String) -> (r: Option<usize>)
        ensures
            match r {
                Some(i) => i < self@.len() && self@[i as int].name == name@,
                None => !has_family(self@, name@),
            },
    {
        let mut i: usize = 0;
        while i < self.families.len()
            invariant
                i <= self.families.len(),
                forall|k: int| 0 <= k < i ==> self@[k].name != name@,
            decreases self.families.len() - i,
        {
            if (&self.families[i].def.name).eq(name) {
                return Some(i);
            }
            i += 1;
        }
        proof {
            if has_family(self@, name@) {
                let w = choose|k: int| 0 <= k < self@.len() && self@[k].name == name@;
                assert(self@[w].name != name@);
            }
        }
        None
    }

    /// Registers a new family; a second family with the same name is refused
    /// and the registry is left unchanged.
    pub fn register(&mut self, def: FamilyDef) -> (r: Result<(), RegistryError>)
        requires
            old(self).wf(),
            def.wf(),
        ensures
            final(self).wf(),
            ({
                let t = register_tr(old(self)@, def.model());
                match r {
                    Ok(()) => t is Ok && final(self)@ == t->Ok_0,
                    Err(e) => t == Err::<Seq<FamilyModel>, RegistryError>(e) && final(self)@
                        == old(self)@,
                }
            }),
    {
        let ghost m = def.model();
        match self.find_family(&def.name) {
            Some(i) => {
                proof {
                    assert(has_family(self@, def.name@));
                }
                Err(RegistryError::DuplicateName)
            },
            None => {
                self.families.push(Family { def, series: Vec::new() });
                proof {
                    assert(final(self)@ =~~= old(self)@.push(m));
                    lemma_register_tr_wf(old(self)@, m);
                }
                Ok(())
            },
        }
    }

    /// Increments the named counter's series by one, creating the series on
    /// first use. Increments saturate at the largest representable count.
    pub fn counter_inc(&mut self, name: &str, label_values: &Vec<String>) -> (r: Result<
        (),
        RegistryError,
    >)
        requires
            old(self).wf(),
        ensures
            final(self).wf(),
            ({
                let t = counter_inc_tr(old(self)@, name@, label_values.deep_view());
                match r {
                    Ok(()) => t is Ok && final(self)@ == t->Ok_0,
                    Err(e) => t == Err::<Seq<FamilyModel>, RegistryError>(e) && final(self)@
                        == old(self)@,
                }
            }),
    {
        let name_s = name.to_owned();
        let fi = match self.find_family(&name_s) {
            None => {
                return Err(RegistryError::UnknownMetric);
            },
            Some(i) => i,
        };
        proof {
            lemma_family_index_is(self@, name@, fi as int);
        }
        if !(matches!(self.families[fi].def.kind, MetricKind::Counter)) {
            return Err(RegistryError::UnknownMetric);
        }
        if label_values.len() != self.families[fi].def.label_names.len() {
            return Err(RegistryError::LabelArityMismatch);
        }
        match find_series(&self.families[fi].series, label_values) {
            Some(si) => {
                proof {
                    lemma_series_index_is(self@[fi as int], label_values.deep_view(), si as int);
                }
                let oldv = match &self.families[fi].series[si].acc {
                    Accumulator::Counter { value } => *value,
                    _ => {
                        proof {
                            assert(false);
                        }
                        0
                    },
                };
                let nv = sat_add_u64_exec(oldv, 1);
                self.families[fi].series[si].acc = Accumulator::Counter { value: nv };
                proof {
                    assert(self@ =~~= counter_inc_tr(
                        old(self)@,
                        name@,
                        label_values.deep_view(),
                    )->Ok_0);
                    lemma_counter_inc_tr_wf(old(self)@, name@, label_values.deep_view());
                }
            },
            None => {
                let lv = clone_labels(label_values);
                self.families[fi].series.push(
                    Series { label_values: lv, acc: Accumulator::Counter { value: 1 } },
                );
                proof {
                    assert(self@ =~~= counter_inc_tr(
                        old(self)@,
                        name@,
                        label_values.deep_view(),
                    )->Ok_0);
                    lemma_counter_inc_tr_wf(old(self)@, name@, label_values.deep_view());
                }
            },
        }
        Ok(())
    }

    /// Sets the named gauge's series to the given value, creating the series
    /// on first use.
    pub fn gauge_set(&mut self, name: &str, label_values: &Vec<String>, value: i64) -> (r: Result<
        (),
        RegistryError,
    >)
        requires
            old(self).wf(),
        ensures
            final(self).wf(),
            ({
                let t = gauge_set_tr(old(self)@, name@, label_values.deep_view(), value);
                match r {
                    Ok(()) => t is Ok && final(self)@ == t->Ok_0,
                    Err(e) => t == Err::<Seq<FamilyModel>, RegistryError>(e) && final(self)@
                        == old(self)@,
                }
            }),
    {
        let name_s = name.to_owned();
        let fi = match self.find_family(&name_s) {
            None => {
                return Err(RegistryError::UnknownMetric);
            },
            Some(i) => i,
        };
        proof {
            lemma_family_index_is(self@, name@, fi as int);
        }
        if !(matches!(self.families[fi].def.kind, MetricKind::Gauge)) {
            return Err(RegistryError::UnknownMetric);
        }
        if label_values.len() != self.families[fi].def.label_names.len() {
            return Err(RegistryError::LabelArityMismatch);
        }
        match find_series(&self.families[fi].series, label_values) {
            Some(si) => {
                proof {
                    lemma_series_index_is(self@[fi as int], label_values.deep_view(), si as int);
                }
                self.families[fi].series[si].acc = Accumulator::Gauge { value };
                proof {
                    assert(self@ =~~= gauge_set_tr(
                        old(self)@,
                        name@,
                        label_values.deep_view(),
                        value,
                    )->Ok_0);
                    lemma_gauge_set_tr_wf(old(self)@, name@, label_values.deep_view(), value);
                }
            },
            None => {
                let lv = clone_labels(label_values);
                self.families[fi].series.push(
                    Series { label_values: lv, acc: Accumulator::Gauge { value } },
                );
                proof {
                    assert(self@ =~~= gauge_set_tr(
                        old(self)@,
                        name@,
                        label_values.deep_view(),
                        value,
                    )->Ok_0);
                    lemma_gauge_set_tr_wf(old(self)@, name@, label_values.deep_view(), value);
                }
            },
        }
        Ok(())
    }

    /// Adds a signed delta to the named gauge's series, creating the series
    /// on first use. The value pegs at the representable extremes.
    pub fn gauge_inc(&mut self, name: &str, label_values: &Vec<String>, delta: i64) -> (r: Result<
        (),
        RegistryError,
    >)
        requires
            old(self).wf(),
        ensures
            final(self).wf(),
            ({
                let t = gauge_inc_tr(old(self)@, name@, label_values.deep_view(), delta);
                match r {
                    Ok(()) => t is Ok && final(self)@ == t->Ok_0,
                    Err(e) => t == Err::<Seq<FamilyModel>, RegistryError>(e) && final(self)@
                        == old(self)@,
                }
            }),
    {
        let name_s = name.to_owned();
        let fi = match self.find_family(&name_s) {
            None => {
                return Err(RegistryError::UnknownMetric);
            },
            Some(i) => i,
        };
        proof {
            lemma_family_index_is(self@, name@, fi as int);
        }
        if !(matches!(self.families[fi].def.kind, MetricKind::Gauge)) {
            return Err(RegistryError::UnknownMetric);
        }
        if label_values.len() != self.families[fi].def.label_names.len() {
            return Err(RegistryError::LabelArityMismatch);
        }
        match find_series(&self.families[fi].series, label_values) {
            Some(si) => {
                proof {
                    lemma_series_index_is(self@[fi as int], label_values.deep_view(), si as int);
                }
                let oldv = match &self.families[fi].series[si].acc {
                    Accumulator::Gauge { value } => *value,
                    _ => {
                        proof {
                            assert(false);
                        }
                        0
                    },
                };
                let nv = sat_add_i64_exec(oldv, delta);
                self.families[fi].series[si].acc = Accumulator::Gauge { value: nv };
                proof {
                    assert(self@ =~~= gauge_inc_tr(
                        old(self)@,
                        name@,
                        label_values.deep_view(),
                        delta,
                    )->Ok_0);
                    lemma_gauge_inc_tr_wf(old(self)@, name@, label_values.deep_view(), delta);
                }
            },
            None => {
                let lv = clone_labels(label_values);
                let nv = sat_add_i64_exec(0, delta);
                self.families[fi].series.push(
                    Series { label_values: lv, acc: Accumulator::Gauge { value: nv } },
                );
                proof {
                    assert(self@ =~~= gauge_inc_tr(
                        old(self)@,
                        name@,
                        label_values.deep_view(),
                        delta,
                    )->Ok_0);
                    lemma_gauge_inc_tr_wf(old(self)@, name@, label_values.deep_view(), delta);
                }
            },
        }
        Ok(())
    }

    /// Subtracts a signed delta from the named gauge's series, creating the
    /// series on first use. The value pegs at the representable extremes.
    pub fn gauge_dec(&mut self, name: &str, label_values: &Vec<String>, delta: i64) -> (r: Result<
        (),
        RegistryError,
    >)
        requires
            old(self).wf(),
        ensures
            final(self).wf(),
            ({
                let t = gauge_dec_tr(old(self)@, name@, label_values.deep_view(), delta);
                match r {
                    Ok(()) => t is Ok && final(self)@ == t->Ok_0,
                    Err(e) => t == Err::<Seq<FamilyModel>, RegistryError>(e) && final(self)@
                        == old(self)@,
                }
            }),
    {
        let name_s = name.to_owned();
        let fi = match self.find_family(&name_s) {
            None => {
                return Err(RegistryError::UnknownMetric);
            },
            Some(i) => i,
        };
        proof {
            lemma_family_index_is(self@, name@, fi as int);
        }
        if !(matches!(self.families[fi].def.kind, MetricKind::Gauge)) {
            return Err(RegistryError::UnknownMetric);
        }
        if label_values.len() != self.families[fi].def.label_names.len() {
            return Err(RegistryError::LabelArityMismatch);
        }
        match find_series(&self.families[fi].series, label_values) {
            Some(si) => {
                proof {
                    lemma_series_index_is(self@[fi as int], label_values.deep_view(), si as int);
                }
                let oldv = match &self.families[fi].series[si].acc {
                    Accumulator::Gauge { value } => *value,
                    _ => {
                        proof {
                            assert(false);
                        }
                        0
                    },
                };
                let nv = sat_sub_i64_exec(oldv, delta);
                self.families[fi].series[si].acc = Accumulator::Gauge { value: nv };
                proof {
                    assert(self@ =~~= gauge_dec_tr(
                        old(self)@,
                        name@,
                        label_values.deep_view(),
                        delta,
                    )->Ok_0);
                    lemma_gauge_dec_tr_wf(old(self)@, name@, label_values.deep_view(), delta);
                }
            },
            None => {
                let lv = clone_labels(label_values);
                let nv = sat_sub_i64_exec(0, delta);
                self.families[fi].series.push(
                    Series { label_values: lv, acc: Accumulator::Gauge { value: nv } },
                );
                proof {
                    assert(self@ =~~= gauge_dec_tr(
                        old(self)@,
                        name@,
                        label_values.deep_view(),
                        delta,
                    )->Ok_0);
                    lemma_gauge_dec_tr_wf(old(self)@, name@, label_values.deep_view(), delta);
                }
            },
        }
        Ok(())
    }

    /// Records one observation, in thousandths of a unit, into the named
    /// histogram's series: every cumulative bucket from the first bound
    /// reaching the value on is incremented, as are the total count and the
    /// running sum. Creates the series on first use.
    pub fn histogram_observe(&mut self, name: &str, label_values: &Vec<String>, value: u64) -> (r:
        Result<(), RegistryError>)
        requires
            old(self).wf(),
        ensures
            final(self).wf(),
            ({
                let t = observe_tr(old(self)@, name@, label_values.deep_view(), value);
                match r {
                    Ok(()) => t is Ok && final(self)@ == t->Ok_0,
                    Err(e) => t == Err::<Seq<FamilyModel>, RegistryError>(e) && final(self)@
                        == old(self)@,
                }
            }),
    {
        let name_s = name.to_owned();
        let fi = match self.find_family(&name_s) {
            None => {
                return Err(RegistryError::UnknownMetric);
            },
            Some(i) => i,
        };
        proof {
            lemma_family_index_is(self@, name@, fi as int);
        }
        if !(matches!(self.families[fi].def.kind, MetricKind::Histogram)) {
            return Err(RegistryError::UnknownMetric);
        }
        if label_values.len() != self.families[fi].def.label_names.len() {
            return Err(RegistryError::LabelArityMismatch);
        }
        match find_series(&self.families[fi].series, label_values) {
            Some(si) => {
                proof {
                    lemma_series_index_is(self@[fi as int], label_values.deep_view(), si as int);
                }
                let (nb, nc, nt, ns) = match &self.families[fi].series[si].acc {
                    Accumulator::Histogram { bounds, counts, total, sum } => {
                        let rank = first_bucket_at_least(bounds, value);
                        let mut nc: Vec<u64> = Vec::new();
                        let mut k: usize = 0;
                        while k < counts.len()
                            invariant
                                k <= counts.len(),
                                nc.len() == k,
                                rank as int == bucket_rank(bounds@, value),
                                forall|j: int|
                                    0 <= j < k ==> nc@[j] == (if j >= bucket_rank(bounds@, value) {
                                        sat_add_u64(counts@[j], 1)
                                    } else {
                                        counts@[j]
                                    }),
                            decreases counts.len() - k,
                        {
                            let c = counts[k];
                            if k >= rank {
                                nc.push(sat_add_u64_exec(c, 1));
                            } else {
                                nc.push(c);
                            }
                            k += 1;
                        }
                        let nb = clone_u64s(bounds);
                        let nt = sat_add_u64_exec(*total, 1);
                        let ns = sat_add_u64_exec(*sum, value);
                        (nb, nc, nt, ns)
                    },
                    _ => {
                        proof {
                            assert(false);
                        }
                        (Vec::new(), Vec::new(), 0u64, 0u64)
                    },
                };
                self.families[fi].series[si].acc = Accumulator::Histogram {
                    bounds: nb,
                    counts: nc,
                    total: nt,
                    sum: ns,
                };
                proof {
                    assert(self@ =~~= observe_tr(
                        old(self)@,
                        name@,
                        label_values.deep_view(),
                        value,
                    )->Ok_0);
                    lemma_observe_tr_wf(old(self)@, name@, label_values.deep_view(), value);
                }
            },
            None => {
                let bounds = default_bounds_vec();
                let rank = first_bucket_at_least(&bounds, value);
                let n = bounds.len();
                proof {
                    assert(n == default_bounds().len());
                    assert(default_bounds().len() == 11);
                }
                let mut counts: Vec<u64> = Vec::new();
                let mut k: usize = 0;
                while k <= n
                    invariant
                        n == 11,
                        k <= n + 1,
                        counts.len() == k,
                        rank as int == bucket_rank(default_bounds(), value),
                        forall|j: int|
                            0 <= j < k ==> counts@[j] == (if j >= bucket_rank(
                                default_bounds(),
                                value,
                            ) {
                                1u64
                            } else {
                                0u64
                            }),
                    decreases n + 1 - k,
                {
                    if k >= rank {
                        counts.push(1);
                    } else {
                        counts.push(0);
                    }
                    k += 1;
                }
                let lv = clone_labels(label_values);
                self.families[fi].series.push(
                    Series {
                        label_values: lv,
                        acc: Accumulator::Histogram { bounds, counts, total: 1, sum: value },
                    },
                );
                proof {
                    assert(self@ =~~= observe_tr(
                        old(self)@,
                        name@,
                        label_values.deep_view(),
                        value,
                    )->Ok_0);
                    lemma_observe_tr_wf(old(self)@, name@, label_values.deep_view(), value);
                }
            },
        }
        Ok(())
    }

    /// Reads one counter series: its value when the name is a registered
    /// counter family — zero for a series never incremented — and nothing
    /// otherwise.
    pub fn counter_value(&self, name: &str, label_values: &Vec<String>) -> (r: Option<u64>)
        requires
            self.wf(),
        ensures
            r == crate::model::spec_counter_value(self@, name@, label_values.deep_view()),
    {
        let name_s = name.to_owned();
        let fi = match self.find_family(&name_s) {
            None => {
                return None;
            },
            Some(i) => i,
        };
        proof {
            lemma_family_index_is(self@, name@, fi as int);
        }
        if !(matches!(self.families[fi].def.kind, MetricKind::Counter)) {
            return None;
        }
        match find_series(&self.families[fi].series, label_values) {
            Some(si) => {
                proof {
                    lemma_series_index_is(self@[fi as int], label_values.deep_view(), si as int);
                }
                match &self.families[fi].series[si].acc {
                    Accumulator::Counter { value } => Some(*value),
                    _ => {
                        proof {
                            assert(false);
                        }
                        None
                    },
                }
            },
            None => Some(0),
        }
    }

    /// Reads one gauge series: its value when the name is a registered gauge
    /// family — zero for a series never touched — and nothing otherwise.
    pub fn gauge_value(&self, name: &str, label_values: &Vec<String>) -> (r: Option<i64>)
        requires
            self.wf(),
        ensures
            r == crate::model::spec_gauge_value(self@, name@, label_values.deep_view()),
    {
        let name_s = name.to_owned();
        let fi = match self.find_family(&name_s) {
            None => {
                return None;
            },
            Some(i) => i,
        };
        proof {
            lemma_family_index_is(self@, name@, fi as int);
        }
        if !(matches!(self.families[fi].def.kind, MetricKind::Gauge)) {
            return None;
        }
        match find_series(&self.families[fi].series, label_values) {
            Some(si) => {
                proof {
                    lemma_series_index_is(self@[fi as int], label_values.deep_view(), si as int);
                }
                match &self.families[fi].series[si].acc {
                    Accumulator::Gauge { value } => Some(*value),
                    _ => {
                        proof {
                            assert(false);
                        }
                        None
                    },
                }
            },
            None => Some(0),
        }
    }

    /// Reads one histogram series: its bucket bounds, cumulative counts,
    /// total count and running sum, when the name is a registered histogram
    /// family — a fresh accumulator for a series never observed — and nothing
    /// otherwise.
    pub fn histogram_state(&self, name: &str, label_values: &Vec<String>) -> (r: Option<
        (Vec<u64>, Vec<u64>, u64, u64),
    >)
        requires
            self.wf(),
        ensures
            match r {
                Some(q) => crate::model::spec_histogram_state(self@, name@, label_values.deep_view())
                    == Some(AccModel::Histogram {
                    bounds: q.0@,
                    counts: q.1@,
                    total: q.2,
                    sum: q.3,
                }),
                None => crate::model::spec_histogram_state(self@, name@, label_values.deep_view())
                    is None,
            },
    {
        let name_s = name.to_owned();
        let fi = match self.find_family(&name_s) {
            None => {
                return None;
            },
            Some(i) => i,
        };
        proof {
            lemma_family_index_is(self@, name@, fi as int);
        }
        if !(matches!(self.families[fi].def.kind, MetricKind::Histogram)) {
            return None;
        }
        match find_series(&self.families[fi].series, label_values) {
            Some(si) => {
                proof {
                    lemma_series_index_is(self@[fi as int], label_values.deep_view(), si as int);
                }
                match &self.families[fi].series[si].acc {
                    Accumulator::Histogram { bounds, counts, total, sum } => Some(
                        (clone_u64s(bounds), clone_u64s(counts), *total, *sum),
                    ),
                    _ => {
                        proof {
                            assert(false);
                        }
                        None
                    },
                }
            },
            None => {
                let z = zero_histogram_series(&Vec::new());
                match z.acc {
                    Accumulator::Histogram { bounds, counts, total, sum } => Some(
                        (bounds, counts, total, sum),
                    ),
                    _ => {
                        proof {
                            assert(false);
                        }
                        None
                    },
                }
            },
        }
    }

    /// A deep, point-in-time copy of every family and series, safe to encode
    /// while producers keep mutating the live registry.
    pub fn gather(&self) -> (snap: Snapshot)
        requires
            self.wf(),
        ensures
            snap@ == self@,
            snap.wf(),
    {
        let mut fams: Vec<Family> = Vec::new();
        let mut i: usize = 0;
        while i < self.families.len()
            invariant
                i <= self.families.len(),
                fams.len() == i,
                forall|k: int| 0 <= k < i ==> fams@[k]@ == self@[k],
            decreases self.families.len() - i,
        {
            fams.push(clone_family(&self.families[i]));
            i += 1;
        }
        let snap = Snapshot { families: fams };
        proof {
            assert(snap@ =~= self@);
        }
        snap
    }
}

/// Deep copy of one series.
fn clone_series(s: &Series) -> (r: Series)
    ensures
        r@ == s@,
{
    let acc = match &s.acc {
        Accumulator::Counter { value } => Accumulator::Counter { value: *value },
        Accumulator::Gauge { value } => Accumulator::Gauge { value: *value },
        Accumulator::Histogram { bounds, counts, total, sum } => Accumulator::Histogram {
            bounds: clone_u64s(bounds),
            counts: clone_u64s(counts),
            total: *total,
            sum: *sum,
        },
    };
    let r = Series { label_values: clone_labels(&s.label_values), acc };
    proof {
        assert(r@ =~~= s@);
    }
    r
}

/// Deep copy of one family.
fn clone_family(f: &Family) -> (r: Family)
    ensures
        r@ == f@,
{
    let def = FamilyDef {
        name: f.def.name.clone(),
        help: f.def.help.clone(),
        kind: f.def.kind,
        label_names: clone_labels(&f.def.label_names),
    };
    let mut series: Vec<Series> = Vec::new();
    let mut i: usize = 0;
    while i < f.series.len()
        invariant
            i <= f.series.len(),
            series.len() == i,
            forall|k: int| 0 <= k < i ==> series@[k]@ == f.series@[k]@,
        decreases f.series.len() - i,
    {
        series.push(clone_series(&f.series[i]));
        i += 1;
    }
    let r = Family { def, series };
    proof {
        assert(r@ =~~= f@);
    }
    r
}

/// Saturating signed addition used by the gauges.
fn sat_add_i64_exec(a: i64, d: i64) -> (r: i64)
    ensures
        r == sat_add_i64(a, d),
{
    if d >= 0 {
        if a <= i64::MAX - d {
            a + d
        } else {
            i64::MAX
        }
    } else {
        if a >= i64::MIN - d {
            a + d
        } else {
            i64::MIN
        }
    }
}

/// Saturating signed subtraction used by the gauges.
fn sat_sub_i64_exec(a: i64, d: i64) -> (r: i64)
    ensures
        r == sat_sub_i64(a, d),
{
    if d >= 0 {
        if a >= i64::MIN + d {
            a - d
        } else {
            i64::MIN
        }
    } else {
        if a <= i64::MAX + d {
            a - d
        } else {
            i64::MAX
        }
    }
}

/// Saturating increment used by the accumulators.
fn sat_add_u64_exec(a: u64, b: u64) -> (r: u64)
    ensures
        r == sat_add_u64(a, b),
{
    if a <= u64::MAX - b {
        a + b
    } else {
        u64::MAX
    }
}

/// Index of the series with the given labels in a family, if any.
fn find_series(ss: &Vec<Series>, labels: &Vec<String>) -> (r: Option<usize>)
    ensures
        match r {
            Some(i) => i < ss.len() && series_view(ss@)[i as int].labels == labels.deep_view(),
            None => !has_series(series_view(ss@), labels.deep_view()),
        },
{
    let mut i: usize = 0;
    while i < ss.len()
        invariant
            i <= ss.len(),
            forall|k: int| 0 <= k < i ==> series_view(ss@)[k].labels != labels.deep_view(),
        decreases ss.len() - i,
    {
        if labels_match(&ss[i].label_values, labels) {
            return Some(i);
        }
        i += 1;
    }
    proof {
        if has_series(series_view(ss@), labels.deep_view()) {
            let w = choose|k: int|
                0 <= k < ss@.len() && series_view(ss@)[k].labels == labels.deep_view();
            assert(series_view(ss@)[w].labels != labels.deep_view());
        }
    }
    None
}

} // verus!
