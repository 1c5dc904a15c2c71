//! Laws of the registry, proved on the model: counter runs lose no update,
//! histogram bucket counts stay cumulative, and a name registers only once.

use vstd::prelude::*;

use crate::model::{
    counter_inc_tr, counter_of, counter_value_of, family_index, has_family, has_series,
    lemma_counter_inc_tr_wf, lemma_family_index_is, lemma_series_index_is, register_tr,
    sat_add_u64, series_index, wf_registry, FamilyModel, RegistryError,
};

verus! {

/// One `counter_inc` on an addressable counter series succeeds, raises that
/// series' value by one, and changes nothing a later increment depends on.
pub proof fn lemma_counter_inc_effect(fams: Seq<FamilyModel>, name: Seq<char>, labels: Seq<
    Seq<char>,
>)
    requires
        wf_registry(fams),
        has_family(fams, name),
        fams[family_index(fams, name)].kind is Counter,
        labels.len() == fams[family_index(fams, name)].label_names.len(),
    ensures
        counter_inc_tr(fams, name, labels) is Ok,
        ({
            let out = counter_inc_tr(fams, name, labels)->Ok_0;
            &&& wf_registry(out)
            &&& has_family(out, name)
            &&& family_index(out, name) == family_index(fams, name)
            &&& out[family_index(out, name)].kind is Counter
            &&& out[family_index(out, name)].label_names == fams[family_index(
                fams,
                name,
            )].label_names
            &&& counter_value_of(out, name, labels) == sat_add_u64(
                counter_value_of(fams, name, labels),
                1,
            )
        }),
{
    let fi = family_index(fams, name);
    let f = fams[fi];
    let out = counter_inc_tr(fams, name, labels)->Ok_0;
    lemma_counter_inc_tr_wf(fams, name, labels);
    assert(out[fi].name == name);
    lemma_family_index_is(out, name, fi);
    let nf = out[fi];
    if has_series(f.series, labels) {
        let si = series_index(f.series, labels);
        lemma_series_index_is(f, labels, si);
        assert(nf.series[si].labels == labels);
        lemma_series_index_is(nf, labels, si);
        assert(counter_of(nf.series[si].acc) == sat_add_u64(counter_of(f.series[si].acc), 1));
    } else {
        let si = nf.series.len() - 1;
        assert(nf.series[si].labels == labels);
        lemma_series_index_is(nf, labels, si);
        assert(counter_of(nf.series[si].acc) == 1);
        assert(counter_value_of(fams, name, labels) == 0);
    }
}

/// The registry after `n` increments of one counter series; a failing step
/// leaves the registry as it was, as `counter_inc` does.
pub open spec fn repeat_counter_inc(
    fams: Seq<FamilyModel>,
    name: Seq<char>,
    labels: Seq<Seq<char>>,
    n: nat,
) -> Seq<FamilyModel>
    decreases n,
{
    if n == 0 {
        fams
    } else {
        let prev = repeat_counter_inc(fams, name, labels, (n - 1) as nat);
        match counter_inc_tr(prev, name, labels) {
            Ok(m) => m,
            Err(_) => prev,
        }
    }
}

/// Law: no update is lost — a run of `n` `counter_inc` calls on one
/// addressable counter series raises its value by exactly `n`, as long as
/// the count stays representable.
pub proof fn lemma_counter_inc_run(
    fams: Seq<FamilyModel>,
    name: Seq<char>,
    labels: Seq<Seq<char>>,
    n: nat,
)
    requires
        wf_registry(fams),
        has_family(fams, name),
        fams[family_index(fams, name)].kind is Counter,
        labels.len() == fams[family_index(fams, name)].label_names.len(),
        counter_value_of(fams, name, labels) + n <= u64::MAX,
    ensures
        ({
            let out = repeat_counter_inc(fams, name, labels, n);
            &&& wf_registry(out)
            &&& has_family(out, name)
            &&& family_index(out, name) == family_index(fams, name)
            &&& out[family_index(out, name)].kind is Counter
            &&& out[family_index(out, name)].label_names == fams[family_index(
                fams,
                name,
            )].label_names
            &&& counter_value_of(out, name, labels) == counter_value_of(fams, name, labels) + n
        }),
    decreases n,
{
    if n > 0 {
        lemma_counter_inc_run(fams, name, labels, (n - 1) as nat);
        let prev = repeat_counter_inc(fams, name, labels, (n - 1) as nat);
        lemma_counter_inc_effect(prev, name, labels);
    }
}

/// Law: in every well-formed registry — `new` establishes well-formedness
/// and every operation preserves it — a histogram's cumulative bucket counts
/// never decrease across bucket indices, and the unbounded last bucket equals
/// the total observation count.
pub proof fn lemma_histogram_counts_cumulative(fams: Seq<FamilyModel>, fi: int, si: int)
    requires
        wf_registry(fams),
        0 <= fi < fams.len(),
        0 <= si < fams[fi].series.len(),
        fams[fi].series[si].acc is Histogram,
    ensures
        ({
            let counts = fams[fi].series[si].acc->Histogram_counts;
            &&& counts.len() > 0
            &&& (forall|i: int, j: int| 0 <= i <= j < counts.len() ==> counts[i] <= counts[j])
            &&& counts[counts.len() - 1] == fams[fi].series[si].acc->Histogram_total
        }),
{
    assert(crate::model::wf_family(fams[fi]));
    assert(crate::model::wf_acc(fams[fi].series[si].acc));
}

/// Law: a family name registers only once — after a successful `register`,
/// registering any family under the same name fails with `DuplicateName`.
/// That the failing call leaves the registry unchanged is the `Err` case of
/// `register`'s own contract.
pub proof fn lemma_register_duplicate(fams: Seq<FamilyModel>, f: FamilyModel, g: FamilyModel)
    requires
        register_tr(fams, f) is Ok,
        g.name == f.name,
    ensures
        register_tr(register_tr(fams, f)->Ok_0, g) == Err::<Seq<FamilyModel>, RegistryError>(
            RegistryError::DuplicateName,
        ),
{
    let out = register_tr(fams, f)->Ok_0;
    assert(out[out.len() - 1].name == g.name);
    assert(has_family(out, g.name));
}

} // verus!
