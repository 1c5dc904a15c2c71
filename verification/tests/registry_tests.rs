use metrics_engine::model::{MetricKind, RegistryError};
use metrics_engine::registry::{FamilyDef, Registry};

fn counter_def(name: &str, labels: &[&str]) -> FamilyDef {
    FamilyDef {
        name: name.to_string(),
        help: format!("{} help", name),
        kind: MetricKind::Counter,
        label_names: labels.iter().map(|s| s.to_string()).collect(),
    }
}

fn gauge_def(name: &str) -> FamilyDef {
    FamilyDef {
        name: name.to_string(),
        help: format!("{} help", name),
        kind: MetricKind::Gauge,
        label_names: Vec::new(),
    }
}

fn histogram_def(name: &str, labels: &[&str]) -> FamilyDef {
    FamilyDef {
        name: name.to_string(),
        help: format!("{} help", name),
        kind: MetricKind::Histogram,
        label_names: labels.iter().map(|s| s.to_string()).collect(),
    }
}

#[test]
fn register_then_duplicate_fails_and_state_is_unchanged() {
    let mut reg = Registry::new();
    assert!(reg.register(counter_def("requests_total", &["env"])).is_ok());
    let before = reg.render();
    let again = reg.register(gauge_def("requests_total"));
    assert_eq!(again, Err(RegistryError::DuplicateName));
    assert_eq!(reg.render(), before);
}

#[test]
fn counter_inc_on_unregistered_name_is_unknown_metric() {
    let mut reg = Registry::new();
    let r = reg.counter_inc("nope", &Vec::new());
    assert_eq!(r, Err(RegistryError::UnknownMetric));
}

#[test]
fn counter_inc_on_gauge_family_is_unknown_metric() {
    let mut reg = Registry::new();
    reg.register(gauge_def("temperature")).unwrap();
    let r = reg.counter_inc("temperature", &Vec::new());
    assert_eq!(r, Err(RegistryError::UnknownMetric));
}

#[test]
fn counter_inc_with_wrong_arity_is_label_arity_mismatch() {
    let mut reg = Registry::new();
    reg.register(counter_def("requests_total", &["env"])).unwrap();
    let r = reg.counter_inc("requests_total", &Vec::new());
    assert_eq!(r, Err(RegistryError::LabelArityMismatch));
    let r = reg.counter_inc(
        "requests_total",
        &vec!["a".to_string(), "b".to_string()],
    );
    assert_eq!(r, Err(RegistryError::LabelArityMismatch));
}

#[test]
fn repeated_counter_incs_count_exactly() {
    let mut reg = Registry::new();
    reg.register(counter_def("requests_total", &["env"])).unwrap();
    let prod = vec!["production".to_string()];
    let test = vec!["testing".to_string()];
    for _ in 0..3 {
        reg.counter_inc("requests_total", &prod).unwrap();
    }
    reg.counter_inc("requests_total", &test).unwrap();
    assert_eq!(reg.counter_value("requests_total", &prod), Some(3));
    assert_eq!(reg.counter_value("requests_total", &test), Some(1));
    assert_eq!(
        reg.counter_value("requests_total", &vec!["staging".to_string()]),
        Some(0)
    );
    assert_eq!(reg.counter_value("absent", &prod), None);
}

#[test]
fn gauge_set_inc_dec() {
    let mut reg = Registry::new();
    reg.register(gauge_def("temperature")).unwrap();
    let no_labels: Vec<String> = Vec::new();
    reg.gauge_set("temperature", &no_labels, 5).unwrap();
    assert_eq!(reg.gauge_value("temperature", &no_labels), Some(5));
    reg.gauge_inc("temperature", &no_labels, 2).unwrap();
    assert_eq!(reg.gauge_value("temperature", &no_labels), Some(7));
    reg.gauge_dec("temperature", &no_labels, 10).unwrap();
    assert_eq!(reg.gauge_value("temperature", &no_labels), Some(-3));
}

#[test]
fn gauge_pegs_at_the_extremes() {
    let mut reg = Registry::new();
    reg.register(gauge_def("g")).unwrap();
    let no_labels: Vec<String> = Vec::new();
    reg.gauge_set("g", &no_labels, i64::MAX).unwrap();
    reg.gauge_inc("g", &no_labels, 1).unwrap();
    assert_eq!(reg.gauge_value("g", &no_labels), Some(i64::MAX));
    reg.gauge_set("g", &no_labels, i64::MIN).unwrap();
    reg.gauge_dec("g", &no_labels, 1).unwrap();
    assert_eq!(reg.gauge_value("g", &no_labels), Some(i64::MIN));
}

#[test]
fn histogram_observe_fills_cumulative_buckets() {
    let mut reg = Registry::new();
    reg.register(histogram_def("response_time", &["env"])).unwrap();
    let prod = vec!["production".to_string()];
    // 0.5, 2.0 and 7.0 units, counted in thousandths.
    reg.histogram_observe("response_time", &prod, 500).unwrap();
    reg.histogram_observe("response_time", &prod, 2000).unwrap();
    reg.histogram_observe("response_time", &prod, 7000).unwrap();
    let (bounds, counts, total, sum) = reg.histogram_state("response_time", &prod).unwrap();
    assert_eq!(
        bounds,
        vec![5, 10, 25, 50, 100, 250, 500, 1000, 2500, 5000, 10000]
    );
    assert_eq!(counts.len(), bounds.len() + 1);
    // le = 1.0 holds one observation, le = 5.0 two, +Inf all three.
    assert_eq!(counts[7], 1);
    assert_eq!(counts[9], 2);
    assert_eq!(counts[11], 3);
    assert_eq!(total, 3);
    assert_eq!(sum, 9500);
    // Cumulative: counts never decrease, the last equals the total.
    for i in 1..counts.len() {
        assert!(counts[i - 1] <= counts[i]);
    }
    assert_eq!(*counts.last().unwrap(), total);
}

#[test]
fn histogram_state_of_untouched_series_is_fresh() {
    let mut reg = Registry::new();
    reg.register(histogram_def("response_time", &["env"])).unwrap();
    let (bounds, counts, total, sum) = reg
        .histogram_state("response_time", &vec!["staging".to_string()])
        .unwrap();
    assert_eq!(bounds.len() + 1, counts.len());
    assert!(counts.iter().all(|&c| c == 0));
    assert_eq!((total, sum), (0, 0));
}

#[test]
fn snapshot_is_unaffected_by_later_writes() {
    let mut reg = Registry::new();
    reg.register(counter_def("hits", &[])).unwrap();
    reg.counter_inc("hits", &Vec::new()).unwrap();
    let snap = reg.gather();
    let text_before = metrics_engine::encode::encode(&snap);
    reg.counter_inc("hits", &Vec::new()).unwrap();
    assert_eq!(metrics_engine::encode::encode(&snap), text_before);
    assert_ne!(reg.render(), text_before);
}
