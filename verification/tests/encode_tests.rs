use metrics_engine::model::MetricKind;
use metrics_engine::registry::{FamilyDef, Registry};

fn def(name: &str, help: &str, kind: MetricKind, labels: &[&str]) -> FamilyDef {
    FamilyDef {
        name: name.to_string(),
        help: help.to_string(),
        kind,
        label_names: labels.iter().map(|s| s.to_string()).collect(),
    }
}

#[test]
fn counter_series_lines_carry_exact_values() {
    let mut reg = Registry::new();
    reg.register(def("requests_total", "Requests", MetricKind::Counter, &["env"]))
        .unwrap();
    let prod = vec!["production".to_string()];
    let test = vec!["testing".to_string()];
    reg.counter_inc("requests_total", &prod).unwrap();
    reg.counter_inc("requests_total", &prod).unwrap();
    reg.counter_inc("requests_total", &prod).unwrap();
    reg.counter_inc("requests_total", &test).unwrap();
    let text = reg.render();
    assert!(text.contains("requests_total{env=\"production\"} 3\n"));
    assert!(text.contains("requests_total{env=\"testing\"} 1\n"));
}

#[test]
fn help_and_type_comments_come_first() {
    let mut reg = Registry::new();
    reg.register(def("requests_total", "Total requests", MetricKind::Counter, &[]))
        .unwrap();
    let text = reg.render();
    assert!(text.starts_with("# HELP requests_total Total requests\n# TYPE requests_total counter\n"));
}

#[test]
fn unlabeled_series_render_without_braces() {
    let mut reg = Registry::new();
    reg.register(def("incoming_requests", "Incoming", MetricKind::Counter, &[]))
        .unwrap();
    for _ in 0..5 {
        reg.counter_inc("incoming_requests", &Vec::new()).unwrap();
    }
    assert!(reg.render().contains("\nincoming_requests 5\n"));
}

#[test]
fn negative_gauges_render_signed() {
    let mut reg = Registry::new();
    reg.register(def("connected_clients", "Clients", MetricKind::Gauge, &[]))
        .unwrap();
    reg.gauge_dec("connected_clients", &Vec::new(), 2).unwrap();
    assert!(reg.render().contains("\nconnected_clients -2\n"));
}

#[test]
fn histogram_renders_buckets_sum_and_count() {
    let mut reg = Registry::new();
    reg.register(def("response_time", "Times", MetricKind::Histogram, &["env"]))
        .unwrap();
    let prod = vec!["production".to_string()];
    reg.histogram_observe("response_time", &prod, 500).unwrap();
    reg.histogram_observe("response_time", &prod, 2000).unwrap();
    reg.histogram_observe("response_time", &prod, 7000).unwrap();
    let text = reg.render();
    assert!(text.contains("response_time_bucket{env=\"production\",le=\"1.0\"} 1\n"));
    assert!(text.contains("response_time_bucket{env=\"production\",le=\"5.0\"} 2\n"));
    assert!(text.contains("response_time_bucket{env=\"production\",le=\"+Inf\"} 3\n"));
    assert!(text.contains("response_time_sum{env=\"production\"} 9.5\n"));
    assert!(text.contains("response_time_count{env=\"production\"} 3\n"));
}

#[test]
fn bucket_bounds_render_canonically() {
    let mut reg = Registry::new();
    reg.register(def("response_time", "Times", MetricKind::Histogram, &[]))
        .unwrap();
    reg.histogram_observe("response_time", &Vec::new(), 1).unwrap();
    let text = reg.render();
    assert!(text.contains("le=\"0.005\""));
    assert!(text.contains("le=\"0.25\""));
    assert!(text.contains("le=\"2.5\""));
    assert!(text.contains("le=\"10.0\""));
}

#[test]
fn fractional_sums_trim_trailing_zeros() {
    let mut reg = Registry::new();
    reg.register(def("response_time", "Times", MetricKind::Histogram, &[]))
        .unwrap();
    reg.histogram_observe("response_time", &Vec::new(), 2500).unwrap();
    assert!(reg.render().contains("response_time_sum 2.5\n"));
    let mut reg2 = Registry::new();
    reg2.register(def("response_time", "Times", MetricKind::Histogram, &[]))
        .unwrap();
    reg2.histogram_observe("response_time", &Vec::new(), 3000).unwrap();
    assert!(reg2.render().contains("response_time_sum 3\n"));
}

#[test]
fn label_values_are_escaped() {
    let mut reg = Registry::new();
    reg.register(def("hits", "Hits", MetricKind::Counter, &["path"]))
        .unwrap();
    let odd = vec!["a\"b\\c\nd".to_string()];
    reg.counter_inc("hits", &odd).unwrap();
    assert!(reg.render().contains("hits{path=\"a\\\"b\\\\c\\nd\"} 1\n"));
}

#[test]
fn help_text_is_escaped() {
    let mut reg = Registry::new();
    reg.register(def("hits", "line one\nline two", MetricKind::Counter, &[]))
        .unwrap();
    assert!(reg.render().contains("# HELP hits line one\\nline two\n"));
}

#[test]
fn families_render_in_registration_order() {
    let mut reg = Registry::new();
    reg.register(def("bbb", "b", MetricKind::Counter, &[])).unwrap();
    reg.register(def("aaa", "a", MetricKind::Counter, &[])).unwrap();
    let text = reg.render();
    let b = text.find("# HELP bbb").unwrap();
    let a = text.find("# HELP aaa").unwrap();
    assert!(b < a);
}

#[test]
fn encoding_is_deterministic_and_pure() {
    let mut reg = Registry::new();
    reg.register(def("hits", "Hits", MetricKind::Counter, &[])).unwrap();
    reg.counter_inc("hits", &Vec::new()).unwrap();
    let one = reg.render();
    let two = reg.render();
    assert_eq!(one, two);
}
