use metrics_engine::model::RegistryError;
use metrics_engine::registry::Registry;
use metrics_engine::simulator::status_class;

#[test]
fn status_classes_cover_the_valid_range() {
    assert_eq!(status_class(99), None);
    assert_eq!(status_class(100), Some("100"));
    assert_eq!(status_class(199), Some("100"));
    assert_eq!(status_class(200), Some("200"));
    assert_eq!(status_class(301), Some("300"));
    assert_eq!(status_class(404), Some("400"));
    assert_eq!(status_class(500), Some("500"));
    assert_eq!(status_class(599), Some("500"));
    assert_eq!(status_class(600), None);
}

#[test]
fn default_metrics_register_once() {
    let mut reg = Registry::new();
    assert!(reg.register_default_metrics().is_ok());
    assert_eq!(
        reg.register_default_metrics(),
        Err(RegistryError::DuplicateName)
    );
    let text = reg.render();
    assert!(text.contains("# TYPE incoming_requests counter"));
    assert!(text.contains("# TYPE connected_clients gauge"));
    assert!(text.contains("# TYPE response_code counter"));
    assert!(text.contains("# TYPE response_time histogram"));
}

#[test]
fn record_status_counts_by_environment_code_and_class() {
    let mut reg = Registry::new();
    reg.register_default_metrics().unwrap();
    reg.record_status("production", 404).unwrap();
    reg.record_status("production", 404).unwrap();
    reg.record_status("testing", 200).unwrap();
    let labels_404 = vec![
        "production".to_string(),
        "404".to_string(),
        "400".to_string(),
    ];
    let labels_200 = vec!["testing".to_string(), "200".to_string(), "200".to_string()];
    assert_eq!(reg.counter_value("response_code", &labels_404), Some(2));
    assert_eq!(reg.counter_value("response_code", &labels_200), Some(1));
    let text = reg.render();
    assert!(text.contains("response_code{env=\"production\",statuscode=\"404\",type=\"400\"} 2\n"));
}

#[test]
fn out_of_range_codes_are_dropped_silently() {
    let mut reg = Registry::new();
    reg.register_default_metrics().unwrap();
    let before = reg.render();
    assert!(reg.record_status("production", 99).is_ok());
    assert!(reg.record_status("production", 600).is_ok());
    assert_eq!(reg.render(), before);
}

#[test]
fn record_status_without_registration_surfaces_the_error() {
    let mut reg = Registry::new();
    assert_eq!(
        reg.record_status("production", 200),
        Err(RegistryError::UnknownMetric)
    );
}

#[test]
fn one_tick_updates_counter_and_histogram() {
    let mut reg = Registry::new();
    reg.register_default_metrics().unwrap();
    reg.simulate_tick("production", 503, 1500).unwrap();
    let labels = vec![
        "production".to_string(),
        "503".to_string(),
        "500".to_string(),
    ];
    assert_eq!(reg.counter_value("response_code", &labels), Some(1));
    let (_, _, total, sum) = reg
        .histogram_state("response_time", &vec!["production".to_string()])
        .unwrap();
    assert_eq!(total, 1);
    assert_eq!(sum, 1500);
}
