use metrics_engine::registry::Registry;
use metrics_engine::tracker::{apply_gauge_action, conn_step, ConnEvent, ConnState, GaugeAction};

#[test]
fn connection_lifecycle_moves_the_gauge_exactly_once_each_way() {
    let mut reg = Registry::new();
    reg.register_default_metrics().unwrap();
    let no_labels: Vec<String> = Vec::new();

    let mut state = ConnState::Connecting;
    let (next, action) = conn_step(state, ConnEvent::Opened);
    state = next;
    assert_eq!(state, ConnState::Open);
    assert_eq!(action, GaugeAction::Increment);
    apply_gauge_action(&mut reg, action).unwrap();
    assert_eq!(reg.gauge_value("connected_clients", &no_labels), Some(1));

    for _ in 0..2 {
        let (next, action) = conn_step(state, ConnEvent::Message);
        state = next;
        assert_eq!(state, ConnState::Open);
        assert_eq!(action, GaugeAction::Hold);
        apply_gauge_action(&mut reg, action).unwrap();
        assert_eq!(reg.gauge_value("connected_clients", &no_labels), Some(1));
    }

    let (next, action) = conn_step(state, ConnEvent::StreamEnded);
    state = next;
    assert_eq!(state, ConnState::Closed);
    assert_eq!(action, GaugeAction::Decrement);
    apply_gauge_action(&mut reg, action).unwrap();
    assert_eq!(reg.gauge_value("connected_clients", &no_labels), Some(0));
}

#[test]
fn closed_connections_ignore_every_event() {
    for e in [ConnEvent::Opened, ConnEvent::Message, ConnEvent::StreamEnded] {
        let (next, action) = conn_step(ConnState::Closed, e);
        assert_eq!(next, ConnState::Closed);
        assert_eq!(action, GaugeAction::Hold);
    }
}

#[test]
fn a_connection_that_never_opened_never_decrements() {
    let (next, action) = conn_step(ConnState::Connecting, ConnEvent::StreamEnded);
    assert_eq!(next, ConnState::Closed);
    assert_eq!(action, GaugeAction::Hold);
}

#[test]
fn reopening_an_open_connection_does_not_double_count() {
    let (next, action) = conn_step(ConnState::Open, ConnEvent::Opened);
    assert_eq!(next, ConnState::Open);
    assert_eq!(action, GaugeAction::Hold);
}

#[test]
fn two_connections_overlap_correctly() {
    let mut reg = Registry::new();
    reg.register_default_metrics().unwrap();
    let no_labels: Vec<String> = Vec::new();

    let (_, a1) = conn_step(ConnState::Connecting, ConnEvent::Opened);
    apply_gauge_action(&mut reg, a1).unwrap();
    let (_, a2) = conn_step(ConnState::Connecting, ConnEvent::Opened);
    apply_gauge_action(&mut reg, a2).unwrap();
    assert_eq!(reg.gauge_value("connected_clients", &no_labels), Some(2));

    let (_, a3) = conn_step(ConnState::Open, ConnEvent::StreamEnded);
    apply_gauge_action(&mut reg, a3).unwrap();
    assert_eq!(reg.gauge_value("connected_clients", &no_labels), Some(1));
}
