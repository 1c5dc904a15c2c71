//! The connection tracker: the per-connection lifecycle state machine whose
//! only effect on the registry is the `connected_clients` gauge. A connection
//! is `Connecting`, becomes `Open` at most once (one increment), and ends
//! `Closed` at most once after being open (one decrement), however many
//! messages or errors the stream delivers.

use vstd::prelude::*;

use crate::model::{gauge_dec_tr, gauge_inc_tr, FamilyModel, RegistryError};
use crate::registry::Registry;

verus! {

/// Lifecycle state of one connection.
#[derive(Clone, Copy, PartialEq, Eq, Structural, Debug)]
pub enum ConnState {
    Connecting,
    Open,
    Closed,
}

/// What the transport reports about one connection.
#[derive(Clone, Copy, PartialEq, Eq, Structural, Debug)]
pub enum ConnEvent {
    /// The connection finished its handshake.
    Opened,
    /// One inbound message arrived.
    Message,
    /// The stream ended, gracefully or with a read error.
    StreamEnded,
}

/// What the tracker asks of the `connected_clients` gauge.
#[derive(Clone, Copy, PartialEq, Eq, Structural, Debug)]
pub enum GaugeAction {
    Hold,
    Increment,
    Decrement,
}

/// One step of the lifecycle: the next state and the gauge action owed.
pub open spec fn spec_conn_step(s: ConnState, e: ConnEvent) -> (ConnState, GaugeAction) {
    match (s, e) {
        (ConnState::Connecting, ConnEvent::Opened) => (ConnState::Open, GaugeAction::Increment),
        (ConnState::Connecting, ConnEvent::Message) => (ConnState::Connecting, GaugeAction::Hold),
        (ConnState::Connecting, ConnEvent::StreamEnded) => (ConnState::Closed, GaugeAction::Hold),
        (ConnState::Open, ConnEvent::Opened) => (ConnState::Open, GaugeAction::Hold),
        (ConnState::Open, ConnEvent::Message) => (ConnState::Open, GaugeAction::Hold),
        (ConnState::Open, ConnEvent::StreamEnded) => (ConnState::Closed, GaugeAction::Decrement),
        (ConnState::Closed, _) => (ConnState::Closed, GaugeAction::Hold),
    }
}

/// Executable lifecycle step; the caller performs the returned action.
pub fn conn_step(s: ConnState, e: ConnEvent) -> (r: (ConnState, GaugeAction))
    ensures
        r == spec_conn_step(s, e),
{
    match (s, e) {
        (ConnState::Connecting, ConnEvent::Opened) => (ConnState::Open, GaugeAction::Increment),
        (ConnState::Connecting, ConnEvent::Message) => (ConnState::Connecting, GaugeAction::Hold),
        (ConnState::Connecting, ConnEvent::StreamEnded) => (ConnState::Closed, GaugeAction::Hold),
        (ConnState::Open, ConnEvent::Opened) => (ConnState::Open, GaugeAction::Hold),
        (ConnState::Open, ConnEvent::Message) => (ConnState::Open, GaugeAction::Hold),
        (ConnState::Open, ConnEvent::StreamEnded) => (ConnState::Closed, GaugeAction::Decrement),
        (ConnState::Closed, _) => (ConnState::Closed, GaugeAction::Hold),
    }
}

/// The gauge movement an action stands for.
pub open spec fn action_delta(a: GaugeAction) -> int {
    match a {
        GaugeAction::Hold => 0,
        GaugeAction::Increment => 1,
        GaugeAction::Decrement => -1,
    }
}

/// Runs a connection through a sequence of events: the final state and the
/// summed gauge movement.
pub open spec fn run_conn(s: ConnState, evs: Seq<ConnEvent>) -> (ConnState, int)
    decreases evs.len(),
{
    if evs.len() == 0 {
        (s, 0)
    } else {
        let st = spec_conn_step(s, evs[0]);
        let rest = run_conn(st.0, evs.drop_first());
        (rest.0, action_delta(st.1) + rest.1)
    }
}

/// What one connection in a given state contributes to the gauge.
pub open spec fn conn_contribution(s: ConnState) -> int {
    if s is Open {
        1
    } else {
        0
    }
}

/// Law: over any event sequence, a connection's summed gauge movement is
/// exactly the change of its contribution — the increment on opening and the
/// decrement on closing pair one to one.
pub proof fn lemma_conn_gauge_delta(s: ConnState, evs: Seq<ConnEvent>)
    ensures
        run_conn(s, evs).1 == conn_contribution(run_conn(s, evs).0) - conn_contribution(s),
    decreases evs.len(),
{
    if evs.len() > 0 {
        let st = spec_conn_step(s, evs[0]);
        lemma_conn_gauge_delta(st.0, evs.drop_first());
    }
}

/// Law: a fresh connection contributes one to the gauge exactly while it is
/// open, and zero once closed; its contribution never goes negative.
pub proof fn lemma_tracker_pairing(evs: Seq<ConnEvent>)
    ensures
        run_conn(ConnState::Connecting, evs).1 == conn_contribution(
            run_conn(ConnState::Connecting, evs).0,
        ),
        0 <= run_conn(ConnState::Connecting, evs).1 <= 1,
{
    lemma_conn_gauge_delta(ConnState::Connecting, evs);
}

/// The summed gauge movement of many connections, each starting fresh.
pub open spec fn total_gauge(conns: Seq<Seq<ConnEvent>>) -> int
    decreases conns.len(),
{
    if conns.len() == 0 {
        0
    } else {
        run_conn(ConnState::Connecting, conns[0]).1 + total_gauge(conns.drop_first())
    }
}

/// How many of the connections are open.
pub open spec fn open_count(conns: Seq<Seq<ConnEvent>>) -> int
    decreases conns.len(),
{
    if conns.len() == 0 {
        0
    } else {
        conn_contribution(run_conn(ConnState::Connecting, conns[0]).0) + open_count(
            conns.drop_first(),
        )
    }
}

/// Law: after any interleaving of open, message and close events across any
/// number of connections, the gauge reads exactly the number of connections
/// still open — opens minus closes — and never goes negative.
pub proof fn lemma_gauge_counts_open_connections(conns: Seq<Seq<ConnEvent>>)
    ensures
        total_gauge(conns) == open_count(conns),
        total_gauge(conns) >= 0,
    decreases conns.len(),
{
    if conns.len() > 0 {
        lemma_tracker_pairing(conns[0]);
        lemma_gauge_counts_open_connections(conns.drop_first());
    }
}

/// Performs a tracker action on the `connected_clients` gauge.
pub fn apply_gauge_action(reg: &mut Registry, action: GaugeAction) -> (r: Result<
    (),
    RegistryError,
>)
    requires
        old(reg).wf(),
    ensures
        final(reg).wf(),
        ({
            match action {
                GaugeAction::Hold => r is Ok && final(reg)@ == old(reg)@,
                GaugeAction::Increment => {
                    let t = gauge_inc_tr(old(reg)@, "connected_clients"@, Seq::empty(), 1);
                    match r {
                        Ok(()) => t is Ok && final(reg)@ == t->Ok_0,
                        Err(e) => t == Err::<Seq<FamilyModel>, RegistryError>(e) && final(reg)@
                            == old(reg)@,
                    }
                },
                GaugeAction::Decrement => {
                    let t = gauge_dec_tr(old(reg)@, "connected_clients"@, Seq::empty(), 1);
                    match r {
                        Ok(()) => t is Ok && final(reg)@ == t->Ok_0,
                        Err(e) => t == Err::<Seq<FamilyModel>, RegistryError>(e) && final(reg)@
                            == old(reg)@,
                    }
                },
            }
        }),
{
    let labels: Vec<String> = Vec::new();
    proof {
        assert(labels.deep_view() =~= Seq::<Seq<char>>::empty());
    }
    match action {
        GaugeAction::Hold => Ok(()),
        GaugeAction::Increment => reg.gauge_inc("connected_clients", &labels, 1),
        GaugeAction::Decrement => reg.gauge_dec("connected_clients", &labels, 1),
    }
}

} // verus!
