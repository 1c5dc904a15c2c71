//! The traffic simulator's decisions: which registry updates one synthesized
//! `(environment, status code, response time)` triple causes. Drawing the
//! random triple and waiting between ticks stay with the caller; everything
//! from the triple to the registry is specified and verified here.

use vstd::prelude::*;
use vstd::string::StringExecFns;

use crate::model::{
    counter_inc_tr, fresh_family, observe_tr, register_tr, FamilyModel, MetricKind, RegistryError,
};
use crate::registry::{FamilyDef, Registry};
use crate::text::{fmt_u64, spec_dec};

verus! {

/// The class label of a status code: its hundreds, from `100` to `500`;
/// codes outside 100..=599 carry no class and are dropped.
pub open spec fn spec_status_class(code: u64) -> Option<Seq<char>> {
    if 100 <= code < 200 {
        Some("100"@)
    } else if 200 <= code < 300 {
        Some("200"@)
    } else if 300 <= code < 400 {
        Some("300"@)
    } else if 400 <= code < 500 {
        Some("400"@)
    } else if 500 <= code < 600 {
        Some("500"@)
    } else {
        None
    }
}

/// Class label of a status code, when it has one.
pub fn status_class(code: u64) -> (r: Option<&'static str>)
    ensures
        match r {
            Some(s) => spec_status_class(code) == Some(s@),
            None => spec_status_class(code) is None,
        },
{
    if code < 100 {
        None
    } else if code < 200 {
        Some("100")
    } else if code < 300 {
        Some("200")
    } else if code < 400 {
        Some("300")
    } else if code < 500 {
        Some("400")
    } else if code < 600 {
        Some("500")
    } else {
        None
    }
}

/// The label tuple of one status-code increment: environment, the code's
/// decimal text, and its class.
pub open spec fn status_labels(env: Seq<char>, code: u64) -> Seq<Seq<char>> {
    seq![env, spec_dec(code as nat), spec_status_class(code)->Some_0]
}

/// Transition of `record_status`: codes without a class are dropped silently,
/// any other increments the `response_code` counter.
pub open spec fn status_tr(fams: Seq<FamilyModel>, env: Seq<char>, code: u64) -> Result<
    Seq<FamilyModel>,
    RegistryError,
> {
    if spec_status_class(code) is None {
        Ok(fams)
    } else {
        counter_inc_tr(fams, "response_code"@, status_labels(env, code))
    }
}

/// Transition of `record_response_time`: one observation into the
/// `response_time` histogram, keyed by environment.
pub open spec fn response_time_tr(fams: Seq<FamilyModel>, env: Seq<char>, millis: u64) -> Result<
    Seq<FamilyModel>,
    RegistryError,
> {
    observe_tr(fams, "response_time"@, seq![env], millis)
}

impl Registry {
    /// Counts one synthesized response: increments the `response_code`
    /// counter keyed by environment, code and class. A code without a class
    /// is dropped silently and the registry is untouched.
    pub fn record_status(&mut self, env: &str, status_code: u64) -> (r: Result<(), RegistryError>)
        requires
            old(self).wf(),
        ensures
            final(self).wf(),
            ({
                let t = status_tr(old(self)@, env@, status_code);
                match r {
                    Ok(()) => t is Ok && final(self)@ == t->Ok_0,
                    Err(e) => t == Err::<Seq<FamilyModel>, RegistryError>(e) && final(self)@
                        == old(self)@,
                }
            }),
    {
        let cls = match status_class(status_code) {
            None => {
                return Ok(());
            },
            Some(c) => c,
        };
        let mut labels: Vec<String> = Vec::new();
        labels.push(env.to_owned());
        labels.push(fmt_u64(status_code));
        labels.push(cls.to_owned());
        proof {
            assert(labels.deep_view() =~= status_labels(env@, status_code));
        }
        self.counter_inc("response_code", &labels)
    }

    /// Records one synthesized response time, in thousandths of a unit, into
    /// the `response_time` histogram keyed by environment.
    pub fn record_response_time(&mut self, env: &str, response_millis: u64) -> (r: Result<
        (),
        RegistryError,
    >)
        requires
            old(self).wf(),
        ensures
            final(self).wf(),
            ({
                let t = response_time_tr(old(self)@, env@, response_millis);
                match r {
                    Ok(()) => t is Ok && final(self)@ == t->Ok_0,
                    Err(e) => t == Err::<Seq<FamilyModel>, RegistryError>(e) && final(self)@
                        == old(self)@,
                }
            }),
    {
        let mut labels: Vec<String> = Vec::new();
        labels.push(env.to_owned());
        proof {
            assert(labels.deep_view() =~= seq![env@]);
        }
        self.histogram_observe("response_time", &labels, response_millis)
    }

    /// One simulator tick: counts the status code, then records the response
    /// time. Both updates are attempted; the first error, if any, is
    /// returned, and the tick never undoes the update that succeeded.
    pub fn simulate_tick(&mut self, env: &str, status_code: u64, response_millis: u64) -> (r:
        Result<(), RegistryError>)
        requires
            old(self).wf(),
        ensures
            final(self).wf(),
            ({
                let t1 = status_tr(old(self)@, env@, status_code);
                let f1 = if t1 is Ok {
                    t1->Ok_0
                } else {
                    old(self)@
                };
                let t2 = response_time_tr(f1, env@, response_millis);
                let f2 = if t2 is Ok {
                    t2->Ok_0
                } else {
                    f1
                };
                final(self)@ == f2 && (match (t1, t2) {
                    (Err(e1), _) => r == Err::<(), RegistryError>(e1),
                    (Ok(m), Err(e2)) => r == Err::<(), RegistryError>(e2),
                    (Ok(m1), Ok(m2)) => r is Ok,
                })
            }),
    {
        let r1 = self.record_status(env, status_code);
        let r2 = self.record_response_time(env, response_millis);
        match r1 {
            Err(e) => Err(e),
            Ok(()) => r2,
        }
    }

    /// Registers the four metric families the engine serves: the
    /// `incoming_requests` counter, the `connected_clients` gauge, the
    /// `response_code` counter and the `response_time` histogram. Stops at
    /// the first duplicate name, leaving the families registered so far.
    pub fn register_default_metrics(&mut self) -> (r: Result<(), RegistryError>)
        requires
            old(self).wf(),
        ensures
            final(self).wf(),
            ({
                let t1 = register_tr(old(self)@, incoming_requests_family());
                match t1 {
                    Err(e) => r == Err::<(), RegistryError>(e) && final(self)@ == old(self)@,
                    Ok(f1) => {
                        let t2 = register_tr(f1, connected_clients_family());
                        match t2 {
                            Err(e) => r == Err::<(), RegistryError>(e) && final(self)@ == f1,
                            Ok(f2) => {
                                let t3 = register_tr(f2, response_code_family());
                                match t3 {
                                    Err(e) => r == Err::<(), RegistryError>(e) && final(self)@
                                        == f2,
                                    Ok(f3) => {
                                        let t4 = register_tr(f3, response_time_family());
                                        match t4 {
                                            Err(e) => r == Err::<(), RegistryError>(e)
                                                && final(self)@ == f3,
                                            Ok(f4) => r is Ok && final(self)@ == f4,
                                        }
                                    },
                                }
                            },
                        }
                    },
                }
            }),
    {
        let d1 = FamilyDef {
            name: "incoming_requests".to_owned(),
            help: "Incoming Requests".to_owned(),
            kind: MetricKind::Counter,
            label_names: Vec::new(),
        };
        let d2 = FamilyDef {
            name: "connected_clients".to_owned(),
            help: "Connected Clients".to_owned(),
            kind: MetricKind::Gauge,
            label_names: Vec::new(),
        };
        let mut code_labels: Vec<String> = Vec::new();
        code_labels.push("env".to_owned());
        code_labels.push("statuscode".to_owned());
        code_labels.push("type".to_owned());
        let d3 = FamilyDef {
            name: "response_code".to_owned(),
            help: "Response Codes".to_owned(),
            kind: MetricKind::Counter,
            label_names: code_labels,
        };
        let mut time_labels: Vec<String> = Vec::new();
        time_labels.push("env".to_owned());
        let d4 = FamilyDef {
            name: "response_time".to_owned(),
            help: "Response Times".to_owned(),
            kind: MetricKind::Histogram,
            label_names: time_labels,
        };
        proof {
            reveal_strlit("env");
            reveal_strlit("statuscode");
            reveal_strlit("type");
            assert(d1.label_names.deep_view() =~= Seq::<Seq<char>>::empty());
            assert(d2.label_names.deep_view() =~= Seq::<Seq<char>>::empty());
            assert(d3.label_names.deep_view() =~= seq!["env"@, "statuscode"@, "type"@]);
            assert(d4.label_names.deep_view() =~= seq!["env"@]);
            assert("env"@.len() == 3 && "statuscode"@.len() == 10 && "type"@.len() == 4);
            assert(d1.wf() && d2.wf() && d3.wf() && d4.wf());
            assert(d1.model() =~~= incoming_requests_family());
            assert(d2.model() =~~= connected_clients_family());
            assert(d3.model() =~~= response_code_family());
            assert(d4.model() =~~= response_time_family());
        }
        match self.register(d1) {
            Err(e) => {
                return Err(e);
            },
            Ok(()) => {},
        }
        match self.register(d2) {
            Err(e) => {
                return Err(e);
            },
            Ok(()) => {},
        }
        match self.register(d3) {
            Err(e) => {
                return Err(e);
            },
            Ok(()) => {},
        }
        match self.register(d4) {
            Err(e) => {
                return Err(e);
            },
            Ok(()) => {},
        }
        Ok(())
    }
}

/// The `incoming_requests` counter family, as registered.
pub open spec fn incoming_requests_family() -> FamilyModel {
    fresh_family("incoming_requests"@, "Incoming Requests"@, MetricKind::Counter, Seq::empty())
}

/// The `connected_clients` gauge family, as registered.
pub open spec fn connected_clients_family() -> FamilyModel {
    fresh_family("connected_clients"@, "Connected Clients"@, MetricKind::Gauge, Seq::empty())
}

/// The `response_code` counter family, as registered.
pub open spec fn response_code_family() -> FamilyModel {
    fresh_family(
        "response_code"@,
        "Response Codes"@,
        MetricKind::Counter,
        seq!["env"@, "statuscode"@, "type"@],
    )
}

/// The `response_time` histogram family, as registered.
pub open spec fn response_time_family() -> FamilyModel {
    fresh_family("response_time"@, "Response Times"@, MetricKind::Histogram, seq!["env"@])
}

} // verus!
