//! The scenario runner: one instance of a scenario, walking through the
//! scenario's endpoints in their declared order.
//!
//! An instance is a state machine. Its driver asks which action is due,
//! performs it, and reports what happened as an event. A call is over when the
//! request fails, when the head of the response settles it, or when the body
//! has been read. Whatever the outcome, the instance moves on to the next
//! endpoint: a failed call resets the response value that is handed forward
//! and stops nothing.

use crate::caller::{body_outcome, judge_body, CallError, Head, Notice, Verdict};
use crate::config::{Config, Senario};
use crate::json::{parsed_json, Json};
use vstd::prelude::*;

verus! {

/// What the driver reports to an instance.
#[derive(Debug)]
pub enum Event {
    /// The request, or the reading of the body, failed in transport.
    Failed,
    /// The head of the response has arrived.
    Head(Head),
    /// The body of the response has been read.
    Body(Vec<u8>),
}

/// What an instance asks its driver to do.
#[derive(Debug, PartialEq, Eq)]
pub enum Action {
    /// Send a GET to `url`, the URL of the scenario's endpoint number
    /// `endpoint`, and report `Event::Head` or `Event::Failed`.
    Get { endpoint: usize, url: String },
    /// Read the body of the response and report `Event::Body` or
    /// `Event::Failed`.
    ReadBody,
    /// Every endpoint has been called: the instance is over.
    Stop,
}

/// One running repetition of a scenario.
#[derive(Debug)]
pub struct Instance {
    /// The label of this repetition in the log.
    pub scene: String,
    /// The number of calls that are over; also the index of the endpoint whose
    /// call is due or under way.
    pub position: usize,
    /// The document that the last call produced; null at the start and after a
    /// call that failed.
    pub previous: Json,
    /// A response head has asked for the body, which has not been reported yet.
    pub awaiting_body: bool,
}

impl Instance {
    /// Every endpoint of `senario` has been called.
    pub open spec fn finished(&self, senario: &Senario) -> bool {
        self.position >= senario.apis.len()
    }

    /// The endpoint to which a GET is due, if one is.
    pub open spec fn get_due(&self, senario: &Senario) -> Option<usize> {
        if !self.finished(senario) && !self.awaiting_body {
            Some(self.position)
        } else {
            None
        }
    }

    /// `event` answers the action that is due: a head answers a GET, a body
    /// answers the reading of a body, and a failure answers either.
    pub open spec fn accepts(&self, senario: &Senario, event: Event) -> bool {
        !self.finished(senario) && match event {
            Event::Failed => true,
            Event::Head(_) => !self.awaiting_body,
            Event::Body(_) => self.awaiting_body,
        }
    }

    /// The outcome of the current call if `event` ends it.
    pub open spec fn outcome(&self, senario: &Senario, event: Event) -> Option<
        Result<Json, CallError>,
    > {
        if !self.accepts(senario, event) {
            None
        } else {
            match event {
                Event::Failed => Some(Err(CallError::Transport)),
                Event::Head(head) => match head.verdict() {
                    Verdict::ReadBody => None,
                    Verdict::Finished(outcome) => Some(outcome),
                },
                Event::Body(body) => Some(body_outcome(parsed_json(body@))),
            }
        }
    }

    /// The instance once its current call is over with `outcome`: it stands at
    /// the next endpoint and hands forward the document of a successful call,
    /// or null after a failed one.
    pub open spec fn completed(self, outcome: Result<Json, CallError>) -> Instance {
        Instance {
            scene: self.scene,
            position: (self.position + 1) as usize,
            previous: match outcome {
                Ok(document) => document,
                Err(_) => Json::Null,
            },
            awaiting_body: false,
        }
    }

    /// The instance after `event`. An event that ends the current call moves
    /// the instance to the next endpoint; a head that asks for the body makes
    /// it wait for the body; an event that does not answer the action due
    /// changes nothing.
    pub open spec fn after(self, senario: &Senario, event: Event) -> Instance {
        if !self.accepts(senario, event) {
            self
        } else {
            match self.outcome(senario, event) {
                Some(outcome) => self.completed(outcome),
                None => Instance { awaiting_body: true, ..self },
            }
        }
    }

    /// What `event` puts into the log: for a head, what the caller says of it;
    /// then a failure notice if the event ends the call without a document.
    pub open spec fn notices(&self, senario: &Senario, event: Event) -> Seq<Notice> {
        if !self.accepts(senario, event) {
            Seq::empty()
        } else {
            (match event {
                Event::Head(head) => head.notices(self.position),
                _ => Seq::empty(),
            }) + (match self.outcome(senario, event) {
                Some(Err(error)) => seq![Notice::CallFailed { error }],
                _ => Seq::empty(),
            })
        }
    }

    /// A fresh instance labelled `scene`: no call made, null to hand forward.
    pub fn new(scene: String) -> (instance: Instance)
        ensures
            instance.scene == scene,
            instance.position == 0,
            instance.previous == Json::Null,
            !instance.awaiting_body,
    {
        Instance { scene, position: 0, previous: Json::Null, awaiting_body: false }
    }

    /// Whether every endpoint of `senario` has been called.
    pub fn is_finished(&self, senario: &Senario) -> (finished: bool)
        ensures
            finished == self.finished(senario),
    {
        self.position >= senario.apis.len()
    }

    /// The action that is due. It is `Stop` once every endpoint has been
    /// called; otherwise the body is read if a head has asked for it, and
    /// else a GET goes to the endpoint at the instance's position.
    pub fn action(&self, senario: &Senario, config: &Config) -> (action: Action)
        ensures
            match action {
                Action::Stop => self.finished(senario),
                Action::ReadBody => !self.finished(senario) && self.awaiting_body,
                Action::Get { endpoint, url } => {
                    &&& self.get_due(senario) == Some(endpoint)
                    &&& url@ == senario.apis@[endpoint as int].url(config.base_url@)
                },
            },
    {
        if self.position >= senario.apis.len() {
            Action::Stop
        } else if self.awaiting_body {
            Action::ReadBody
        } else {
            let url = senario.apis[self.position].__prepare_endpoint(&config.base_url);
            Action::Get { endpoint: self.position, url }
        }
    }

    /// Ends the current call with `outcome`.
    fn complete(&mut self, outcome: Result<Json, CallError>)
        requires
            old(self).position < usize::MAX,
        ensures
            *final(self) == old(self).completed(outcome),
    {
        self.position = self.position + 1;
        self.awaiting_body = false;
        self.previous = match outcome {
            Ok(document) => document,
            Err(_) => Json::Null,
        };
    }

    /// Takes in what the driver reports and returns what is to be logged.
    pub fn handle(&mut self, senario: &Senario, event: Event) -> (notices: Vec<Notice>)
        ensures
            *final(self) == old(self).after(senario, event),
            notices@ == old(self).notices(senario, event),
    {
        let mut notices: Vec<Notice> = Vec::new();
        if self.position >= senario.apis.len() {
            return notices;
        }
        match event {
            Event::Failed => {
                self.complete(Err(CallError::Transport));
                notices.push(Notice::CallFailed { error: CallError::Transport });
            },
            Event::Head(head) => {
                if !self.awaiting_body {
                    let (verdict, said) = head.judge(self.position);
                    notices = said;
                    match verdict {
                        Verdict::ReadBody => {
                            self.awaiting_body = true;
                        },
                        Verdict::Finished(outcome) => {
                            if let Err(error) = &outcome {
                                notices.push(Notice::CallFailed { error: *error });
                            }
                            self.complete(outcome);
                        },
                    }
                }
            },
            Event::Body(body) => {
                if self.awaiting_body {
                    let outcome = judge_body(body.as_slice());
                    if let Err(error) = &outcome {
                        notices.push(Notice::CallFailed { error: *error });
                    }
                    self.complete(outcome);
                }
            },
        }
        assert(notices@ =~= old(self).notices(senario, event));
        notices
    }
}

/// The indices from `from` up to, not including, `to`, in rising order.
pub open spec fn indices(from: int, to: int) -> Seq<int> {
    Seq::new((to - from) as nat, |i: int| from + i)
}

impl Instance {
    /// The number of GETs that have been answered so far: one for every call
    /// that is over, and one more if the instance waits for a body.
    pub open spec fn answered(&self) -> int {
        if self.awaiting_body {
            self.position + 1
        } else {
            self.position as int
        }
    }

    /// A run in which the driver plays by the rules: each event answers the
    /// action that is due when it arrives.
    pub open spec fn fitting(self, senario: &Senario, events: Seq<Event>) -> bool
        decreases events.len(),
    {
        events.len() == 0 || (self.accepts(senario, events[0]) && self.after(
            senario,
            events[0],
        ).fitting(senario, events.drop_first()))
    }

    /// The instance after all of `events`, one after the other.
    pub open spec fn replay(self, senario: &Senario, events: Seq<Event>) -> Instance
        decreases events.len(),
    {
        if events.len() == 0 {
            self
        } else {
            self.after(senario, events[0]).replay(senario, events.drop_first())
        }
    }

    /// The endpoints to which the driver has sent a GET in the course of
    /// `events`, in the order of sending: each event that meets a due GET
    /// answers the request to the endpoint at the instance's position.
    pub open spec fn requests(self, senario: &Senario, events: Seq<Event>) -> Seq<int>
        decreases events.len(),
    {
        if events.len() == 0 {
            Seq::empty()
        } else {
            (match self.get_due(senario) {
                Some(endpoint) => seq![endpoint as int],
                None => Seq::empty(),
            }) + self.after(senario, events[0]).requests(senario, events.drop_first())
        }
    }
}

/// A call that fails does not keep the next one from being made: whatever ends
/// a call without a document, a transport failure above all, leaves the
/// instance at the next endpoint with null to hand forward, and if the
/// scenario has a next endpoint, the GET to it is due.
pub proof fn lemma_failed_call_is_isolated(instance: Instance, senario: &Senario, event: Event)
    requires
        instance.outcome(senario, event) matches Some(Err(_)),
    ensures
        instance.after(senario, event).position == instance.position + 1,
        instance.after(senario, event).previous == Json::Null,
        instance.position + 1 < senario.apis.len() ==> instance.after(senario, event).get_due(
            senario,
        ) == Some((instance.position + 1) as usize),
        !instance.finished(senario) ==> instance.outcome(senario, Event::Failed) == Some(
            Err::<Json, CallError>(CallError::Transport),
        ),
{
}

/// A response whose status is not a success does not end the instance: the
/// call is over, null is handed forward, and the instance stands at the next
/// endpoint. Unless the response declares a wrong content type, the outcome of
/// the call is the null document and no error.
pub proof fn lemma_non_success_hands_null_forward(instance: Instance, senario: &Senario, head: Head)
    requires
        instance.get_due(senario) is Some,
        !crate::caller::status_is_success(head.status),
    ensures
        instance.after(senario, Event::Head(head)).position == instance.position + 1,
        instance.after(senario, Event::Head(head)).previous == Json::Null,
        !instance.after(senario, Event::Head(head)).awaiting_body,
        !head.media_unexpected() ==> instance.outcome(senario, Event::Head(head)) == Some(
            Ok::<Json, CallError>(Json::Null),
        ),
{
}

/// In a fitting run the endpoints are called in their declared order, each
/// once: the requests sent in the course of the run go to consecutive
/// endpoints, from the first one not yet answered when the run begins to the
/// last one answered when it ends. No call is skipped and none is repeated,
/// whatever the outcomes of the calls.
pub proof fn lemma_run_calls_endpoints_in_order(
    instance: Instance,
    senario: &Senario,
    events: Seq<Event>,
)
    requires
        instance.fitting(senario, events),
        instance.position <= senario.apis.len(),
    ensures
        instance.replay(senario, events).position <= senario.apis.len(),
        instance.answered() <= instance.replay(senario, events).answered(),
        instance.requests(senario, events) == indices(
            instance.answered(),
            instance.replay(senario, events).answered(),
        ),
    decreases events.len(),
{
    if events.len() == 0 {
        assert(instance.requests(senario, events) =~= indices(
            instance.answered(),
            instance.answered(),
        ));
    } else {
        let next = instance.after(senario, events[0]);
        let rest = events.drop_first();
        lemma_run_calls_endpoints_in_order(next, senario, rest);
        assert(instance.requests(senario, events) =~= indices(
            instance.answered(),
            instance.replay(senario, events).answered(),
        ));
    }
}

/// A fitting run that takes a fresh instance to the end of the scenario sends
/// exactly one request to every endpoint, in the declared order.
pub proof fn lemma_complete_run_calls_every_endpoint_once(
    instance: Instance,
    senario: &Senario,
    events: Seq<Event>,
)
    requires
        instance.position == 0,
        !instance.awaiting_body,
        instance.fitting(senario, events),
        instance.replay(senario, events).finished(senario),
    ensures
        instance.requests(senario, events) == indices(0, senario.apis.len() as int),
{
    lemma_run_calls_endpoints_in_order(instance, senario, events);
    lemma_finished_instance_awaits_nothing(instance, senario, events);
}

/// An instance that has reached the end of the scenario in a fitting run does
/// not wait for a body.
pub proof fn lemma_finished_instance_awaits_nothing(
    instance: Instance,
    senario: &Senario,
    events: Seq<Event>,
)
    requires
        instance.fitting(senario, events),
        instance.position <= senario.apis.len(),
        instance.awaiting_body ==> !instance.finished(senario),
    ensures
        instance.replay(senario, events).awaiting_body ==> !instance.replay(
            senario,
            events,
        ).finished(senario),
    decreases events.len(),
{
    if events.len() > 0 {
        lemma_finished_instance_awaits_nothing(
            instance.after(senario, events[0]),
            senario,
            events.drop_first(),
        );
    }
}

} // verus!
