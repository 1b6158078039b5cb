use vstd::prelude::*;
use crate::auth::{RequestHeaders, admits, authorize, view_opt};
use crate::error::NodeError;
use crate::payload::{TelemetryPayload, WsMessage, LOCATION_UPDATE_EVENT, coordinates_accepted, validate};

verus! {

/// Broker channel fed through the connection pool.
pub const LEGACY_CHANNEL: &'static str = "map_updates";

/// Broker channel fed through a dedicated connection.
pub const REALTIME_CHANNEL: &'static str = "realtime_events";

/// The two publish targets of an accepted event.
#[derive(Debug, Clone, Copy, PartialEq, Eq)]
pub enum Channel {
    /// Published through a pooled connection; first.
    Legacy,
    /// Published through a connection of its own; only after the legacy one.
    Realtime,
}

impl Channel {
    /// Broker channel name.
    pub fn name(&self) -> (r: &'static str)
        ensures
            r@ == match *self {
                Channel::Legacy => LEGACY_CHANNEL@,
                Channel::Realtime => REALTIME_CHANNEL@,
            },
    {
        match self {
            Channel::Legacy => LEGACY_CHANNEL,
            Channel::Realtime => REALTIME_CHANNEL,
        }
    }
}

/// What a request still has to do once its envelope is serialized.
#[derive(Debug, PartialEq)]
pub enum Step {
    /// Hand the envelope to the internal queue without waiting.
    Submit,
    /// Publish the envelope on a channel.
    Publish(Channel),
    /// Answer the client.
    Reply(Result<(), NodeError>),
}

/// Outcome of performing a step: `Err` carries a description of the failure.
pub type Outcome = Result<(), String>;

/// The step after `step` has been performed with `outcome`. The queue
/// hand-off is best effort: its outcome is never looked at. A failed
/// publish ends the request with a broker error.
pub open spec fn next_step(step: Step, outcome: Outcome) -> Step {
    match step {
        Step::Submit => Step::Publish(Channel::Legacy),
        Step::Publish(Channel::Legacy) => match outcome {
            Ok(()) => Step::Publish(Channel::Realtime),
            Err(d) => Step::Reply(Err(NodeError::RedisError(d))),
        },
        Step::Publish(Channel::Realtime) => match outcome {
            Ok(()) => Step::Reply(Ok(())),
            Err(d) => Step::Reply(Err(NodeError::RedisError(d))),
        },
        Step::Reply(r) => Step::Reply(r),
    }
}

/// The step reached from `step` through the outcomes in order.
pub open spec fn run(step: Step, outcomes: Seq<Outcome>) -> Step
    decreases outcomes.len(),
{
    if outcomes.len() == 0 {
        step
    } else {
        run(next_step(step, outcomes[0]), outcomes.drop_first())
    }
}

/// Every step passed through from `step` through the outcomes, `step`
/// itself first.
pub open spec fn trace(step: Step, outcomes: Seq<Outcome>) -> Seq<Step>
    decreases outcomes.len(),
{
    if outcomes.len() == 0 {
        seq![step]
    } else {
        seq![step] + trace(next_step(step, outcomes[0]), outcomes.drop_first())
    }
}

fn copy_reply(r: &Result<(), NodeError>) -> (c: Result<(), NodeError>)
    ensures
        c == *r,
{
    match r {
        Ok(u) => Ok(*u),
        Err(e) => Err(e.duplicate()),
    }
}

/// Decides the step after `step` has been performed with `outcome`.
pub fn advance(step: &Step, outcome: Outcome) -> (r: Step)
    ensures
        r == next_step(*step, outcome),
{
    match step {
        Step::Submit => Step::Publish(Channel::Legacy),
        Step::Publish(Channel::Legacy) => match outcome {
            Ok(()) => Step::Publish(Channel::Realtime),
            Err(d) => Step::Reply(Err(NodeError::RedisError(d))),
        },
        Step::Publish(Channel::Realtime) => match outcome {
            Ok(()) => Step::Reply(Ok(())),
            Err(d) => Step::Reply(Err(NodeError::RedisError(d))),
        },
        Step::Reply(r) => Step::Reply(copy_reply(r)),
    }
}

/// A finished request stays finished: whatever outcomes follow, it keeps
/// its reply and passes through no other step.
pub proof fn lemma_reply_is_final(r: Result<(), NodeError>, outcomes: Seq<Outcome>)
    ensures
        run(Step::Reply(r), outcomes) == Step::Reply(r),
        forall|i: int| 0 <= i < trace(Step::Reply(r), outcomes).len()
            ==> #[trigger] trace(Step::Reply(r), outcomes)[i] == Step::Reply(r),
    decreases outcomes.len(),
{
    if outcomes.len() > 0 {
        lemma_reply_is_final(r, outcomes.drop_first());
        let t = trace(Step::Reply(r), outcomes);
        let u = trace(Step::Reply(r), outcomes.drop_first());
        assert(t == seq![Step::Reply(r)] + u);
        assert forall|i: int| 0 <= i < t.len() implies #[trigger] t[i] == Step::Reply(r) by {
            if i > 0 {
                assert(t[i] == u[i - 1]);
            }
        }
    }
}

/// Ordering of the two publishes: when the legacy publish fails the
/// request ends with a broker error, and the realtime publish is never
/// attempted, whatever outcomes would follow.
pub proof fn lemma_legacy_failure_skips_realtime(detail: String, rest: Seq<Outcome>)
    ensures
        run(Step::Publish(Channel::Legacy), seq![Err(detail)] + rest) == Step::Reply(
            Err(NodeError::RedisError(detail)),
        ),
        !trace(Step::Publish(Channel::Legacy), seq![Err(detail)] + rest).contains(
            Step::Publish(Channel::Realtime),
        ),
{
    let os = seq![Err(detail)] + rest;
    let r: Result<(), NodeError> = Err(NodeError::RedisError(detail));
    assert(os.drop_first() =~= rest);
    lemma_reply_is_final(r, rest);
    let t = trace(Step::Publish(Channel::Legacy), os);
    let u = trace(Step::Reply(r), rest);
    assert(t == seq![Step::Publish(Channel::Legacy)] + u);
    if t.contains(Step::Publish(Channel::Realtime)) {
        let i = choose|i: int| 0 <= i < t.len() && t[i] == Step::Publish(Channel::Realtime);
        assert(t[i] == u[i - 1]);
    }
}

/// The queue hand-off never decides the request: whether it was taken or
/// dropped, the same steps follow and the same reply comes out.
pub proof fn lemma_queue_outcome_ignored(taken: Outcome, dropped: Outcome, rest: Seq<Outcome>)
    ensures
        run(Step::Submit, seq![taken] + rest) == run(Step::Submit, seq![dropped] + rest),
        trace(Step::Submit, seq![taken] + rest) == trace(Step::Submit, seq![dropped] + rest),
{
    assert((seq![taken] + rest).drop_first() =~= rest);
    assert((seq![dropped] + rest).drop_first() =~= rest);
}

/// A request is answered with success only after both publishes
/// succeeded, legacy first.
pub proof fn lemma_success_needs_both_channels(outcomes: Seq<Outcome>)
    requires
        run(Step::Submit, outcomes) == Step::Reply(Ok(())),
    ensures
        outcomes.len() >= 3,
        outcomes[1] is Ok,
        outcomes[2] is Ok,
{
    let o1 = outcomes.drop_first();
    assert(outcomes.len() > 0);
    assert(run(Step::Publish(Channel::Legacy), o1) == Step::Reply(Ok(())));
    assert(o1.len() > 0);
    assert(o1[0] == outcomes[1]);
    let o2 = o1.drop_first();
    match outcomes[1] {
        Ok(()) => {
            assert(run(Step::Publish(Channel::Realtime), o2) == Step::Reply(Ok(())));
            assert(o2.len() > 0);
            assert(o2[0] == outcomes[2]);
            if let Err(d) = outcomes[2] {
                lemma_reply_is_final(Err(NodeError::RedisError(d)), o2.drop_first());
            }
        },
        Err(d) => {
            lemma_reply_is_final(Err(NodeError::RedisError(d)), o2);
        },
    }
}

/// The checks a request passes before anything is queued or published, in
/// order: the credential, then the body as parsed (`Err` carries the
/// parser's description), then the coordinates. An accepted request gets
/// the envelope of its payload; a rejected one gets the error to answer
/// with, and no envelope to queue or publish.
pub fn accept_request(
    headers: &RequestHeaders,
    expected_token: Option<&str>,
    parsed: Result<TelemetryPayload, String>,
) -> (r: Result<WsMessage, NodeError>)
    ensures
        !admits(*headers, view_opt(expected_token)) ==> r == Err::<WsMessage, NodeError>(
            NodeError::Unauthorized),
        admits(*headers, view_opt(expected_token)) && parsed is Err ==> r
            == Err::<WsMessage, NodeError>(NodeError::InvalidPayload(parsed->Err_0)),
        admits(*headers, view_opt(expected_token)) && parsed is Ok ==> {
            &&& (r is Ok <==> coordinates_accepted(parsed->Ok_0.lat, parsed->Ok_0.lon))
            &&& (r is Err ==> r->Err_0 is InvalidPayload)
        },
        r is Ok ==> parsed is Ok && r->Ok_0.data == parsed->Ok_0 && r->Ok_0.event@
            == LOCATION_UPDATE_EVENT@,
{
    match authorize(headers, expected_token) {
        Ok(()) => {},
        Err(e) => return Err(e),
    }
    match parsed {
        Ok(p) => match validate(p) {
            Ok(p) => Ok(WsMessage::location_update(p)),
            Err(e) => Err(e),
        },
        Err(d) => Err(NodeError::InvalidPayload(d)),
    }
}

/// The fan-out of one accepted request: the serialized envelope and the
/// step it has reached. The same envelope text is queued and published on
/// both channels.
pub struct Fanout {
    step: Step,
    message: String,
}

impl Fanout {
    /// The step the fan-out has reached.
    pub closed spec fn current(&self) -> Step {
        self.step
    }

    /// The serialized envelope.
    pub closed spec fn envelope(&self) -> Seq<char> {
        self.message@
    }

    /// Starts the fan-out of a serialized envelope at the queue hand-off.
    pub fn new(message: String) -> (r: Fanout)
        ensures
            r.current() == Step::Submit,
            r.envelope() == message@,
    {
        Fanout { step: Step::Submit, message }
    }

    /// The step to perform next.
    pub fn step(&self) -> (r: &Step)
        ensures
            *r == self.current(),
    {
        &self.step
    }

    /// The serialized envelope, for the queue and for both channels.
    pub fn message(&self) -> (r: &str)
        ensures
            r@ == self.envelope(),
    {
        self.message.as_str()
    }

    /// Records the outcome of the current step.
    pub fn record(&mut self, outcome: Outcome)
        ensures
            final(self).current() == next_step(old(self).current(), outcome),
            final(self).envelope() == old(self).envelope(),
    {
        self.step = advance(&self.step, outcome);
    }

    /// The reply, once the fan-out has finished.
    pub fn reply(&self) -> (r: Option<Result<(), NodeError>>)
        ensures
            r == match self.current() {
                Step::Reply(x) => Some(x),
                _ => None,
            },
    {
        match &self.step {
            Step::Reply(x) => Some(copy_reply(x)),
            _ => None,
        }
    }
}

} // verus!
