//! Notification dispatch as a state machine: one delivery per resolved hook,
//! attempted strictly in list order, each outcome recorded independently so
//! that a failed delivery never stops the remaining hooks and never touches
//! the execution result. The embedding binary performs each HTTP POST and
//! hands the observed event back.

use vstd::prelude::*;

use crate::config::Hook;
use crate::config::hook_url;
use crate::executor::ExecutionResult;
use crate::executor::ExecutionResultView;
use crate::executor::program_exit_code;
use crate::webhook::FeishuMessage;
use crate::webhook::message_text;
use crate::webhook::payload_json;

verus! {

/// One outbound delivery: the URL to POST to and the JSON body to send.
pub struct DeliveryRequest {
    pub url: String,
    pub body: String,
}

/// What the embedding binary observed of one delivery attempt.
#[derive(Debug)]
pub enum DeliveryEvent {
    /// The HTTP round trip finished with this response status code.
    HttpStatus(u16),
    /// The HTTP round trip failed before any status arrived; the text
    /// describes the transport failure.
    TransportFailure(String),
}

/// The recorded outcome of one delivery attempt.
#[derive(Debug, PartialEq, Eq)]
pub enum DeliveryOutcome {
    /// The endpoint answered with a success status.
    Delivered,
    /// The endpoint answered, but with a status outside the success range.
    RejectedStatus(u16),
    /// The HTTP round trip failed in transport; the text describes how.
    TransportFailed(String),
}

/// Whether an HTTP response status counts as a delivered notification.
pub open spec fn spec_is_success_status(status: u16) -> bool {
    200 <= status < 300
}

/// The outcome one delivery event comes to: any status in the success range
/// is a delivery, anything else a failure carrying the status code or the
/// transport error.
pub open spec fn classify(e: DeliveryEvent) -> DeliveryOutcome {
    match e {
        DeliveryEvent::HttpStatus(s) => if spec_is_success_status(s) {
            DeliveryOutcome::Delivered
        } else {
            DeliveryOutcome::RejectedStatus(s)
        },
        DeliveryEvent::TransportFailure(m) => DeliveryOutcome::TransportFailed(m),
    }
}

/// Whether an HTTP response status counts as a delivered notification.
pub fn is_success_status(status: u16) -> (r: bool)
    ensures
        r == spec_is_success_status(status),
{
    200 <= status && status < 300
}

/// The outcome one delivery event comes to.
pub fn classify_event(event: DeliveryEvent) -> (r: DeliveryOutcome)
    ensures
        r == classify(event),
{
    match event {
        DeliveryEvent::HttpStatus(s) => {
            if is_success_status(s) {
                DeliveryOutcome::Delivered
            } else {
                DeliveryOutcome::RejectedStatus(s)
            }
        },
        DeliveryEvent::TransportFailure(m) => DeliveryOutcome::TransportFailed(m),
    }
}

/// The mathematical state of a dispatch: the URLs of the hooks to notify,
/// the result they are notified about, and the outcomes recorded so far.
#[verifier::ext_equal]
pub struct DispatchState {
    pub hook_urls: Seq<Seq<char>>,
    pub result: ExecutionResultView,
    pub outcomes: Seq<DeliveryOutcome>,
}

/// The notification dispatcher: the resolved hooks in the order the command
/// lists them, the immutable result of the invocation, and the outcome of
/// every delivery attempted so far.
pub struct Dispatcher {
    pub hooks: Vec<Hook>,
    pub result: ExecutionResult,
    pub outcomes: Vec<DeliveryOutcome>,
}

impl View for Dispatcher {
    type V = DispatchState;

    open spec fn view(&self) -> DispatchState {
        DispatchState {
            hook_urls: self.hooks@.map_values(|h: Hook| hook_url(h)),
            result: self.result@,
            outcomes: self.outcomes@,
        }
    }
}

impl Dispatcher {
    /// Every hook has been attempted.
    pub open spec fn complete(&self) -> bool {
        self.outcomes@.len() == self.hooks@.len()
    }

    /// The outcomes recorded never outnumber the hooks.
    pub open spec fn wf(&self) -> bool {
        self.outcomes@.len() <= self.hooks@.len()
    }

    /// Start a dispatch of `result` to `hooks`, nothing attempted yet.
    pub fn new(hooks: Vec<Hook>, result: ExecutionResult) -> (d: Dispatcher)
        ensures
            d.hooks@ == hooks@,
            d.result@ == result@,
            d.outcomes@ == Seq::<DeliveryOutcome>::empty(),
            d.wf(),
    {
        let d = Dispatcher { hooks, result, outcomes: Vec::new() };
        proof {
            assert(d.outcomes@ =~= Seq::<DeliveryOutcome>::empty());
        }
        d
    }

    /// Every hook attempted?
    pub fn is_complete(&self) -> (r: bool)
        ensures
            r == self.complete(),
    {
        self.outcomes.len() == self.hooks.len()
    }

    /// The next delivery to attempt: one HTTP POST of the rendered payload
    /// to the next hook in list order.
    pub fn next_request(&self) -> (r: DeliveryRequest)
        requires
            self.wf(),
            !self.complete(),
        ensures
            r.url@ == self@.hook_urls[self@.outcomes.len() as int],
            r.body@ == payload_json(message_text(self@.result)),
    {
        let i = self.outcomes.len();
        let url = match &self.hooks[i] {
            Hook::Feishu(f) => f.webhook_url.clone(),
        };
        let m = FeishuMessage::from_result(&self.result);
        let body = m.to_json_body();
        DeliveryRequest { url, body }
    }

    /// Record what one delivery attempt came to, and move on to the next
    /// hook. Every event advances the dispatch by exactly its own outcome:
    /// a failed delivery never stops the remaining hooks, and nothing here
    /// touches the execution result.
    pub fn record(&mut self, event: DeliveryEvent)
        requires
            old(self).wf(),
            !old(self).complete(),
        ensures
            final(self)@ == step(old(self)@, event),
            final(self).hooks@ == old(self).hooks@,
            final(self).result@ == old(self).result@,
            final(self).outcomes@ == old(self).outcomes@.push(classify(event)),
            final(self).wf(),
    {
        let ghost pre = self@;
        let outcome = classify_event(event);
        self.outcomes.push(outcome);
        proof {
            assert(self@ =~~= step(pre, event));
        }
    }
}

/// One dispatch step: the event's own outcome is appended; the hooks and
/// the result stay as they are.
pub open spec fn step(s: DispatchState, e: DeliveryEvent) -> DispatchState {
    DispatchState { outcomes: s.outcomes.push(classify(e)), ..s }
}

/// The state after a whole sequence of delivery events, first event first.
pub open spec fn run(s: DispatchState, events: Seq<DeliveryEvent>) -> DispatchState
    decreases events.len(),
{
    if events.len() == 0 {
        s
    } else {
        run(step(s, events[0]), events.drop_first())
    }
}

/// The outcomes a sequence of delivery events comes to: one per event, in
/// order, each the classification of its own event alone.
pub open spec fn outcomes_of(events: Seq<DeliveryEvent>) -> Seq<DeliveryOutcome> {
    events.map_values(|e: DeliveryEvent| classify(e))
}

/// Hooks are dispatched in the exact order listed, and failures are
/// isolated per hook: however a run of the dispatcher goes, every event —
/// failed deliveries included — appends exactly its own outcome, so a
/// failure at one hook never prevents or alters the attempts at the hooks
/// after it, and neither the hook list nor the result is ever changed.
pub proof fn lemma_dispatch_isolation(s: DispatchState, events: Seq<DeliveryEvent>)
    ensures
        run(s, events).hook_urls == s.hook_urls,
        run(s, events).result == s.result,
        run(s, events).outcomes == s.outcomes + outcomes_of(events),
    decreases events.len(),
{
    if events.len() == 0 {
        assert(s.outcomes + outcomes_of(events) =~= s.outcomes);
    } else {
        let s1 = step(s, events[0]);
        lemma_dispatch_isolation(s1, events.drop_first());
        assert(outcomes_of(events.drop_first()) =~= outcomes_of(events).drop_first());
        assert(s1.outcomes + outcomes_of(events.drop_first()) =~= s.outcomes + outcomes_of(
            events,
        ));
    }
}

/// Dispatch never changes the program's final exit code: after any sequence
/// of delivery events, successful or failed, the exit code derived from the
/// result is the one derived before dispatch began. Only the child's own
/// result determines it.
pub proof fn lemma_dispatch_preserves_exit_code(s: DispatchState, events: Seq<DeliveryEvent>)
    ensures
        program_exit_code(run(s, events).result) == program_exit_code(s.result),
{
    lemma_dispatch_isolation(s, events);
}

} // verus!
