//! Publishing capability events to the subscriptions of a scope, with
//! retries, dead letters and replay.
//!
//! Payloads are carried as JSON text. Reading and appending the event,
//! delivery and dead-letter logs, reading payload schemas, minting ids and
//! reading the clock are the caller's part; this module selects the topic
//! and the subscriptions, checks payloads against their schemas, serves the
//! subscriptions one by one through a [`CapabilityEventRunner`], and builds
//! the records and the report.
use vstd::prelude::*;
use crate::text::{owned, concat, trim, chars_vec, string_of, trim_bounds, prefix_until, lemma_prefix_until};
use crate::paths::{join_path, join};
use crate::capability_runtime::{
    OperatorContext, ResolvedTopicRecord, ResolvedSubscriptionRecord, clone_opt, opt_view,
};

verus! {

/// The result of running a capability flow.
pub struct FlowOutcome {
    pub success: bool,
    pub error: Option<String>,
}

/// What invokes a subscriber's capability.
pub trait CapabilityEventRunner {
    /// Whether `r` is a result this runner may give when asked to invoke
    /// operation `op` of capability `cap_id` with `payload` in `ctx`. A runner
    /// that does not define it promises nothing of its results; code generic
    /// over the runner never assumes more of it than the runner defines.
    open spec fn invokes(
        &self,
        cap_id: Seq<char>,
        op: Seq<char>,
        payload: Seq<u8>,
        ctx: OperatorContext,
        r: Result<FlowOutcome, String>,
    ) -> bool {
        true
    }

    fn invoke_capability(
        &self,
        cap_id: &str,
        op: &str,
        payload_bytes: &[u8],
        ctx: &OperatorContext,
    ) -> (r: Result<FlowOutcome, String>)
        ensures
            self.invokes(cap_id@, op@, payload_bytes@, *ctx, r),
    ;
}

/// An event as it is logged.
pub struct CapabilityEventEnvelope {
    pub event_id: String,
    pub topic: String,
    pub event_type: String,
    /// JSON text of the payload.
    pub payload: String,
    pub correlation_id: Option<String>,
    pub source: Option<String>,
    pub published_at_unix_ms: u64,
}

/// A request to publish an event.
pub struct PublishEventRequest {
    pub topic: String,
    pub event_type: Option<String>,
    /// JSON text of the payload.
    pub payload: String,
    pub correlation_id: Option<String>,
    pub source: Option<String>,
}

/// One delivery of an event to a subscription, successful or not.
pub struct CapabilityDeliveryRecord {
    pub delivery_id: String,
    pub event_id: String,
    pub subscription_id: String,
    pub capability_id: String,
    pub op: String,
    pub status: String,
    pub attempts: u32,
    pub error: Option<String>,
    pub delivered_at_unix_ms: u64,
}

/// A delivery that failed on every attempt.
pub struct CapabilityDeadLetterRecord {
    pub delivery_id: String,
    pub event: CapabilityEventEnvelope,
    pub subscription_id: String,
    pub capability_id: String,
    pub op: String,
    pub attempts: u32,
    pub error: String,
    pub failed_at_unix_ms: u64,
}

/// The logs of a scope's capability events.
pub struct EventLogPaths {
    pub events: String,
    pub deliveries: String,
    pub dead_letters: String,
}

/// The log files in the capability state directory of a scope:
/// `events.jsonl`, `deliveries.jsonl` and `dlq.jsonl`.
pub fn event_log_paths(state_dir: &str) -> (r: EventLogPaths)
    ensures
        r.events@ == join_path(state_dir@, "events.jsonl"@),
        r.deliveries@ == join_path(state_dir@, "deliveries.jsonl"@),
        r.dead_letters@ == join_path(state_dir@, "dlq.jsonl"@),
{
    EventLogPaths {
        events: join(state_dir, "events.jsonl"),
        deliveries: join(state_dir, "deliveries.jsonl"),
        dead_letters: join(state_dir, "dlq.jsonl"),
    }
}

/// Counts of one publication.
#[derive(Debug, PartialEq, Eq, Structural)]
pub struct PublishReport {
    pub matched_subscriptions: usize,
    pub successful_deliveries: usize,
    pub failed_deliveries: usize,
}

impl Default for PublishReport {
    fn default() -> (r: Self)
        ensures r.matched_subscriptions == 0, r.successful_deliveries == 0, r.failed_deliveries == 0,
    {
        PublishReport { matched_subscriptions: 0, successful_deliveries: 0, failed_deliveries: 0 }
    }
}

/// Why a publication or a replay was refused.
pub enum PublishError {
    /// No topic of the scope has the requested name (and event type).
    TopicNotDefined { topic: String },
    /// A replay named a dead letter that is not in the log.
    DeadLetterNotFound { delivery_id: String },
    /// A replay named an event that is not in the log.
    EventNotFound { event_id: String },
    /// A replay named neither an event nor a dead letter.
    ReplayTargetMissing,
    /// The runner failed to invoke a capability.
    Runner { message: String },
    /// The payload does not satisfy the schema of the topic it is published on.
    InvalidEventPayload { topic: String },
    /// The payload does not satisfy the schema of a subscription.
    InvalidSubscriptionPayload { subscription_id: String },
    /// The payload text is not JSON.
    PayloadNotJson,
}

impl PublishError {
    /// The text of the error.
    pub fn message(&self) -> (r: String)
        ensures
            r@ == match self {
                PublishError::TopicNotDefined { topic } => "topic "@ + topic@ + " is not defined in current scope"@,
                PublishError::DeadLetterNotFound { delivery_id } => "dlq delivery "@ + delivery_id@ + " not found"@,
                PublishError::EventNotFound { event_id } => "event "@ + event_id@ + " not found"@,
                PublishError::ReplayTargetMissing => "either event_id or delivery_id is required for replay"@,
                PublishError::Runner { message } => message@,
                PublishError::InvalidEventPayload { topic } => "invalid event payload for topic "@ + topic@,
                PublishError::InvalidSubscriptionPayload { subscription_id } =>
                    "invalid payload for subscription "@ + subscription_id@,
                PublishError::PayloadNotJson => "event payload is not JSON"@,
            },
    {
        match self {
            PublishError::TopicNotDefined { topic } => {
                let mut r = concat("topic ", topic.as_str());
                r.append(" is not defined in current scope");
                r
            },
            PublishError::DeadLetterNotFound { delivery_id } => {
                let mut r = concat("dlq delivery ", delivery_id.as_str());
                r.append(" not found");
                r
            },
            PublishError::EventNotFound { event_id } => {
                let mut r = concat("event ", event_id.as_str());
                r.append(" not found");
                r
            },
            PublishError::ReplayTargetMissing => owned("either event_id or delivery_id is required for replay"),
            PublishError::Runner { message } => message.clone(),
            PublishError::InvalidEventPayload { topic } => concat("invalid event payload for topic ", topic.as_str()),
            PublishError::InvalidSubscriptionPayload { subscription_id } =>
                concat("invalid payload for subscription ", subscription_id.as_str()),
            PublishError::PayloadNotJson => owned("event payload is not JSON"),
        }
    }
}

/// The string found at JSON pointer `pointer` in the JSON text `payload`
/// (`serde_json::Value::pointer`, then `as_str`); `None` when the text is not
/// JSON, nothing is at the pointer, or what is there is not a string.
pub uninterp spec fn json_pointer_string(payload: Seq<char>, pointer: Seq<char>) -> Option<Seq<char>>;

/// Looks up the string at `pointer` in the JSON text `payload`: the text is
/// read with `serde_json::from_str`, then `serde_json::Value::pointer` and
/// `as_str` are applied. Claims that the result is
/// `json_pointer_string` of the two texts, and, as the source of `pointer`
/// shows, that a non-empty pointer that does not start with `/` finds nothing.
#[verifier::external_body]
fn json_pointer_text(payload: &str, pointer: &str) -> (r: Option<String>)
    ensures
        opt_view(r) == json_pointer_string(payload@, pointer@),
        pointer@.len() > 0 && pointer@[0] != '/' ==> r is None,
{
    let value: serde_json::Value = match serde_json::from_str(payload) {
        Ok(v) => v,
        Err(_) => return None,
    };
    value.pointer(pointer).and_then(|found| found.as_str()).map(|s| s.to_string())
}

pub open spec fn topic_selected(t: ResolvedTopicRecord, req: PublishEventRequest) -> bool {
    t.topic@ == req.topic@ && match req.event_type {
        Some(et) => et@ == t.event_type@,
        None => true,
    }
}

/// The topic a request is published on: the first of `topics` with the
/// requested name and, when the request names one, event type.
pub fn find_topic(topics: &[ResolvedTopicRecord], request: &PublishEventRequest) -> (r: Result<usize, PublishError>)
    ensures
        match r {
            Ok(i) => i < topics@.len() && topic_selected(topics@[i as int], *request)
                && forall|j: int| 0 <= j < i ==> !topic_selected(#[trigger] topics@[j], *request),
            Err(e) => e matches PublishError::TopicNotDefined { topic } && topic@ == request.topic@
                && forall|j: int| 0 <= j < topics@.len() ==> !topic_selected(#[trigger] topics@[j], *request),
        },
{
    let mut i: usize = 0;
    while i < topics.len()
        invariant
            i <= topics@.len(),
            forall|j: int| 0 <= j < i ==> !topic_selected(#[trigger] topics@[j], *request),
        decreases topics.len() - i,
    {
        let t = &topics[i];
        if t.topic == request.topic {
            let type_ok = match &request.event_type {
                Some(et) => *et == t.event_type,
                None => true,
            };
            if type_ok {
                return Ok(i);
            }
        }
        i = i + 1;
    }
    Err(PublishError::TopicNotDefined { topic: request.topic.clone() })
}

pub open spec fn filter_passes(s: ResolvedSubscriptionRecord, payload: Seq<char>) -> bool {
    match s.filter_json_pointer {
        None => true,
        Some(p) => match s.filter_equals {
            None => true,
            Some(expected) => json_pointer_string(payload, p@) == Some(expected@),
        },
    }
}

pub open spec fn subscription_selected(
    s: ResolvedSubscriptionRecord,
    topic: Seq<char>,
    event_type: Seq<char>,
    only: Option<Seq<char>>,
    payload: Seq<char>,
) -> bool {
    &&& s.topic@ == topic
    &&& s.event_type@ == event_type
    &&& match only { Some(id) => id == s.subscription_id@, None => true }
    &&& filter_passes(s, payload)
}

/// The indices `i < n` of the subscriptions selected, in increasing order.
pub open spec fn selected_indices(
    subs: Seq<ResolvedSubscriptionRecord>,
    n: int,
    topic: Seq<char>,
    event_type: Seq<char>,
    only: Option<Seq<char>>,
    payload: Seq<char>,
) -> Seq<usize>
    decreases n,
{
    if n <= 0 {
        Seq::empty()
    } else {
        let prev = selected_indices(subs, n - 1, topic, event_type, only, payload);
        if subscription_selected(subs[n - 1], topic, event_type, only, payload) {
            prev.push((n - 1) as usize)
        } else {
            prev
        }
    }
}

/// Whether a subscription's payload filter lets `payload` through: without
/// a pointer or an expected value it does; otherwise the pointer must find a
/// string equal to the expected value.
pub fn matches_filter(subscription: &ResolvedSubscriptionRecord, payload: &str) -> (r: bool)
    ensures r == filter_passes(*subscription, payload@),
{
    match &subscription.filter_json_pointer {
        None => true,
        Some(pointer) => match &subscription.filter_equals {
            None => true,
            Some(expected) => match json_pointer_text(payload, pointer.as_str()) {
                Some(found) => found == *expected,
                None => false,
            },
        },
    }
}

/// The subscriptions an event on `topic`/`event_type` is delivered to, by
/// index: those on the same topic and event type, restricted to
/// `only_subscription_id` when given, whose filter lets the payload through.
pub fn select_subscriptions(
    subscriptions: &[ResolvedSubscriptionRecord],
    topic: &String,
    event_type: &String,
    only_subscription_id: &Option<String>,
    payload: &String,
) -> (r: Vec<usize>)
    ensures
        r@ == selected_indices(subscriptions@, subscriptions@.len() as int, topic@, event_type@, opt_view(*only_subscription_id), payload@),
{
    let ghost only = opt_view(*only_subscription_id);
    let mut r: Vec<usize> = Vec::new();
    let mut i: usize = 0;
    while i < subscriptions.len()
        invariant
            i <= subscriptions@.len(),
            only == opt_view(*only_subscription_id),
            r@ == selected_indices(subscriptions@, i as int, topic@, event_type@, only, payload@),
        decreases subscriptions.len() - i,
    {
        let s = &subscriptions[i];
        let only_ok = match only_subscription_id {
            Some(id) => *id == s.subscription_id,
            None => true,
        };
        if s.topic == *topic && s.event_type == *event_type && only_ok && matches_filter(s, payload.as_str()) {
            r.push(i);
        }
        i = i + 1;
    }
    r
}

/// The event id of a replay of dead letter `delivery_id`.
pub fn replay_event_id(delivery_id: &str) -> (r: String)
    ensures r@ == "replay-"@ + delivery_id@,
{
    concat("replay-", delivery_id)
}

/// What the caller does to publish: the topic, the subscriptions to deliver
/// to, and the event id when it is fixed (a replay); otherwise the caller
/// mints a fresh one.
pub struct PublishPlan {
    pub topic_index: usize,
    pub subscription_indices: Vec<usize>,
    pub event_id: Option<String>,
}

/// Plans the publication of `request` on `topics` to `subscriptions`.
pub fn plan_publication(
    topics: &[ResolvedTopicRecord],
    subscriptions: &[ResolvedSubscriptionRecord],
    request: &PublishEventRequest,
    only_subscription_id: &Option<String>,
    replay_delivery_id: &Option<String>,
) -> (r: Result<PublishPlan, PublishError>)
    ensures
        match r {
            Ok(plan) => {
                &&& plan.topic_index < topics@.len()
                &&& topic_selected(topics@[plan.topic_index as int], *request)
                &&& forall|j: int| 0 <= j < plan.topic_index ==> !topic_selected(#[trigger] topics@[j], *request)
                &&& plan.subscription_indices@ == selected_indices(
                        subscriptions@, subscriptions@.len() as int,
                        topics@[plan.topic_index as int].topic@, topics@[plan.topic_index as int].event_type@,
                        opt_view(*only_subscription_id), request.payload@)
                &&& match replay_delivery_id {
                        Some(d) => plan.event_id is Some && plan.event_id->0@ == "replay-"@ + d@,
                        None => plan.event_id is None,
                    }
            },
            Err(e) => e matches PublishError::TopicNotDefined { topic } && topic@ == request.topic@
                && forall|j: int| 0 <= j < topics@.len() ==> !topic_selected(#[trigger] topics@[j], *request),
        },
{
    let ti = find_topic(topics, request)?;
    let topic = &topics[ti];
    let indices = select_subscriptions(subscriptions, &topic.topic, &topic.event_type, only_subscription_id, &request.payload);
    let event_id = match replay_delivery_id {
        Some(d) => Some(replay_event_id(d.as_str())),
        None => None,
    };
    Ok(PublishPlan { topic_index: ti, subscription_indices: indices, event_id })
}

/// The envelope of an event published on `topic` at `now_ms`.
pub fn make_envelope(topic: &ResolvedTopicRecord, request: PublishEventRequest, event_id: String, now_ms: u64) -> (r: CapabilityEventEnvelope)
    ensures
        r.event_id == event_id,
        r.topic == topic.topic,
        r.event_type == topic.event_type,
        r.payload == request.payload,
        r.correlation_id == request.correlation_id,
        r.source == request.source,
        r.published_at_unix_ms == now_ms,
{
    CapabilityEventEnvelope {
        event_id,
        topic: topic.topic.clone(),
        event_type: topic.event_type.clone(),
        payload: request.payload,
        correlation_id: request.correlation_id,
        source: request.source,
        published_at_unix_ms: now_ms,
    }
}

/// The number of attempts a subscription gets: its `max_attempts`, at least one.
pub open spec fn attempt_limit(s: ResolvedSubscriptionRecord) -> u32 {
    if s.max_attempts < 1 { 1 } else { s.max_attempts }
}

/// How a delivery ended.
pub enum DeliveryOutcome {
    /// The capability succeeded on attempt `attempts`.
    Delivered { attempts: u32 },
    /// Every attempt failed; `error` is what the last one reported.
    Failed { attempts: u32, error: String },
}

/// What follows one attempt.
pub enum AttemptStep {
    Stop(DeliveryOutcome),
    Retry,
}

pub open spec fn failure_text(outcome: FlowOutcome) -> Seq<char> {
    match outcome.error {
        Some(e) => e@,
        None => "capability invocation failed"@,
    }
}

/// Decides what follows attempt number `attempt` (counting from 1) out of
/// `limit`, given what the capability returned.
pub fn after_attempt(attempt: u32, limit: u32, outcome: FlowOutcome) -> (r: AttemptStep)
    ensures
        outcome.success ==> r == AttemptStep::Stop(DeliveryOutcome::Delivered { attempts: attempt }),
        !outcome.success && attempt < limit ==> r is Retry,
        !outcome.success && attempt >= limit ==> (r matches AttemptStep::Stop(DeliveryOutcome::Failed { attempts, error })
            && attempts == limit && error@ == failure_text(outcome)),
{
    if outcome.success {
        AttemptStep::Stop(DeliveryOutcome::Delivered { attempts: attempt })
    } else if attempt < limit {
        AttemptStep::Retry
    } else {
        let error = match outcome.error {
            Some(e) => e,
            None => owned("capability invocation failed"),
        };
        AttemptStep::Stop(DeliveryOutcome::Failed { attempts: limit, error })
    }
}

/// Whether `outs` are the results of the invocations of one delivery to
/// `s`: at least one and at most its attempt limit, each one a result the
/// runner may give for the subscription's capability and operation with
/// `payload` in `ctx`, and every one but the last an unsuccessful outcome.
pub open spec fn delivery_trace<R: CapabilityEventRunner>(
    runner: R,
    s: ResolvedSubscriptionRecord,
    payload: Seq<u8>,
    ctx: OperatorContext,
    outs: Seq<Result<FlowOutcome, String>>,
) -> bool {
    &&& 1 <= outs.len() <= attempt_limit(s)
    &&& forall|i: int| 0 <= i < outs.len() ==> #[trigger] runner.invokes(s.capability_id@, s.op@, payload, ctx, outs[i])
    &&& forall|i: int| 0 <= i < outs.len() - 1 ==> (#[trigger] outs[i] matches Ok(o) && !o.success)
    &&& (outs.last() matches Ok(o) && !o.success) ==> outs.len() == attempt_limit(s)
}

/// What a delivery ends with, given the results `outs` of its invocations:
/// the runner's error, a success on the last attempt, or the failure of the
/// last attempt with its error text.
pub open spec fn delivery_ends_with(
    outs: Seq<Result<FlowOutcome, String>>,
    r: Result<DeliveryOutcome, PublishError>,
) -> bool {
    match outs.last() {
        Err(m) => r matches Err(PublishError::Runner { message }) && message@ == m@,
        Ok(o) => if o.success {
            r matches Ok(DeliveryOutcome::Delivered { attempts }) && attempts == outs.len()
        } else {
            r matches Ok(DeliveryOutcome::Failed { attempts, error })
                && attempts == outs.len() && error@ == failure_text(o)
        },
    }
}

/// Delivers the payload to one subscription: invokes the subscription's
/// capability and operation with `payload_bytes` in `ctx`, again after each
/// unsuccessful outcome until one succeeds or the subscription's attempts
/// run out. An error of the runner itself ends the delivery with that error.
pub fn deliver<R: CapabilityEventRunner>(
    runner: &R,
    ctx: &OperatorContext,
    subscription: &ResolvedSubscriptionRecord,
    payload_bytes: &[u8],
) -> (r: Result<DeliveryOutcome, PublishError>)
    ensures
        exists|outs: Seq<Result<FlowOutcome, String>>|
            delivery_trace(*runner, *subscription, payload_bytes@, *ctx, outs)
            && #[trigger] delivery_ends_with(outs, r),
        match r {
            Ok(DeliveryOutcome::Delivered { attempts }) => 1 <= attempts <= attempt_limit(*subscription),
            Ok(DeliveryOutcome::Failed { attempts, error }) => attempts == attempt_limit(*subscription),
            Err(e) => e is Runner,
        },
{
    let limit: u32 = if subscription.max_attempts < 1 { 1 } else { subscription.max_attempts };
    let mut attempts: u32 = 0;
    let ghost mut outs: Seq<Result<FlowOutcome, String>> = Seq::empty();
    loop
        invariant
            limit == attempt_limit(*subscription),
            attempts < limit,
            outs.len() == attempts,
            forall|i: int| 0 <= i < outs.len() ==> #[trigger] runner.invokes(subscription.capability_id@, subscription.op@, payload_bytes@, *ctx, outs[i]),
            forall|i: int| 0 <= i < outs.len() ==> (#[trigger] outs[i] matches Ok(o) && !o.success),
        decreases limit - attempts,
    {
        attempts = attempts + 1;
        let res = runner.invoke_capability(
            subscription.capability_id.as_str(),
            subscription.op.as_str(),
            payload_bytes,
            ctx,
        );
        let ghost res_view = res;
        proof { outs = outs.push(res_view); }
        let outcome = match res {
            Ok(o) => o,
            Err(message) => {
                let r: Result<DeliveryOutcome, PublishError> = Err(PublishError::Runner { message });
                assert(outs.last() == res_view);
                assert(delivery_trace(*runner, *subscription, payload_bytes@, *ctx, outs));
                assert(delivery_ends_with(outs, r));
                return r;
            },
        };
        let ghost o = outcome;
        match after_attempt(attempts, limit, outcome) {
            AttemptStep::Stop(done) => {
                let r: Result<DeliveryOutcome, PublishError> = Ok(done);
                assert(outs.last() == Ok::<FlowOutcome, String>(o));
                assert(delivery_trace(*runner, *subscription, payload_bytes@, *ctx, outs));
                assert(delivery_ends_with(outs, r));
                return r;
            },
            AttemptStep::Retry => {},
        }
    }
}

pub open spec fn delivery_record_spec(
    rec: CapabilityDeliveryRecord,
    outcome: DeliveryOutcome,
    envelope: CapabilityEventEnvelope,
    s: ResolvedSubscriptionRecord,
    delivery_id: String,
    now_ms: u64,
) -> bool {
    &&& rec.delivery_id == delivery_id
    &&& rec.event_id == envelope.event_id
    &&& rec.subscription_id == s.subscription_id
    &&& rec.capability_id == s.capability_id
    &&& rec.op == s.op
    &&& rec.delivered_at_unix_ms == now_ms
    &&& match outcome {
        DeliveryOutcome::Delivered { attempts } =>
            rec.status@ == "ok"@ && rec.attempts == attempts && rec.error is None,
        DeliveryOutcome::Failed { attempts, error } =>
            rec.status@ == "err"@ && rec.attempts == attempts && rec.error == Some(error),
    }
}

/// The delivery log record of a delivery.
pub fn delivery_record(
    outcome: &DeliveryOutcome,
    envelope: &CapabilityEventEnvelope,
    subscription: &ResolvedSubscriptionRecord,
    delivery_id: String,
    now_ms: u64,
) -> (r: CapabilityDeliveryRecord)
    ensures delivery_record_spec(r, *outcome, *envelope, *subscription, delivery_id, now_ms),
{
    let (status, attempts, error) = match outcome {
        DeliveryOutcome::Delivered { attempts } => (owned("ok"), *attempts, None),
        DeliveryOutcome::Failed { attempts, error } => (owned("err"), *attempts, Some(error.clone())),
    };
    CapabilityDeliveryRecord {
        delivery_id,
        event_id: envelope.event_id.clone(),
        subscription_id: subscription.subscription_id.clone(),
        capability_id: subscription.capability_id.clone(),
        op: subscription.op.clone(),
        status,
        attempts,
        error,
        delivered_at_unix_ms: now_ms,
    }
}

/// A copy of an envelope.
pub fn clone_envelope(e: &CapabilityEventEnvelope) -> (r: CapabilityEventEnvelope)
    ensures r == *e,
{
    CapabilityEventEnvelope {
        event_id: e.event_id.clone(),
        topic: e.topic.clone(),
        event_type: e.event_type.clone(),
        payload: e.payload.clone(),
        correlation_id: clone_opt(&e.correlation_id),
        source: clone_opt(&e.source),
        published_at_unix_ms: e.published_at_unix_ms,
    }
}

/// The dead letter of a delivery whose attempts all failed.
pub fn dead_letter(
    envelope: &CapabilityEventEnvelope,
    subscription: &ResolvedSubscriptionRecord,
    delivery_id: String,
    attempts: u32,
    error: String,
    now_ms: u64,
) -> (r: CapabilityDeadLetterRecord)
    ensures
        r.delivery_id == delivery_id,
        r.event == *envelope,
        r.subscription_id == subscription.subscription_id,
        r.capability_id == subscription.capability_id,
        r.op == subscription.op,
        r.attempts == attempts,
        r.error == error,
        r.failed_at_unix_ms == now_ms,
{
    CapabilityDeadLetterRecord {
        delivery_id,
        event: clone_envelope(envelope),
        subscription_id: subscription.subscription_id.clone(),
        capability_id: subscription.capability_id.clone(),
        op: subscription.op.clone(),
        attempts,
        error,
        failed_at_unix_ms: now_ms,
    }
}

/// The report after one more delivery ended with `outcome`.
pub fn count_delivery(report: &PublishReport, outcome: &DeliveryOutcome) -> (r: PublishReport)
    requires
        match outcome {
            DeliveryOutcome::Delivered { .. } => report.successful_deliveries < usize::MAX,
            DeliveryOutcome::Failed { .. } => report.failed_deliveries < usize::MAX,
        },
    ensures
        r.matched_subscriptions == report.matched_subscriptions,
        match outcome {
            DeliveryOutcome::Delivered { .. } =>
                r.successful_deliveries == report.successful_deliveries + 1 && r.failed_deliveries == report.failed_deliveries,
            DeliveryOutcome::Failed { .. } =>
                r.failed_deliveries == report.failed_deliveries + 1 && r.successful_deliveries == report.successful_deliveries,
        },
{
    match outcome {
        DeliveryOutcome::Delivered { .. } => PublishReport {
            matched_subscriptions: report.matched_subscriptions,
            successful_deliveries: report.successful_deliveries + 1,
            failed_deliveries: report.failed_deliveries,
        },
        DeliveryOutcome::Failed { .. } => PublishReport {
            matched_subscriptions: report.matched_subscriptions,
            successful_deliveries: report.successful_deliveries,
            failed_deliveries: report.failed_deliveries + 1,
        },
    }
}

// ----- payload schemas -----------------------------------------------------

/// Whether the JSON text `payload` satisfies the JSON Schema text `schema`,
/// as `jsonschema` validates it (draft detected from the schema); false when
/// either text is not JSON or the schema does not compile.
pub uninterp spec fn schema_valid(schema: Seq<char>, payload: Seq<char>) -> bool;

/// Validates the JSON text `payload_json` against the JSON Schema text
/// `schema_json`: both are read with `serde_json::from_str`, the schema is
/// compiled with `jsonschema::validator_for` and the payload checked with
/// `Validator::validate`. Claims that it succeeds exactly when
/// `schema_valid` holds of the two texts; the error is the refusal's text.
#[verifier::external_body]
fn validate_payload(schema_json: &str, payload_json: &str) -> (r: Result<(), String>)
    ensures
        (r is Ok) == schema_valid(schema_json@, payload_json@),
{
    let schema: serde_json::Value = serde_json::from_str(schema_json).map_err(|e| e.to_string())?;
    let payload: serde_json::Value = serde_json::from_str(payload_json).map_err(|e| e.to_string())?;
    let validator = jsonschema::validator_for(&schema).map_err(|e| e.to_string())?;
    validator.validate(&payload).map_err(|e| e.to_string())
}

/// Checks an event's payload (JSON text) against the schema of its topic;
/// `schema` is the text of the topic's payload schema when it has one.
pub fn check_topic_payload(topic: &ResolvedTopicRecord, schema: Option<&str>, payload: &str) -> (r: Result<(), PublishError>)
    ensures
        match schema {
            None => r is Ok,
            Some(t) => if schema_valid(t@, payload@) {
                r is Ok
            } else {
                r matches Err(PublishError::InvalidEventPayload { topic: name }) && name@ == topic.topic@
            },
        },
{
    match schema {
        None => Ok(()),
        Some(t) => match validate_payload(t, payload) {
            Ok(()) => Ok(()),
            Err(_) => Err(PublishError::InvalidEventPayload { topic: topic.topic.clone() }),
        },
    }
}

/// The bytes handed to a subscriber for the JSON text `payload`: the JSON
/// value it holds, serialised compactly (`serde_json::to_vec`); none when the
/// text is not JSON.
pub uninterp spec fn json_compact_bytes(payload: Seq<char>) -> Option<Seq<u8>>;

/// Serialises the JSON value of the text `payload` compactly: the text is
/// read with `serde_json::from_str` and written with `serde_json::to_vec`.
/// Claims that the result is `json_compact_bytes` of the text.
#[verifier::external_body]
fn compact_payload(payload: &str) -> (r: Option<Vec<u8>>)
    ensures
        match r {
            Some(b) => json_compact_bytes(payload@) == Some(b@),
            None => json_compact_bytes(payload@) is None,
        },
{
    let value: serde_json::Value = serde_json::from_str(payload).ok()?;
    serde_json::to_vec(&value).ok()
}

// ----- serving the subscriptions ------------------------------------------

/// Where a publication stands: how many of the planned subscriptions were
/// served, and the report so far.
pub struct PublishState {
    pub served: usize,
    pub report: PublishReport,
}

/// Every served subscription counted once, as a success or as a failure,
/// and no more served than matched.
pub open spec fn publish_state_ok(st: PublishState) -> bool {
    &&& st.served <= st.report.matched_subscriptions
    &&& st.report.successful_deliveries + st.report.failed_deliveries == st.served
}

/// The state before the first subscription of `plan` is served: all of
/// them matched, none served.
pub fn publish_start(plan: &PublishPlan) -> (r: PublishState)
    ensures
        r.served == 0,
        r.report.matched_subscriptions == plan.subscription_indices@.len(),
        r.report.successful_deliveries == 0,
        r.report.failed_deliveries == 0,
        publish_state_ok(r),
{
    PublishState {
        served: 0,
        report: PublishReport {
            matched_subscriptions: plan.subscription_indices.len(),
            successful_deliveries: 0,
            failed_deliveries: 0,
        },
    }
}

/// One subscription served: the outcome of its delivery, the state after
/// it, and the records to append to the delivery log and, for a failed
/// delivery, to the dead-letter log.
pub struct PublishStep {
    pub state: PublishState,
    pub outcome: DeliveryOutcome,
    pub delivery: CapabilityDeliveryRecord,
    pub dead_letter: Option<CapabilityDeadLetterRecord>,
}

/// Whether `d` is the dead letter of `envelope` for `s`.
pub open spec fn dead_letter_spec(
    d: CapabilityDeadLetterRecord,
    envelope: CapabilityEventEnvelope,
    s: ResolvedSubscriptionRecord,
    delivery_id: String,
    attempts: u32,
    error: String,
    now_ms: u64,
) -> bool {
    &&& d.delivery_id == delivery_id
    &&& d.event == envelope
    &&& d.subscription_id == s.subscription_id
    &&& d.capability_id == s.capability_id
    &&& d.op == s.op
    &&& d.attempts == attempts
    &&& d.error == error
    &&& d.failed_at_unix_ms == now_ms
}

/// What serving a subscription ends with, given the results `outs` of its
/// invocations: the runner's error, or a step whose outcome is the one the
/// invocations give.
pub open spec fn step_ends_with(outs: Seq<Result<FlowOutcome, String>>, r: Result<PublishStep, PublishError>) -> bool {
    match outs.last() {
        Err(m) => r matches Err(PublishError::Runner { message }) && message@ == m@,
        Ok(_) => r matches Ok(step) && delivery_ends_with(outs, Ok(step.outcome)),
    }
}

/// Serves the next subscription of a publication: checks the envelope's
/// payload against the subscription's schema (`schema`, its text when it has
/// one), delivers the payload, serialised compactly, and gives the records to
/// log and the report with this delivery counted. A payload that is not
/// JSON, one the schema refuses, or an error of the runner ends the
/// publication with that error.
pub fn publish_step<R: CapabilityEventRunner>(
    runner: &R,
    ctx: &OperatorContext,
    subscription: &ResolvedSubscriptionRecord,
    schema: Option<&str>,
    envelope: &CapabilityEventEnvelope,
    delivery_id: String,
    now_ms: u64,
    state: PublishState,
) -> (r: Result<PublishStep, PublishError>)
    requires
        publish_state_ok(state),
        state.served < state.report.matched_subscriptions,
    ensures
        match json_compact_bytes(envelope.payload@) {
            None => r matches Err(PublishError::PayloadNotJson),
            Some(bytes) => match schema {
                Some(t) if !schema_valid(t@, envelope.payload@) =>
                    r matches Err(PublishError::InvalidSubscriptionPayload { subscription_id: id })
                        && id@ == subscription.subscription_id@,
                _ => exists|outs: Seq<Result<FlowOutcome, String>>|
                    delivery_trace(*runner, *subscription, bytes, *ctx, outs)
                    && #[trigger] step_ends_with(outs, r),
            },
        },
        r matches Ok(step) ==> {
            &&& publish_state_ok(step.state)
            &&& step.state.served == state.served + 1
            &&& step.state.report.matched_subscriptions == state.report.matched_subscriptions
            &&& delivery_record_spec(step.delivery, step.outcome, *envelope, *subscription, delivery_id, now_ms)
            &&& match step.outcome {
                DeliveryOutcome::Delivered { .. } =>
                    step.dead_letter is None
                    && step.state.report.successful_deliveries == state.report.successful_deliveries + 1
                    && step.state.report.failed_deliveries == state.report.failed_deliveries,
                DeliveryOutcome::Failed { attempts, error } =>
                    step.dead_letter matches Some(d)
                    && dead_letter_spec(d, *envelope, *subscription, delivery_id, attempts, error, now_ms)
                    && step.state.report.failed_deliveries == state.report.failed_deliveries + 1
                    && step.state.report.successful_deliveries == state.report.successful_deliveries,
            }
        },
{
    let payload_bytes = match compact_payload(envelope.payload.as_str()) {
        Some(b) => b,
        None => return Err(PublishError::PayloadNotJson),
    };
    match schema {
        Some(t) => match validate_payload(t, envelope.payload.as_str()) {
            Ok(()) => {},
            Err(_) => {
                return Err(PublishError::InvalidSubscriptionPayload {
                    subscription_id: subscription.subscription_id.clone(),
                });
            },
        },
        None => {},
    }
    let delivered = deliver(runner, ctx, subscription, payload_bytes.as_slice());
    let ghost outs = choose|outs: Seq<Result<FlowOutcome, String>>|
        delivery_trace(*runner, *subscription, payload_bytes@, *ctx, outs)
        && #[trigger] delivery_ends_with(outs, delivered);
    let outcome = match delivered {
        Ok(o) => o,
        Err(e) => {
            let r: Result<PublishStep, PublishError> = Err(e);
            assert(step_ends_with(outs, r));
            return r;
        },
    };
    let report = count_delivery(&state.report, &outcome);
    let record = delivery_record(&outcome, envelope, subscription, delivery_id.clone(), now_ms);
    let letter = match &outcome {
        DeliveryOutcome::Failed { attempts, error } =>
            Some(dead_letter(envelope, subscription, delivery_id, *attempts, error.clone(), now_ms)),
        DeliveryOutcome::Delivered { .. } => None,
    };
    let r: Result<PublishStep, PublishError> = Ok(PublishStep {
        state: PublishState { served: state.served + 1, report },
        outcome,
        delivery: record,
        dead_letter: letter,
    });
    assert(step_ends_with(outs, r));
    r
}

// ----- logs ---------------------------------------------------------------

/// The records of a JSON-lines log, in order: each line trimmed, blank
/// lines skipped.
pub open spec fn jsonl_records(s: Seq<char>) -> Seq<Seq<char>>
    decreases s.len(),
{
    let first = prefix_until(s, '\n');
    let rest = if first.len() < s.len() {
        jsonl_records(s.subrange(first.len() as int + 1, s.len() as int))
    } else {
        Seq::empty()
    };
    if trim(first).len() > 0 { seq![trim(first)] + rest } else { rest }
}

/// The records of a JSON-lines log text (see [`jsonl_records`]).
pub fn jsonl_lines(text: &str) -> (r: Vec<String>)
    ensures r@.map_values(|s: String| s@) == jsonl_records(text@),
{
    let v = chars_vec(text);
    let n = v.len();
    let mut out: Vec<String> = Vec::new();
    let mut start: usize = 0;
    proof { assert(v@.subrange(0, n as int) =~= v@); }
    while start < n
        invariant
            v@ == text@,
            n == v@.len(),
            start <= n,
            out@.map_values(|s: String| s@) + jsonl_records(v@.subrange(start as int, n as int)) == jsonl_records(text@),
        decreases n - start,
    {
        let ghost s = v@.subrange(start as int, n as int);
        let mut e: usize = start;
        while e < n && v[e] != '\n'
            invariant
                start <= e <= n == v@.len(),
                forall|k: int| start <= k < e ==> v@[k] != '\n',
            decreases n - e,
        {
            e = e + 1;
        }
        let mut line: Vec<char> = Vec::new();
        let mut i: usize = start;
        while i < e
            invariant
                start <= i <= e <= v@.len(),
                line@ == v@.subrange(start as int, i as int),
            decreases e - i,
        {
            line.push(v[i]);
            i = i + 1;
            assert(line@ =~= v@.subrange(start as int, i as int));
        }
        proof {
            lemma_prefix_until(s, '\n');
            let p = prefix_until(s, '\n');
            if p.len() < e - start {
                assert(s[p.len() as int] == v@[start + p.len()]);
            } else if p.len() > e - start {
                assert(s[e - start] == v@[e as int]);
            }
            assert(p =~= line@);
            if e < n {
                assert(s.subrange(p.len() as int + 1, s.len() as int) =~= v@.subrange(e + 1, n as int));
            }
        }
        let (lo, hi) = trim_bounds(&line);
        let ghost before = out@.map_values(|s: String| s@);
        if lo < hi {
            out.push(string_of(&line, lo, hi));
            assert(out@.map_values(|s: String| s@) =~= before.push(trim(line@)));
        }
        if e == n {
            proof {
                assert(v@.subrange(n as int, n as int) =~= Seq::<char>::empty());
                assert(before + jsonl_records(s) =~= out@.map_values(|s: String| s@) + jsonl_records(v@.subrange(n as int, n as int)));
            }
            start = n;
        } else {
            proof {
                assert(before + jsonl_records(s) =~= out@.map_values(|s: String| s@) + jsonl_records(v@.subrange(e + 1, n as int)));
            }
            start = e + 1;
        }
    }
    proof {
        assert(v@.subrange(n as int, n as int) =~= Seq::<char>::empty());
        assert(out@.map_values(|s: String| s@) + Seq::<Seq<char>>::empty() =~= out@.map_values(|s: String| s@));
    }
    out
}

// ----- replay -------------------------------------------------------------

/// What a replay publishes, and to which subscription.
pub struct ReplayPlan {
    pub request: PublishEventRequest,
    pub only_subscription_id: Option<String>,
    pub replay_delivery_id: Option<String>,
}

pub open spec fn request_of(e: CapabilityEventEnvelope) -> PublishEventRequest {
    PublishEventRequest {
        topic: e.topic,
        event_type: Some(e.event_type),
        payload: e.payload,
        correlation_id: e.correlation_id,
        source: e.source,
    }
}

/// The first dead letter with delivery id `id`.
pub fn find_dead_letter(dead_letters: &[CapabilityDeadLetterRecord], id: &str) -> (r: Option<usize>)
    ensures
        match r {
            Some(i) => i < dead_letters@.len() && dead_letters@[i as int].delivery_id@ == id@
                && forall|j: int| 0 <= j < i ==> #[trigger] dead_letters@[j].delivery_id@ != id@,
            None => forall|j: int| 0 <= j < dead_letters@.len() ==> #[trigger] dead_letters@[j].delivery_id@ != id@,
        },
{
    let mut i: usize = 0;
    while i < dead_letters.len()
        invariant
            i <= dead_letters@.len(),
            forall|j: int| 0 <= j < i ==> #[trigger] dead_letters@[j].delivery_id@ != id@,
        decreases dead_letters.len() - i,
    {
        if crate::text::str_eq(dead_letters[i].delivery_id.as_str(), id) {
            return Some(i);
        }
        i = i + 1;
    }
    None
}

/// The first logged event with event id `id`.
pub fn find_event(events: &[CapabilityEventEnvelope], id: &str) -> (r: Option<usize>)
    ensures
        match r {
            Some(i) => i < events@.len() && events@[i as int].event_id@ == id@
                && forall|j: int| 0 <= j < i ==> #[trigger] events@[j].event_id@ != id@,
            None => forall|j: int| 0 <= j < events@.len() ==> #[trigger] events@[j].event_id@ != id@,
        },
{
    let mut i: usize = 0;
    while i < events.len()
        invariant
            i <= events@.len(),
            forall|j: int| 0 <= j < i ==> #[trigger] events@[j].event_id@ != id@,
        decreases events.len() - i,
    {
        if crate::text::str_eq(events[i].event_id.as_str(), id) {
            return Some(i);
        }
        i = i + 1;
    }
    None
}

/// Plans a replay. With a `delivery_id`, the dead letter of that delivery is
/// replayed to its subscription only, under event id `replay-<delivery_id>`;
/// only `dead_letters` is consulted. Otherwise, with an `event_id`, the
/// logged event is published again to every matching subscription; only
/// `events` is consulted.
pub fn plan_replay(
    dead_letters: &[CapabilityDeadLetterRecord],
    events: &[CapabilityEventEnvelope],
    event_id: Option<&str>,
    delivery_id: Option<&str>,
) -> (r: Result<ReplayPlan, PublishError>)
    ensures
        match delivery_id {
            Some(d) => match r {
                Ok(plan) => exists|i: int| 0 <= i < dead_letters@.len()
                    && dead_letters@[i].delivery_id@ == d@
                    && (forall|j: int| 0 <= j < i ==> #[trigger] dead_letters@[j].delivery_id@ != d@)
                    && plan.request == request_of(dead_letters@[i].event)
                    && plan.only_subscription_id == Some(dead_letters@[i].subscription_id)
                    && plan.replay_delivery_id == Some(dead_letters@[i].delivery_id),
                Err(e) => e matches PublishError::DeadLetterNotFound { delivery_id: missing } && missing@ == d@
                    && forall|j: int| 0 <= j < dead_letters@.len() ==> #[trigger] dead_letters@[j].delivery_id@ != d@,
            },
            None => match event_id {
                Some(id) => match r {
                    Ok(plan) => exists|i: int| 0 <= i < events@.len()
                        && events@[i].event_id@ == id@
                        && (forall|j: int| 0 <= j < i ==> #[trigger] events@[j].event_id@ != id@)
                        && plan.request == request_of(events@[i])
                        && plan.only_subscription_id is None
                        && plan.replay_delivery_id is None,
                    Err(e) => e matches PublishError::EventNotFound { event_id: missing } && missing@ == id@
                        && forall|j: int| 0 <= j < events@.len() ==> #[trigger] events@[j].event_id@ != id@,
                },
                None => r matches Err(PublishError::ReplayTargetMissing),
            },
        },
{
    match delivery_id {
        Some(d) => match find_dead_letter(dead_letters, d) {
            Some(i) => {
                let item = &dead_letters[i];
                let e = clone_envelope(&item.event);
                Ok(ReplayPlan {
                    request: PublishEventRequest {
                        topic: e.topic,
                        event_type: Some(e.event_type),
                        payload: e.payload,
                        correlation_id: e.correlation_id,
                        source: e.source,
                    },
                    only_subscription_id: Some(item.subscription_id.clone()),
                    replay_delivery_id: Some(item.delivery_id.clone()),
                })
            },
            None => Err(PublishError::DeadLetterNotFound { delivery_id: owned(d) }),
        },
        None => match event_id {
            Some(id) => match find_event(events, id) {
                Some(i) => {
                    let e = clone_envelope(&events[i]);
                    Ok(ReplayPlan {
                        request: PublishEventRequest {
                            topic: e.topic,
                            event_type: Some(e.event_type),
                            payload: e.payload,
                            correlation_id: e.correlation_id,
                            source: e.source,
                        },
                        only_subscription_id: None,
                        replay_delivery_id: None,
                    })
                },
                None => Err(PublishError::EventNotFound { event_id: owned(id) }),
            },
            None => Err(PublishError::ReplayTargetMissing),
        },
    }
}

/// The subscriptions an event reaches are exactly those on its topic and
/// event type whose filter lets the payload through and, when one
/// subscription is named (a replayed dead letter), that one: each is reached
/// once, in the order of the subscriptions, and no other is.
pub proof fn lemma_selection_exact(
    subs: Seq<ResolvedSubscriptionRecord>,
    n: int,
    topic: Seq<char>,
    event_type: Seq<char>,
    only: Option<Seq<char>>,
    payload: Seq<char>,
)
    requires
        0 <= n <= subs.len(),
        subs.len() <= usize::MAX,
    ensures
        ({
            let sel = selected_indices(subs, n, topic, event_type, only, payload);
            &&& forall|k: int| 0 <= k < sel.len() ==> #[trigger] sel[k] < n
                && subscription_selected(subs[sel[k] as int], topic, event_type, only, payload)
            &&& forall|i: int| 0 <= i < n && #[trigger] subscription_selected(subs[i], topic, event_type, only, payload)
                ==> sel.contains(i as usize)
            &&& forall|a: int, b: int| 0 <= a < b < sel.len() ==> #[trigger] sel[a] < #[trigger] sel[b]
        }),
    decreases n,
{
    if n > 0 {
        lemma_selection_exact(subs, n - 1, topic, event_type, only, payload);
        let prev = selected_indices(subs, n - 1, topic, event_type, only, payload);
        let sel = selected_indices(subs, n, topic, event_type, only, payload);
        assert forall|i: int| 0 <= i < n && #[trigger] subscription_selected(subs[i], topic, event_type, only, payload)
            implies sel.contains(i as usize) by {
            if i < n - 1 {
                let k = choose|k: int| 0 <= k < prev.len() && prev[k] == i as usize;
                assert(sel[k] == i as usize);
            } else {
                assert(sel[prev.len() as int] == i as usize);
            }
        }
        assert forall|k: int| 0 <= k < sel.len() implies #[trigger] sel[k] < n
            && subscription_selected(subs[sel[k] as int], topic, event_type, only, payload) by {
            if k < prev.len() {
                assert(sel[k] == prev[k]);
            }
        }
        assert forall|a: int, b: int| 0 <= a < b < sel.len() implies #[trigger] sel[a] < #[trigger] sel[b] by {
            if b < prev.len() {
                assert(sel[a] == prev[a] && sel[b] == prev[b]);
            } else {
                assert(sel[a] == prev[a]);
                assert(prev[a] < n - 1);
            }
        }
    }
}

/// Replaying a dead letter reaches exactly its own subscription: on the
/// topic the replayed request selects, the subscriptions chosen are those
/// with the dead letter's subscription id, on the dead letter's topic and
/// event type, whose filter lets its payload through; no other is reached.
pub proof fn lemma_replay_reaches_its_subscription(
    subs: Seq<ResolvedSubscriptionRecord>,
    d: CapabilityDeadLetterRecord,
    topic: ResolvedTopicRecord,
)
    requires
        topic_selected(topic, request_of(d.event)),
        subs.len() <= usize::MAX,
    ensures
        ({
            let sel = selected_indices(subs, subs.len() as int, topic.topic@, topic.event_type@,
                Some(d.subscription_id@), d.event.payload@);
            &&& forall|k: int| 0 <= k < sel.len() ==> {
                let s = #[trigger] subs[sel[k] as int];
                &&& s.subscription_id@ == d.subscription_id@
                &&& s.topic@ == d.event.topic@
                &&& s.event_type@ == d.event.event_type@
            }
            &&& forall|i: int| 0 <= i < subs.len() && subs[i].subscription_id@ == d.subscription_id@
                && subs[i].topic@ == d.event.topic@ && subs[i].event_type@ == d.event.event_type@
                && #[trigger] filter_passes(subs[i], d.event.payload@) ==> sel.contains(i as usize)
        }),
{
    lemma_selection_exact(subs, subs.len() as int, topic.topic@, topic.event_type@, Some(d.subscription_id@), d.event.payload@);
    let sel = selected_indices(subs, subs.len() as int, topic.topic@, topic.event_type@,
        Some(d.subscription_id@), d.event.payload@);
    assert forall|i: int| 0 <= i < subs.len() && subs[i].subscription_id@ == d.subscription_id@
        && subs[i].topic@ == d.event.topic@ && subs[i].event_type@ == d.event.event_type@
        && #[trigger] filter_passes(subs[i], d.event.payload@) implies sel.contains(i as usize) by {
        assert(subscription_selected(subs[i], topic.topic@, topic.event_type@, Some(d.subscription_id@), d.event.payload@));
    }
}

/// A delivery through a runner that may only succeed for the subscription
/// is made on the first attempt: replaying a dead letter to a runner that
/// now succeeds delivers it once.
pub proof fn lemma_succeeding_runner_delivers_at_once<R: CapabilityEventRunner>(
    runner: R,
    s: ResolvedSubscriptionRecord,
    payload: Seq<u8>,
    ctx: OperatorContext,
    outs: Seq<Result<FlowOutcome, String>>,
    r: Result<DeliveryOutcome, PublishError>,
)
    requires
        forall|res: Result<FlowOutcome, String>| #[trigger] runner.invokes(s.capability_id@, s.op@, payload, ctx, res)
            ==> (res matches Ok(o) && o.success),
        delivery_trace(runner, s, payload, ctx, outs),
        delivery_ends_with(outs, r),
    ensures
        r == Ok::<DeliveryOutcome, PublishError>(DeliveryOutcome::Delivered { attempts: 1 }),
{
    assert(runner.invokes(s.capability_id@, s.op@, payload, ctx, outs[0]));
    if outs.len() > 1 {
        assert(outs[0] matches Ok(o) && !o.success);
    }
    assert(runner.invokes(s.capability_id@, s.op@, payload, ctx, outs.last()));
}

/// A subscription whose filter names both a JSON pointer and a value lets a
/// payload through only when the payload holds, at that pointer, a string
/// equal to that value; a payload without it (or with another value) is
/// refused.
pub proof fn lemma_filter_needs_a_matching_string(s: ResolvedSubscriptionRecord, payload: Seq<char>)
    requires
        s.filter_json_pointer is Some,
        s.filter_equals is Some,
    ensures
        filter_passes(s, payload) <==>
            json_pointer_string(payload, s.filter_json_pointer->0@) == Some(s.filter_equals->0@),
{
}

/// An event is delivered only to subscriptions whose filter it meets: every
/// subscription selected for a payload that names both a filter pointer and
/// a value finds, at that pointer of the payload, a string equal to the value.
pub proof fn lemma_selected_subscriptions_meet_their_filters(
    subs: Seq<ResolvedSubscriptionRecord>,
    topic: Seq<char>,
    event_type: Seq<char>,
    only: Option<Seq<char>>,
    payload: Seq<char>,
)
    requires
        subs.len() <= usize::MAX,
    ensures
        ({
            let sel = selected_indices(subs, subs.len() as int, topic, event_type, only, payload);
            forall|k: int| 0 <= k < sel.len() ==> {
                let s = #[trigger] subs[sel[k] as int];
                (s.filter_json_pointer is Some && s.filter_equals is Some) ==>
                    json_pointer_string(payload, s.filter_json_pointer->0@) == Some(s.filter_equals->0@)
            }
        }),
{
    lemma_selection_exact(subs, subs.len() as int, topic, event_type, only, payload);
    let sel = selected_indices(subs, subs.len() as int, topic, event_type, only, payload);
    assert forall|k: int| 0 <= k < sel.len() implies {
        let s = #[trigger] subs[sel[k] as int];
        (s.filter_json_pointer is Some && s.filter_equals is Some) ==>
            json_pointer_string(payload, s.filter_json_pointer->0@) == Some(s.filter_equals->0@)
    } by {
        assert(sel[k] < subs.len());
        assert(subscription_selected(subs[sel[k] as int], topic, event_type, only, payload));
    }
}

} // verus!
