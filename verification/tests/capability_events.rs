use std::cell::RefCell;

use greentic_operator::capability_events::{
    check_topic_payload, clone_envelope, publish_start, publish_step, event_log_paths, jsonl_lines, deliver, find_topic, make_envelope, plan_publication, plan_replay, select_subscriptions,
    CapabilityDeadLetterRecord, CapabilityDeliveryRecord, CapabilityEventEnvelope, CapabilityEventRunner,
    DeliveryOutcome, FlowOutcome, PublishError, PublishEventRequest, PublishReport,
};
use greentic_operator::capability_runtime::{
    CapabilityAdapterKind, OperatorContext, ResolvedScopeRecord, ResolvedSubscriptionRecord, ResolvedTopicRecord,
};

#[derive(Default)]
struct FakeRunner {
    fail_capability: Option<String>,
    invocations: RefCell<Vec<(String, String)>>,
    payloads: RefCell<Vec<Vec<u8>>>,
}

impl CapabilityEventRunner for FakeRunner {
    fn invoke_capability(
        &self,
        cap_id: &str,
        op: &str,
        payload_bytes: &[u8],
        _ctx: &OperatorContext,
    ) -> Result<FlowOutcome, String> {
        self.invocations.borrow_mut().push((cap_id.to_string(), op.to_string()));
        self.payloads.borrow_mut().push(payload_bytes.to_vec());
        let success = self.fail_capability.as_deref() != Some(cap_id);
        Ok(FlowOutcome { success, error: if success { None } else { Some("boom".to_string()) } })
    }
}

/// The logs a publication leaves behind.
#[derive(Default)]
struct Logs {
    events: Vec<CapabilityEventEnvelope>,
    deliveries: Vec<CapabilityDeliveryRecord>,
    dead_letters: Vec<CapabilityDeadLetterRecord>,
}

fn scope() -> ResolvedScopeRecord {
    ResolvedScopeRecord { env: None, tenant: Some("tenant-a".to_string()), team: Some("team-b".to_string()) }
}

fn ctx() -> OperatorContext {
    OperatorContext { tenant: "tenant-a".to_string(), team: Some("team-b".to_string()), correlation_id: None }
}

fn topics() -> Vec<ResolvedTopicRecord> {
    vec![ResolvedTopicRecord {
        topic: "topic://example.domain.event.v1".to_string(),
        event_type: "example.domain.event.v1".to_string(),
        pack_id: "pack-a".to_string(),
        domain: "events".to_string(),
        pack_path: "/packs/schema-pack.gtpack".to_string(),
        publisher_component_ref: "publisher".to_string(),
        publisher_op: "publish".to_string(),
        payload_schema_ref: Some("schemas/event.schema.json".to_string()),
        adapter_kind: CapabilityAdapterKind::DirectComponent,
        priority: 10,
        scope: scope(),
    }]
}

fn subscription(filter: bool) -> ResolvedSubscriptionRecord {
    ResolvedSubscriptionRecord {
        subscription_id: "sub-a".to_string(),
        topic: "topic://example.domain.event.v1".to_string(),
        event_type: "example.domain.event.v1".to_string(),
        pack_id: "pack-b".to_string(),
        domain: "events".to_string(),
        pack_path: "/packs/schema-pack.gtpack".to_string(),
        capability_id: "cap://subscriber.handle.v1".to_string(),
        op: "handle".to_string(),
        payload_schema_ref: None,
        filter_json_pointer: if filter { Some("/kind".to_string()) } else { None },
        filter_equals: if filter { Some("match".to_string()) } else { None },
        delivery_mode: "at_least_once".to_string(),
        max_attempts: 2,
        priority: 10,
        scope: scope(),
    }
}

/// Publishes as the operator does, on in-memory logs: plan, check the topic
/// schema, log the event, then serve each selected subscription in turn.
fn publish(
    logs: &mut Logs,
    runner: &FakeRunner,
    topics: &[ResolvedTopicRecord],
    subs: &[ResolvedSubscriptionRecord],
    request: PublishEventRequest,
    only: Option<String>,
    replay_delivery_id: Option<String>,
) -> Result<PublishReport, PublishError> {
    let plan = plan_publication(topics, subs, &request, &only, &replay_delivery_id)?;
    check_topic_payload(&topics[plan.topic_index], Some(EVENT_SCHEMA), &request.payload)?;
    let event_id = plan.event_id.clone().unwrap_or_else(|| format!("evt-{}", logs.events.len()));
    let envelope = make_envelope(&topics[plan.topic_index], request, event_id, 1);
    logs.events.push(clone_envelope(&envelope));
    let mut state = publish_start(&plan);
    for &i in &plan.subscription_indices {
        let delivery_id = format!("dlv-{}", logs.deliveries.len());
        let step = publish_step(runner, &ctx(), &subs[i], None, &envelope, delivery_id, 2, state)?;
        logs.deliveries.push(step.delivery);
        if let Some(letter) = step.dead_letter {
            logs.dead_letters.push(letter);
        }
        state = step.state;
    }
    Ok(state.report)
}

/// The schema of the test topic: an object with a string `kind`.
const EVENT_SCHEMA: &str = r#"{"type":"object","required":["kind"],"properties":{"kind":{"type":"string"}}}"#;

fn request(payload: &str, source: Option<&str>) -> PublishEventRequest {
    PublishEventRequest {
        topic: "topic://example.domain.event.v1".to_string(),
        event_type: None,
        payload: payload.to_string(),
        correlation_id: None,
        source: source.map(str::to_string),
    }
}

#[test]
fn publish_event_writes_logs_and_invokes_subscriber() {
    let mut logs = Logs::default();
    let runner = FakeRunner::default();
    let report = publish(&mut logs, &runner, &topics(), &[subscription(true)], request(r#"{"kind":"match"}"#, Some("test")), None, None)
        .ok()
        .expect("published");
    assert_eq!(report.matched_subscriptions, 1);
    assert_eq!(report.successful_deliveries, 1);
    assert_eq!(report.failed_deliveries, 0);
    assert_eq!(logs.events.len(), 1);
    assert_eq!(logs.dead_letters.len(), 0);
    assert_eq!(runner.invocations.borrow().len(), 1);
    assert_eq!(logs.deliveries[0].status, "ok");
}

#[test]
fn failed_delivery_goes_to_dlq_and_replays() {
    let mut logs = Logs::default();
    let failing_runner = FakeRunner { fail_capability: Some("cap://subscriber.handle.v1".to_string()), ..Default::default() };
    let subs = [subscription(false)];
    let report = publish(&mut logs, &failing_runner, &topics(), &subs, request(r#"{"kind":"match"}"#, Some("test")), None, None)
        .ok()
        .expect("published");
    assert_eq!(report.failed_deliveries, 1);
    assert_eq!(logs.dead_letters.len(), 1);
    assert_eq!(failing_runner.invocations.borrow().len(), 2);
    assert_eq!(logs.dead_letters[0].attempts, 2);
    assert_eq!(logs.dead_letters[0].error, "boom");

    let runner = FakeRunner::default();
    let delivery_id = logs.dead_letters[0].delivery_id.clone();
    let plan = plan_replay(&logs.dead_letters, &[], None, Some(&delivery_id)).ok().expect("replay planned");
    assert_eq!(plan.only_subscription_id.as_deref(), Some("sub-a"));
    let replay = publish(&mut logs, &runner, &topics(), &subs, plan.request, plan.only_subscription_id, plan.replay_delivery_id)
        .ok()
        .expect("replayed");
    assert_eq!(replay.successful_deliveries, 1);
    assert_eq!(logs.events.last().unwrap().event_id, format!("replay-{delivery_id}"));
}

#[test]
fn filter_mismatch_selects_no_subscription() {
    let mut logs = Logs::default();
    let runner = FakeRunner::default();
    let report = publish(&mut logs, &runner, &topics(), &[subscription(true)], request(r#"{"kind":"other"}"#, None), None, None)
        .ok()
        .expect("published");
    assert_eq!(report.matched_subscriptions, 0);
    assert_eq!(runner.invocations.borrow().len(), 0);
}

#[test]
fn invalid_payload_fails_schema_validation() {
    let mut logs = Logs::default();
    let runner = FakeRunner::default();
    let err = publish(&mut logs, &runner, &topics(), &[], request(r#"{"kind":1}"#, None), None, None)
        .err()
        .expect("invalid payload");
    assert!(err.message().contains("invalid event payload"));
    assert!(logs.events.is_empty());
}

#[test]
fn subscription_schema_refusal_stops_before_invoking() {
    let runner = FakeRunner::default();
    let sub = subscription(false);
    let envelope = make_envelope(&topics()[0], request(r#"{"kind":1}"#, None), "e".to_string(), 1);
    let plan = plan_publication(&topics(), &[subscription(false)], &request(r#"{"kind":1}"#, None), &None, &None)
        .ok()
        .expect("planned");
    let err = publish_step(&runner, &ctx(), &sub, Some(EVENT_SCHEMA), &envelope, "d".to_string(), 2, publish_start(&plan))
        .err()
        .expect("refused");
    assert_eq!(err.message(), "invalid payload for subscription sub-a");
    assert!(runner.invocations.borrow().is_empty());
    let ok = publish_step(&runner, &ctx(), &sub, Some(EVENT_SCHEMA), &make_envelope(&topics()[0], request(r#"{"kind":"x"}"#, None), "e".to_string(), 1), "d".to_string(), 2, publish_start(&plan))
        .ok()
        .expect("served");
    assert_eq!(ok.state.report.successful_deliveries, 1);
    assert!(ok.dead_letter.is_none());
    assert_eq!(ok.delivery.status, "ok");
}

#[test]
fn unknown_topic_is_refused() {
    let mut req = request("{}", None);
    req.topic = "topic://nope".to_string();
    let err = find_topic(&topics(), &req).err().expect("unknown topic");
    assert_eq!(err.message(), "topic topic://nope is not defined in current scope");
    let mut typed = request("{}", None);
    typed.event_type = Some("other.type".to_string());
    assert!(find_topic(&topics(), &typed).is_err());
}

#[test]
fn replay_requires_a_target_and_finds_events() {
    let err = plan_replay(&[], &[], None, None).err().expect("no target");
    assert_eq!(err.message(), "either event_id or delivery_id is required for replay");
    let err = plan_replay(&[], &[], Some("e1"), None).err().expect("no event");
    assert_eq!(err.message(), "event e1 not found");
    let err = plan_replay(&[], &[], None, Some("d1")).err().expect("no dead letter");
    assert_eq!(err.message(), "dlq delivery d1 not found");
    let event = CapabilityEventEnvelope {
        event_id: "e1".to_string(),
        topic: "t".to_string(),
        event_type: "et".to_string(),
        payload: "{}".to_string(),
        correlation_id: Some("c".to_string()),
        source: None,
        published_at_unix_ms: 5,
    };
    let plan = plan_replay(&[], &[event], Some("e1"), None).ok().expect("event found");
    assert_eq!(plan.request.topic, "t");
    assert_eq!(plan.request.event_type.as_deref(), Some("et"));
    assert!(plan.only_subscription_id.is_none());
    assert!(plan.replay_delivery_id.is_none());
}

#[test]
fn zero_max_attempts_still_tries_once() {
    let runner = FakeRunner { fail_capability: Some("cap://subscriber.handle.v1".to_string()), ..Default::default() };
    let mut sub = subscription(false);
    sub.max_attempts = 0;
    match deliver(&runner, &ctx(), &sub, b"{}").ok().expect("delivered") {
        DeliveryOutcome::Failed { attempts, error } => {
            assert_eq!(attempts, 1);
            assert_eq!(error, "boom");
        }
        DeliveryOutcome::Delivered { .. } => panic!("must fail"),
    }
    assert_eq!(runner.invocations.borrow().len(), 1);
}

#[test]
fn jsonl_lines_trims_and_skips_blank_lines() {
    assert_eq!(jsonl_lines("{\"a\":1}\n\n  {\"b\":2}  \r\n"), vec!["{\"a\":1}".to_string(), "{\"b\":2}".to_string()]);
    assert_eq!(jsonl_lines(""), Vec::<String>::new());
    assert_eq!(jsonl_lines("x"), vec!["x".to_string()]);
}

#[test]
fn event_log_paths_name_the_three_logs() {
    let p = event_log_paths("/state/cap");
    assert_eq!(p.events, "/state/cap/events.jsonl");
    assert_eq!(p.deliveries, "/state/cap/deliveries.jsonl");
    assert_eq!(p.dead_letters, "/state/cap/dlq.jsonl");
}

#[test]
fn selection_is_exactly_the_matching_subscriptions() {
    let mut other_topic = subscription(false);
    other_topic.subscription_id = "sub-x".to_string();
    other_topic.topic = "topic://other.v1".to_string();
    let mut second = subscription(false);
    second.subscription_id = "sub-b".to_string();
    let mut filtered = subscription(true);
    filtered.subscription_id = "sub-c".to_string();
    let subs = vec![subscription(false), other_topic, second, filtered];
    let topic = "topic://example.domain.event.v1".to_string();
    let event_type = "example.domain.event.v1".to_string();
    let payload = r#"{"kind":"other"}"#.to_string();
    assert_eq!(select_subscriptions(&subs, &topic, &event_type, &None, &payload), vec![0, 2]);
    assert_eq!(select_subscriptions(&subs, &topic, &event_type, &Some("sub-b".to_string()), &payload), vec![2]);
    let matching = r#"{"kind":"match"}"#.to_string();
    assert_eq!(select_subscriptions(&subs, &topic, &event_type, &None, &matching), vec![0, 2, 3]);
    assert!(select_subscriptions(&subs, &topic, &event_type, &Some("sub-x".to_string()), &matching).is_empty());
}

struct BrokenRunner;

impl CapabilityEventRunner for BrokenRunner {
    fn invoke_capability(&self, _cap_id: &str, _op: &str, _payload: &[u8], _ctx: &OperatorContext) -> Result<FlowOutcome, String> {
        Err("runner unavailable".to_string())
    }
}

#[test]
fn runner_error_ends_the_delivery() {
    let err = deliver(&BrokenRunner, &ctx(), &subscription(false), b"{}").err().expect("runner error");
    assert!(matches!(err, PublishError::Runner { .. }));
    assert_eq!(err.message(), "runner unavailable");
}

/// Succeeds on the third invocation.
struct FlakyRunner {
    calls: RefCell<u32>,
}

impl CapabilityEventRunner for FlakyRunner {
    fn invoke_capability(&self, _cap_id: &str, _op: &str, _payload: &[u8], _ctx: &OperatorContext) -> Result<FlowOutcome, String> {
        let mut calls = self.calls.borrow_mut();
        *calls += 1;
        Ok(FlowOutcome { success: *calls == 3, error: None })
    }
}

#[test]
fn retries_until_success_within_the_limit() {
    let runner = FlakyRunner { calls: RefCell::new(0) };
    let mut sub = subscription(false);
    sub.max_attempts = 3;
    match deliver(&runner, &ctx(), &sub, b"{}").ok().expect("delivered") {
        DeliveryOutcome::Delivered { attempts } => assert_eq!(attempts, 3),
        DeliveryOutcome::Failed { .. } => panic!("third attempt succeeds"),
    }
    let runner = FlakyRunner { calls: RefCell::new(0) };
    sub.max_attempts = 2;
    match deliver(&runner, &ctx(), &sub, b"{}").ok().expect("delivered") {
        DeliveryOutcome::Failed { attempts, error } => {
            assert_eq!(attempts, 2);
            assert_eq!(error, "capability invocation failed");
        }
        DeliveryOutcome::Delivered { .. } => panic!("two attempts all fail"),
    }
}

#[test]
fn subscribers_receive_the_payload_serialised_compactly() {
    let mut logs = Logs::default();
    let runner = FakeRunner::default();
    publish(&mut logs, &runner, &topics(), &[subscription(false)], request("{ \"kind\" : \"match\" }", None), None, None)
        .ok()
        .expect("published");
    assert_eq!(runner.payloads.borrow().as_slice(), &[b"{\"kind\":\"match\"}".to_vec()]);
    let envelope = make_envelope(&topics()[0], request("not json", None), "e".to_string(), 1);
    let plan = plan_publication(&topics(), &[subscription(false)], &request("{}", None), &None, &None).ok().expect("planned");
    let err = publish_step(&runner, &ctx(), &subscription(false), None, &envelope, "d".to_string(), 2, publish_start(&plan))
        .err()
        .expect("not JSON");
    assert_eq!(err.message(), "event payload is not JSON");
}
