use greentic_operator::capability_runtime::{
    adapter_kind, build_catalog_artifacts, domain_name, CapabilityAdapterKind, CapabilityCatalogArtifacts,
    CapabilityOfferRecord, CapabilitySubscriptionRecord, CapabilityTopicRecord, Domain, OperatorContext, ResolveScope,
};

#[test]
fn catalog_resolves_each_declaration_for_the_scope() {
    let offer = CapabilityOfferRecord {
        cap_id: "cap://example.v1".to_string(),
        operation_id: Some("perform_action".to_string()),
        stable_id: "offer.1".to_string(),
        pack_id: "pack-a".to_string(),
        domain: Domain::Messaging,
        pack_path: "/tmp/pack-a.gtpack".to_string(),
        provider_component_ref: "provider.component".to_string(),
        provider_op: "provider.invoke".to_string(),
        input_schema_ref: Some("schemas/input.json".to_string()),
        output_schema_ref: None,
        version: "1".to_string(),
        requires_setup: true,
        setup_qa_ref: None,
        adapter_kind: Some("http_compatibility".to_string()),
    };
    let topic = CapabilityTopicRecord {
        topic: "topic://example.v1".to_string(),
        event_type: "example.v1".to_string(),
        pack_id: "pack-c".to_string(),
        domain: Domain::Events,
        pack_path: "/tmp/pack-c.gtpack".to_string(),
        publisher_component_ref: "events.component".to_string(),
        publisher_op: "publish".to_string(),
        payload_schema_ref: Some("schemas/event.json".to_string()),
        adapter_kind: None,
        priority: 5,
    };
    let sub = CapabilitySubscriptionRecord {
        subscription_id: "sub-a".to_string(),
        topic: "topic://example.v1".to_string(),
        event_type: "example.v1".to_string(),
        pack_id: "pack-b".to_string(),
        domain: Domain::OAuth,
        pack_path: "/tmp/pack-b.gtpack".to_string(),
        capability_id: "cap://subscriber.v1".to_string(),
        op: "handle".to_string(),
        payload_schema_ref: None,
        filter_json_pointer: Some("/kind".to_string()),
        filter_equals: Some("match".to_string()),
        delivery_mode: "at_least_once".to_string(),
        max_attempts: 2,
        priority: 10,
    };
    let ctx = OperatorContext { tenant: "tenant-a".to_string(), team: Some("team-b".to_string()), correlation_id: None };
    let scope = ResolveScope { env: Some("dev".to_string()) };
    let artifacts = build_catalog_artifacts(&[offer], &[topic], &[sub], &ctx, &scope);
    assert_eq!(artifacts.callables.len(), 1);
    let c = &artifacts.callables[0];
    assert_eq!(c.capability_id, "cap://example.v1");
    assert_eq!(c.domain, "messaging");
    assert_eq!(c.adapter_kind, CapabilityAdapterKind::HttpCompatibility);
    assert_eq!(c.scope.env.as_deref(), Some("dev"));
    assert_eq!(c.scope.tenant.as_deref(), Some("tenant-a"));
    assert_eq!(c.scope.team.as_deref(), Some("team-b"));
    let t = &artifacts.topics[0];
    assert_eq!(t.domain, "events");
    assert_eq!(t.adapter_kind, CapabilityAdapterKind::DirectComponent);
    assert_eq!(t.priority, 5);
    let s = &artifacts.subscriptions[0];
    assert_eq!(s.domain, "oauth");
    assert_eq!(s.max_attempts, 2);
    assert_eq!(s.filter_equals.as_deref(), Some("match"));
}

#[test]
fn empty_catalog_and_names() {
    let e = CapabilityCatalogArtifacts::empty();
    assert!(e.callables.is_empty() && e.subscriptions.is_empty() && e.topics.is_empty());
    assert_eq!(domain_name(Domain::Secrets), "secrets");
    assert_eq!(adapter_kind(Some("http_compatibility")), CapabilityAdapterKind::HttpCompatibility);
    assert_eq!(adapter_kind(Some("other")), CapabilityAdapterKind::DirectComponent);
    assert_eq!(adapter_kind(None), CapabilityAdapterKind::DirectComponent);
}
