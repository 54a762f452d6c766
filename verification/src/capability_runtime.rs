//! The capability catalog of a scope: the offers, topics and subscriptions
//! that packs declare, resolved for one tenant and team.
use vstd::prelude::*;
use crate::text::{owned, str_eq};
use crate::paths::{join_path, join};

verus! {

/// The service domains a pack can belong to.
#[derive(Clone, Copy, Debug, PartialEq, Eq, Structural)]
pub enum Domain {
    Messaging,
    Events,
    Secrets,
    OAuth,
}

/// How a capability is reached.
#[derive(Clone, Copy, Debug, PartialEq, Eq, Structural)]
pub enum CapabilityAdapterKind {
    DirectComponent,
    HttpCompatibility,
}

/// The tenant and team an operation runs for.
pub struct OperatorContext {
    pub tenant: String,
    pub team: Option<String>,
    pub correlation_id: Option<String>,
}

/// The environment a catalog is resolved in.
pub struct ResolveScope {
    pub env: Option<String>,
}

/// A capability offered by a pack.
pub struct CapabilityOfferRecord {
    pub cap_id: String,
    pub operation_id: Option<String>,
    pub stable_id: String,
    pub pack_id: String,
    pub domain: Domain,
    pub pack_path: String,
    pub provider_component_ref: String,
    pub provider_op: String,
    pub input_schema_ref: Option<String>,
    pub output_schema_ref: Option<String>,
    pub version: String,
    pub requires_setup: bool,
    pub setup_qa_ref: Option<String>,
    pub adapter_kind: Option<String>,
}

/// An event topic published by a pack.
pub struct CapabilityTopicRecord {
    pub topic: String,
    pub event_type: String,
    pub pack_id: String,
    pub domain: Domain,
    pub pack_path: String,
    pub publisher_component_ref: String,
    pub publisher_op: String,
    pub payload_schema_ref: Option<String>,
    pub adapter_kind: Option<String>,
    pub priority: i32,
}

/// A subscription of a pack's capability to a topic.
pub struct CapabilitySubscriptionRecord {
    pub subscription_id: String,
    pub topic: String,
    pub event_type: String,
    pub pack_id: String,
    pub domain: Domain,
    pub pack_path: String,
    pub capability_id: String,
    pub op: String,
    pub payload_schema_ref: Option<String>,
    pub filter_json_pointer: Option<String>,
    pub filter_equals: Option<String>,
    pub delivery_mode: String,
    pub max_attempts: u32,
    pub priority: i32,
}

pub struct ResolvedScopeRecord {
    pub env: Option<String>,
    pub tenant: Option<String>,
    pub team: Option<String>,
}

pub struct ResolvedCallableRecord {
    pub capability_id: String,
    pub operation_id: Option<String>,
    pub stable_id: String,
    pub pack_id: String,
    pub domain: String,
    pub pack_path: String,
    pub provider_component_ref: String,
    pub provider_op: String,
    pub input_schema_ref: Option<String>,
    pub output_schema_ref: Option<String>,
    pub version: String,
    pub requires_setup: bool,
    pub setup_qa_ref: Option<String>,
    pub adapter_kind: CapabilityAdapterKind,
    pub scope: ResolvedScopeRecord,
}

pub struct ResolvedTopicRecord {
    pub topic: String,
    pub event_type: String,
    pub pack_id: String,
    pub domain: String,
    pub pack_path: String,
    pub publisher_component_ref: String,
    pub publisher_op: String,
    pub payload_schema_ref: Option<String>,
    pub adapter_kind: CapabilityAdapterKind,
    pub priority: i32,
    pub scope: ResolvedScopeRecord,
}

pub struct ResolvedSubscriptionRecord {
    pub subscription_id: String,
    pub topic: String,
    pub event_type: String,
    pub pack_id: String,
    pub domain: String,
    pub pack_path: String,
    pub capability_id: String,
    pub op: String,
    pub payload_schema_ref: Option<String>,
    pub filter_json_pointer: Option<String>,
    pub filter_equals: Option<String>,
    pub delivery_mode: String,
    pub max_attempts: u32,
    pub priority: i32,
    pub scope: ResolvedScopeRecord,
}

/// The resolved catalog of a scope.
pub struct CapabilityCatalogArtifacts {
    pub callables: Vec<ResolvedCallableRecord>,
    pub subscriptions: Vec<ResolvedSubscriptionRecord>,
    pub topics: Vec<ResolvedTopicRecord>,
}

/// Where the catalog files of a scope are written.
pub struct CapabilityCatalogPaths {
    pub callables: String,
    pub subscriptions: String,
    pub topics: String,
}

/// The catalog files in the capability state directory of a scope:
/// `callables.json`, `subscriptions.json` and `topics.json`.
pub fn catalog_paths(state_dir: &str) -> (r: CapabilityCatalogPaths)
    ensures
        r.callables@ == join_path(state_dir@, "callables.json"@),
        r.subscriptions@ == join_path(state_dir@, "subscriptions.json"@),
        r.topics@ == join_path(state_dir@, "topics.json"@),
{
    CapabilityCatalogPaths {
        callables: join(state_dir, "callables.json"),
        subscriptions: join(state_dir, "subscriptions.json"),
        topics: join(state_dir, "topics.json"),
    }
}

impl CapabilityCatalogArtifacts {
    /// A catalog with nothing in it.
    pub fn empty() -> (r: Self)
        ensures
            r.callables@.len() == 0,
            r.subscriptions@.len() == 0,
            r.topics@.len() == 0,
    {
        CapabilityCatalogArtifacts { callables: Vec::new(), subscriptions: Vec::new(), topics: Vec::new() }
    }
}

impl Default for CapabilityCatalogArtifacts {
    /// The empty catalog.
    fn default() -> (r: Self)
        ensures
            r.callables@.len() == 0,
            r.subscriptions@.len() == 0,
            r.topics@.len() == 0,
    {
        CapabilityCatalogArtifacts::empty()
    }
}

pub open spec fn domain_name_spec(d: Domain) -> Seq<char> {
    match d {
        Domain::Messaging => "messaging"@,
        Domain::Events => "events"@,
        Domain::Secrets => "secrets"@,
        Domain::OAuth => "oauth"@,
    }
}

pub open spec fn adapter_kind_spec(raw: Option<Seq<char>>) -> CapabilityAdapterKind {
    match raw {
        Some(s) => if s == "http_compatibility"@ {
            CapabilityAdapterKind::HttpCompatibility
        } else {
            CapabilityAdapterKind::DirectComponent
        },
        None => CapabilityAdapterKind::DirectComponent,
    }
}

pub open spec fn opt_view(o: Option<String>) -> Option<Seq<char>> {
    match o {
        Some(s) => Some(s@),
        None => None,
    }
}

/// The name under which a domain is recorded.
pub fn domain_name(domain: Domain) -> (r: String)
    ensures r@ == domain_name_spec(domain),
{
    match domain {
        Domain::Messaging => owned("messaging"),
        Domain::Events => owned("events"),
        Domain::Secrets => owned("secrets"),
        Domain::OAuth => owned("oauth"),
    }
}

/// The adapter named by a pack: `http_compatibility`, or a direct component otherwise.
pub fn adapter_kind(raw: Option<&str>) -> (r: CapabilityAdapterKind)
    ensures r == adapter_kind_spec(match raw { Some(s) => Some(s@), None => None }),
{
    match raw {
        Some(s) => if str_eq(s, "http_compatibility") {
            CapabilityAdapterKind::HttpCompatibility
        } else {
            CapabilityAdapterKind::DirectComponent
        },
        None => CapabilityAdapterKind::DirectComponent,
    }
}

/// A copy of an optional string.
pub fn clone_opt(o: &Option<String>) -> (r: Option<String>)
    ensures r == *o,
{
    match o {
        Some(s) => Some(s.clone()),
        None => None,
    }
}

fn adapter_of(raw: &Option<String>) -> (r: CapabilityAdapterKind)
    ensures r == adapter_kind_spec(opt_view(*raw)),
{
    match raw {
        Some(s) => adapter_kind(Some(s.as_str())),
        None => adapter_kind(None),
    }
}

pub open spec fn scope_matches(s: ResolvedScopeRecord, ctx: OperatorContext, scope: ResolveScope) -> bool {
    s.env == scope.env && s.tenant == Some(ctx.tenant) && s.team == ctx.team
}

pub open spec fn callable_matches(c: ResolvedCallableRecord, o: CapabilityOfferRecord, ctx: OperatorContext, scope: ResolveScope) -> bool {
    &&& c.capability_id == o.cap_id
    &&& c.operation_id == o.operation_id
    &&& c.stable_id == o.stable_id
    &&& c.pack_id == o.pack_id
    &&& c.domain@ == domain_name_spec(o.domain)
    &&& c.pack_path == o.pack_path
    &&& c.provider_component_ref == o.provider_component_ref
    &&& c.provider_op == o.provider_op
    &&& c.input_schema_ref == o.input_schema_ref
    &&& c.output_schema_ref == o.output_schema_ref
    &&& c.version == o.version
    &&& c.requires_setup == o.requires_setup
    &&& c.setup_qa_ref == o.setup_qa_ref
    &&& c.adapter_kind == adapter_kind_spec(opt_view(o.adapter_kind))
    &&& scope_matches(c.scope, ctx, scope)
}

pub open spec fn topic_matches(t: ResolvedTopicRecord, o: CapabilityTopicRecord, ctx: OperatorContext, scope: ResolveScope) -> bool {
    &&& t.topic == o.topic
    &&& t.event_type == o.event_type
    &&& t.pack_id == o.pack_id
    &&& t.domain@ == domain_name_spec(o.domain)
    &&& t.pack_path == o.pack_path
    &&& t.publisher_component_ref == o.publisher_component_ref
    &&& t.publisher_op == o.publisher_op
    &&& t.payload_schema_ref == o.payload_schema_ref
    &&& t.adapter_kind == adapter_kind_spec(opt_view(o.adapter_kind))
    &&& t.priority == o.priority
    &&& scope_matches(t.scope, ctx, scope)
}

pub open spec fn subscription_matches(s: ResolvedSubscriptionRecord, o: CapabilitySubscriptionRecord, ctx: OperatorContext, scope: ResolveScope) -> bool {
    &&& s.subscription_id == o.subscription_id
    &&& s.topic == o.topic
    &&& s.event_type == o.event_type
    &&& s.pack_id == o.pack_id
    &&& s.domain@ == domain_name_spec(o.domain)
    &&& s.pack_path == o.pack_path
    &&& s.capability_id == o.capability_id
    &&& s.op == o.op
    &&& s.payload_schema_ref == o.payload_schema_ref
    &&& s.filter_json_pointer == o.filter_json_pointer
    &&& s.filter_equals == o.filter_equals
    &&& s.delivery_mode == o.delivery_mode
    &&& s.max_attempts == o.max_attempts
    &&& s.priority == o.priority
    &&& scope_matches(s.scope, ctx, scope)
}

fn resolved_scope(ctx: &OperatorContext, scope: &ResolveScope) -> (r: ResolvedScopeRecord)
    ensures scope_matches(r, *ctx, *scope),
{
    ResolvedScopeRecord { env: clone_opt(&scope.env), tenant: Some(ctx.tenant.clone()), team: clone_opt(&ctx.team) }
}

/// Resolves the declared offers, topics and subscriptions for the tenant and
/// team of `ctx` in `scope`: one record per declaration, in order.
pub fn build_catalog_artifacts(
    offers: &[CapabilityOfferRecord],
    topics: &[CapabilityTopicRecord],
    subscriptions: &[CapabilitySubscriptionRecord],
    ctx: &OperatorContext,
    scope: &ResolveScope,
) -> (r: CapabilityCatalogArtifacts)
    ensures
        r.callables@.len() == offers@.len(),
        forall|i: int| 0 <= i < offers@.len() ==> callable_matches(#[trigger] r.callables@[i], offers@[i], *ctx, *scope),
        r.topics@.len() == topics@.len(),
        forall|i: int| 0 <= i < topics@.len() ==> topic_matches(#[trigger] r.topics@[i], topics@[i], *ctx, *scope),
        r.subscriptions@.len() == subscriptions@.len(),
        forall|i: int| 0 <= i < subscriptions@.len() ==> subscription_matches(#[trigger] r.subscriptions@[i], subscriptions@[i], *ctx, *scope),
{
    let mut callables: Vec<ResolvedCallableRecord> = Vec::new();
    let mut i: usize = 0;
    while i < offers.len()
        invariant
            i <= offers@.len(),
            callables@.len() == i,
            forall|k: int| 0 <= k < i ==> callable_matches(#[trigger] callables@[k], offers@[k], *ctx, *scope),
        decreases offers.len() - i,
    {
        let offer = &offers[i];
        callables.push(ResolvedCallableRecord {
            capability_id: offer.cap_id.clone(),
            operation_id: clone_opt(&offer.operation_id),
            stable_id: offer.stable_id.clone(),
            pack_id: offer.pack_id.clone(),
            domain: domain_name(offer.domain),
            pack_path: offer.pack_path.clone(),
            provider_component_ref: offer.provider_component_ref.clone(),
            provider_op: offer.provider_op.clone(),
            input_schema_ref: clone_opt(&offer.input_schema_ref),
            output_schema_ref: clone_opt(&offer.output_schema_ref),
            version: offer.version.clone(),
            requires_setup: offer.requires_setup,
            setup_qa_ref: clone_opt(&offer.setup_qa_ref),
            adapter_kind: adapter_of(&offer.adapter_kind),
            scope: resolved_scope(ctx, scope),
        });
        i = i + 1;
    }
    let mut resolved_topics: Vec<ResolvedTopicRecord> = Vec::new();
    let mut i: usize = 0;
    while i < topics.len()
        invariant
            i <= topics@.len(),
            resolved_topics@.len() == i,
            forall|k: int| 0 <= k < i ==> topic_matches(#[trigger] resolved_topics@[k], topics@[k], *ctx, *scope),
        decreases topics.len() - i,
    {
        let topic = &topics[i];
        resolved_topics.push(ResolvedTopicRecord {
            topic: topic.topic.clone(),
            event_type: topic.event_type.clone(),
            pack_id: topic.pack_id.clone(),
            domain: domain_name(topic.domain),
            pack_path: topic.pack_path.clone(),
            publisher_component_ref: topic.publisher_component_ref.clone(),
            publisher_op: topic.publisher_op.clone(),
            payload_schema_ref: clone_opt(&topic.payload_schema_ref),
            adapter_kind: adapter_of(&topic.adapter_kind),
            priority: topic.priority,
            scope: resolved_scope(ctx, scope),
        });
        i = i + 1;
    }
    let mut resolved_subscriptions: Vec<ResolvedSubscriptionRecord> = Vec::new();
    let mut i: usize = 0;
    while i < subscriptions.len()
        invariant
            i <= subscriptions@.len(),
            resolved_subscriptions@.len() == i,
            forall|k: int| 0 <= k < i ==> subscription_matches(#[trigger] resolved_subscriptions@[k], subscriptions@[k], *ctx, *scope),
        decreases subscriptions.len() - i,
    {
        let s = &subscriptions[i];
        resolved_subscriptions.push(ResolvedSubscriptionRecord {
            subscription_id: s.subscription_id.clone(),
            topic: s.topic.clone(),
            event_type: s.event_type.clone(),
            pack_id: s.pack_id.clone(),
            domain: domain_name(s.domain),
            pack_path: s.pack_path.clone(),
            capability_id: s.capability_id.clone(),
            op: s.op.clone(),
            payload_schema_ref: clone_opt(&s.payload_schema_ref),
            filter_json_pointer: clone_opt(&s.filter_json_pointer),
            filter_equals: clone_opt(&s.filter_equals),
            delivery_mode: s.delivery_mode.clone(),
            max_attempts: s.max_attempts,
            priority: s.priority,
            scope: resolved_scope(ctx, scope),
        });
        i = i + 1;
    }
    CapabilityCatalogArtifacts { callables, subscriptions: resolved_subscriptions, topics: resolved_topics }
}

/// Each resolved callable is its own offer's: same capability, operation,
/// pack and version, and the offer's own input and output schema references.
pub proof fn lemma_callables_keep_their_offers(
    callables: Seq<ResolvedCallableRecord>,
    offers: Seq<CapabilityOfferRecord>,
    ctx: OperatorContext,
    scope: ResolveScope,
)
    requires
        callables.len() == offers.len(),
        forall|i: int| 0 <= i < offers.len() ==> callable_matches(#[trigger] callables[i], offers[i], ctx, scope),
    ensures
        forall|i: int| 0 <= i < offers.len() ==> {
            let c = #[trigger] callables[i];
            &&& c.capability_id == offers[i].cap_id
            &&& c.operation_id == offers[i].operation_id
            &&& c.pack_id == offers[i].pack_id
            &&& c.version == offers[i].version
            &&& c.input_schema_ref == offers[i].input_schema_ref
            &&& c.output_schema_ref == offers[i].output_schema_ref
        },
{
}

} // verus!
