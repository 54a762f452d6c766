//! Decisions of the `/deployments/*` HTTP routes: the trust boundary, the
//! routing, the `complete-drain` precondition and the mapping of operation
//! errors to HTTP statuses.
//!
//! Reading request bodies, talking to the environment store and building
//! HTTP responses are the caller's part.
use vstd::prelude::*;
use vstd::string::StringSliceAdditionalSpecFns;
use crate::text::{owned, concat, chars_vec, string_of, has_prefix_at, starts_with, ascii_lower, to_ascii_lower, ascii_upper, is_ascii_lower, ascii_upper_seq, prefix_until, lemma_prefix_until};

verus! {

/// The largest request body the routes read.
pub const MAX_BODY_BYTES: usize = 512 * 1024;

/// The environment variable that overrides the environment-store root.
pub fn env_root_var() -> (r: String)
    ensures r@ == "GREENTIC_OPERATOR_ENV_ROOT"@,
{
    owned("GREENTIC_OPERATOR_ENV_ROOT")
}

/// Shared state of the routes.
pub struct DeploymentsState {
    /// Root of the environment store; `None` falls back to the environment
    /// variable, then to the per-user default.
    pub env_root: Option<String>,
    /// Whether only loopback peers are served.
    pub loopback_only: bool,
}

impl DeploymentsState {
    pub fn new() -> (r: Self)
        ensures r.env_root is None, r.loopback_only,
    {
        DeploymentsState { env_root: None, loopback_only: true }
    }
}

impl Default for DeploymentsState {
    fn default() -> (r: Self)
        ensures r.env_root is None, r.loopback_only,
    {
        DeploymentsState::new()
    }
}

/// A refusal, as an HTTP status and the message of its JSON body.
pub struct HttpFailure {
    pub status: u16,
    pub message: String,
}

/// The environment-store root: the state's, else a non-empty override from
/// the environment, else the per-user default.
pub fn choose_env_root(state: &DeploymentsState, env_override: Option<&str>, default_root: Option<String>) -> (r: Result<String, HttpFailure>)
    ensures
        match state.env_root {
            Some(root) => r matches Ok(p) && p == root,
            None => match env_override {
                Some(o) if o@.len() > 0 => r matches Ok(p) && p@ == o@,
                _ => match default_root {
                    Some(d) => r matches Ok(p) && p == d,
                    None => r matches Err(f) && f.status == 500
                        && f.message@ == "no env-store root: HOME / USERPROFILE not set and GREENTIC_OPERATOR_ENV_ROOT unset"@,
                },
            },
        },
{
    match &state.env_root {
        Some(root) => return Ok(root.clone()),
        None => {},
    }
    match env_override {
        Some(o) => if o.unicode_len() > 0 {
            return Ok(owned(o));
        },
        None => {},
    }
    match default_root {
        Some(d) => Ok(d),
        None => Err(HttpFailure {
            status: 500,
            message: owned("no env-store root: HOME / USERPROFILE not set and GREENTIC_OPERATOR_ENV_ROOT unset"),
        }),
    }
}

// ----- origins ------------------------------------------------------------

fn take_until(v: &Vec<char>, from: usize, c: char) -> (r: String)
    requires from <= v@.len(),
    ensures r@ == prefix_until(v@.subrange(from as int, v@.len() as int), c),
{
    let mut i: usize = from;
    while i < v.len() && v[i] != c
        invariant
            from <= i <= v@.len(),
            forall|k: int| from <= k < i ==> v@[k] != c,
        decreases v.len() - i,
    {
        i = i + 1;
    }
    proof {
        let s = v@.subrange(from as int, v@.len() as int);
        lemma_prefix_until(s, c);
        let p = prefix_until(s, c);
        if p.len() < i - from {
            assert(s[p.len() as int] == v@[from + p.len()]);
        } else if p.len() > i - from {
            assert(s[i - from] == v@[i as int]);
        }
        assert(s.subrange(0, i - from) =~= v@.subrange(from as int, i as int));
    }
    string_of(v, from, i)
}

/// `origin` without a leading `http://` or `https://`.
pub open spec fn after_scheme(o: Seq<char>) -> Seq<char> {
    if starts_with(o, "http://"@) {
        o.subrange(7, o.len() as int)
    } else if starts_with(o, "https://"@) {
        o.subrange(8, o.len() as int)
    } else {
        o
    }
}

/// The host of an origin, without port and without the brackets of an IPv6 literal.
pub open spec fn origin_host(o: Seq<char>) -> Seq<char> {
    let host = prefix_until(after_scheme(o), '/');
    if host.len() > 0 && host[0] == '[' {
        prefix_until(host.drop_first(), ']')
    } else {
        prefix_until(host, ':')
    }
}

/// Whether `o` is `null` in any letter case.
pub open spec fn is_null_origin(o: Seq<char>) -> bool {
    o.len() == 4 && ascii_lower(o[0]) == 'n' && ascii_lower(o[1]) == 'u' && ascii_lower(o[2]) == 'l'
        && ascii_lower(o[3]) == 'l'
}

pub open spec fn loopback_host(h: Seq<char>) -> bool {
    h == "localhost"@ || h == "127.0.0.1"@ || h == "::1"@ || h == "0:0:0:0:0:0:0:1"@
}

pub open spec fn loopback_origin_spec(o: Seq<char>) -> bool {
    is_null_origin(o) || loopback_host(origin_host(o))
}

/// Whether an `Origin` header names the local machine: `null` in any case,
/// or an origin whose host is `localhost`, `127.0.0.1` or `[::1]`, with any
/// scheme prefix, port or path.
pub fn is_loopback_origin(origin: &str) -> (r: bool)
    ensures r == loopback_origin_spec(origin@),
{
    let v = chars_vec(origin);
    if v.len() == 4 && to_ascii_lower(v[0]) == 'n' && to_ascii_lower(v[1]) == 'u'
        && to_ascii_lower(v[2]) == 'l' && to_ascii_lower(v[3]) == 'l' {
        return true;
    }
    let start: usize = if has_prefix_at(&v, 0, "http://") {
        7
    } else if has_prefix_at(&v, 0, "https://") {
        8
    } else {
        0
    };
    proof {
        assert(v@.subrange(0, v@.len() as int) =~= v@);
        reveal_strlit("http://");
        reveal_strlit("https://");
        if start == 0 {
            assert(after_scheme(v@) == v@.subrange(0, v@.len() as int));
        }
    }
    let host = take_until(&v, start, '/');
    let hv = chars_vec(host.as_str());
    let name = if hv.len() > 0 && hv[0] == '[' {
        proof { assert(hv@.subrange(1, hv@.len() as int) =~= hv@.drop_first()); }
        take_until(&hv, 1, ']')
    } else {
        proof { assert(hv@.subrange(0, hv@.len() as int) =~= hv@); }
        take_until(&hv, 0, ':')
    };
    let r = name == owned("localhost") || name == owned("127.0.0.1") || name == owned("::1")
        || name == owned("0:0:0:0:0:0:0:1");
    r
}

/// A refusal of the trust boundary.
pub open spec fn forbidden(r: Result<(), HttpFailure>, message: Seq<char>) -> bool {
    r matches Err(f) && f.status == 403 && f.message@ == message
}

/// Enforces the trust boundary of the routes: with `loopback_only`, the
/// peer must be on the loopback interface; an `Origin` header, when present,
/// must name the local machine. `peer` is the peer address as text.
pub fn check_trust_boundary(
    peer_is_loopback: bool,
    peer: &str,
    origin: Option<&str>,
    state: &DeploymentsState,
) -> (r: Result<(), HttpFailure>)
    ensures
        if state.loopback_only && !peer_is_loopback {
            forbidden(r, "/deployments/* refused: peer "@ + peer@
                + " is not loopback; mTLS / admin admission is Phase D (plan §B4b)"@)
        } else {
            match origin {
                Some(o) if !loopback_origin_spec(o@) => forbidden(r, "/deployments/* refused: Origin `"@ + o@
                    + "` is not loopback; cross-origin browser callers are blocked until mTLS lands"@),
                _ => r is Ok,
            }
        },
{
    if state.loopback_only && !peer_is_loopback {
        let mut message = concat("/deployments/* refused: peer ", peer);
        message.append(" is not loopback; mTLS / admin admission is Phase D (plan §B4b)");
        return Err(HttpFailure { status: 403, message });
    }
    match origin {
        Some(o) => if !is_loopback_origin(o) {
            let mut message = concat("/deployments/* refused: Origin `", o);
            message.append("` is not loopback; cross-origin browser callers are blocked until mTLS lands");
            return Err(HttpFailure { status: 403, message });
        },
        None => {},
    }
    Ok(())
}

// ----- routing ------------------------------------------------------------

/// What a request to `/deployments/*` asks for.
pub enum Route {
    Stage,
    Warm,
    Activate,
    Rollback,
    CompleteDrain,
    Refused(HttpFailure),
}

/// `s` without any number of trailing `c`.
pub open spec fn trim_end_char(s: Seq<char>, c: char) -> Seq<char>
    decreases s.len(),
{
    if s.len() > 0 && s.last() == c { trim_end_char(s.drop_last(), c) } else { s }
}

/// The part of the path after `/deployments`, without trailing slashes
/// (empty when the path does not start with `/deployments`).
pub open spec fn sub_path(path: Seq<char>) -> Seq<char> {
    if starts_with(path, "/deployments"@) {
        trim_end_char(path.subrange(12, path.len() as int), '/')
    } else {
        Seq::empty()
    }
}

pub open spec fn known_verb(s: Seq<char>) -> bool {
    s == "/stage"@ || s == "/warm"@ || s == "/activate"@ || s == "/rollback"@ || s == "/complete-drain"@
}

pub open spec fn route_spec(is_post: bool, path: Seq<char>, r: Route) -> bool {
    let sub = sub_path(path);
    if is_post && sub == "/stage"@ {
        r is Stage
    } else if is_post && sub == "/warm"@ {
        r is Warm
    } else if is_post && sub == "/activate"@ {
        r is Activate
    } else if is_post && sub == "/rollback"@ {
        r is Rollback
    } else if is_post && sub == "/complete-drain"@ {
        r is CompleteDrain
    } else if known_verb(sub) {
        r matches Route::Refused(f) && f.status == 405 && f.message@ == "only POST allowed on /deployments"@ + sub
    } else {
        r matches Route::Refused(f) && f.status == 404 && f.message@ == "unknown /deployments endpoint: "@ + sub
    }
}

fn sub_path_of(path: &str) -> (r: String)
    ensures r@ == sub_path(path@),
{
    let v = chars_vec(path);
    if !has_prefix_at(&v, 0, "/deployments") {
        proof { assert(v@.subrange(0, v@.len() as int) =~= v@); }
        return String::new();
    }
    proof {
        assert(v@.subrange(0, v@.len() as int) =~= v@);
        reveal_strlit("/deployments");
    }
    let mut end: usize = v.len();
    let ghost rest = v@.subrange(12, v@.len() as int);
    while end > 12 && v[end - 1] == '/'
        invariant
            12 <= end <= v@.len(),
            rest == v@.subrange(12, v@.len() as int),
            trim_end_char(rest, '/') == trim_end_char(v@.subrange(12, end as int), '/'),
        decreases end,
    {
        proof { assert(v@.subrange(12, end as int).drop_last() =~= v@.subrange(12, end - 1)); }
        end = end - 1;
    }
    string_of(&v, 12, end)
}

/// Routes a request by method and path.
pub fn route(is_post: bool, path: &str) -> (r: Route)
    ensures route_spec(is_post, path@, r),
{
    let sub = sub_path_of(path);
    let stage = sub == owned("/stage");
    let warm = sub == owned("/warm");
    let activate = sub == owned("/activate");
    let rollback = sub == owned("/rollback");
    let drain = sub == owned("/complete-drain");
    if is_post && stage {
        Route::Stage
    } else if is_post && warm {
        Route::Warm
    } else if is_post && activate {
        Route::Activate
    } else if is_post && rollback {
        Route::Rollback
    } else if is_post && drain {
        Route::CompleteDrain
    } else if stage || warm || activate || rollback || drain {
        Route::Refused(HttpFailure { status: 405, message: concat("only POST allowed on /deployments", sub.as_str()) })
    } else {
        Route::Refused(HttpFailure { status: 404, message: concat("unknown /deployments endpoint: ", sub.as_str()) })
    }
}

/// The refusal of a body that could not be read: too large, or broken.
pub fn body_read_failure(too_large: bool, detail: &str) -> (r: HttpFailure)
    ensures
        too_large ==> r.status == 413 && r.message@ == "body exceeds 524288 bytes"@,
        !too_large ==> r.status == 400 && r.message@ == "read body: "@ + detail@,
{
    if too_large {
        HttpFailure { status: 413, message: owned("body exceeds 524288 bytes") }
    } else {
        HttpFailure { status: 400, message: concat("read body: ", detail) }
    }
}

/// The refusal of a body that is not the expected JSON.
pub fn invalid_json_failure(detail: &str) -> (r: HttpFailure)
    ensures r.status == 400, r.message@ == "invalid JSON: "@ + detail@,
{
    HttpFailure { status: 400, message: concat("invalid JSON: ", detail) }
}

// ----- operation errors ---------------------------------------------------

/// The kinds of error a deployment operation reports.
#[derive(Clone, Copy, Debug, PartialEq, Eq, Structural)]
pub enum OpErrorKind {
    Store,
    Spec,
    Io,
    AnswersParse,
    SchemaGeneration,
    InvalidArgument,
    NotFound,
    NotYetImplemented,
    Conflict,
    Unauthorized,
    Audit,
    RevenuePolicy,
    TrustRoot,
    OperatorKey,
}

pub open spec fn op_status_spec(kind: OpErrorKind) -> u16 {
    match kind {
        OpErrorKind::NotFound => 404,
        OpErrorKind::Conflict => 409,
        OpErrorKind::Unauthorized => 403,
        OpErrorKind::InvalidArgument | OpErrorKind::Spec | OpErrorKind::AnswersParse => 400,
        OpErrorKind::NotYetImplemented => 501,
        OpErrorKind::Store | OpErrorKind::Io | OpErrorKind::SchemaGeneration | OpErrorKind::Audit
        | OpErrorKind::RevenuePolicy | OpErrorKind::TrustRoot | OpErrorKind::OperatorKey => 500,
    }
}

/// The HTTP status of an operation error, as the CLI's exit codes classify it.
pub fn op_error_status(kind: OpErrorKind) -> (r: u16)
    ensures r == op_status_spec(kind),
{
    match kind {
        OpErrorKind::NotFound => 404,
        OpErrorKind::Conflict => 409,
        OpErrorKind::Unauthorized => 403,
        OpErrorKind::InvalidArgument | OpErrorKind::Spec | OpErrorKind::AnswersParse => 400,
        OpErrorKind::NotYetImplemented => 501,
        OpErrorKind::Store | OpErrorKind::Io | OpErrorKind::SchemaGeneration | OpErrorKind::Audit
        | OpErrorKind::RevenuePolicy | OpErrorKind::TrustRoot | OpErrorKind::OperatorKey => 500,
    }
}

/// An operation error raised here, with the detail it carries.
pub struct OpFailure {
    pub kind: OpErrorKind,
    pub detail: String,
}

// ----- complete-drain -----------------------------------------------------

/// The lifecycle states of a revision.
#[derive(Clone, Copy, Debug, PartialEq, Eq, Structural)]
pub enum RevisionLifecycle {
    Inactive,
    Staged,
    Warming,
    Ready,
    Draining,
    Failed,
    Archived,
}

pub open spec fn lifecycle_name_spec(l: RevisionLifecycle) -> Seq<char> {
    match l {
        RevisionLifecycle::Staged => "Staged"@,
        RevisionLifecycle::Warming => "Warming"@,
        RevisionLifecycle::Ready => "Ready"@,
        RevisionLifecycle::Draining => "Draining"@,
        RevisionLifecycle::Inactive => "Inactive"@,
        RevisionLifecycle::Failed => "Failed"@,
        RevisionLifecycle::Archived => "Archived"@,
    }
}

/// The name of a lifecycle state.
pub fn lifecycle_name(l: RevisionLifecycle) -> (r: String)
    ensures r@ == lifecycle_name_spec(l),
{
    match l {
        RevisionLifecycle::Staged => owned("Staged"),
        RevisionLifecycle::Warming => owned("Warming"),
        RevisionLifecycle::Ready => owned("Ready"),
        RevisionLifecycle::Draining => owned("Draining"),
        RevisionLifecycle::Inactive => owned("Inactive"),
        RevisionLifecycle::Failed => owned("Failed"),
        RevisionLifecycle::Archived => owned("Archived"),
    }
}

/// A revision of an environment, as far as the drain check reads it.
pub struct RevisionSummary {
    /// The revision's ULID, as its 128-bit value.
    pub revision_id: u128,
    pub lifecycle: RevisionLifecycle,
}

/// An environment, as far as the drain check reads it.
pub struct EnvironmentRevisions {
    pub revisions: Vec<RevisionSummary>,
}

/// Why a text is not a ULID.
#[derive(Clone, Copy, Debug, PartialEq, Eq, Structural)]
pub enum UlidDecodeError {
    InvalidLength,
    InvalidChar,
}

/// The number of bytes of `c` in UTF-8.
pub open spec fn utf8_len_char(c: char) -> int {
    if (c as u32) < 0x80 { 1 } else if (c as u32) < 0x800 { 2 } else if (c as u32) < 0x10000 { 3 } else { 4 }
}

/// The number of bytes of `s` in UTF-8.
pub open spec fn utf8_len(s: Seq<char>) -> int
    decreases s.len(),
{
    if s.len() == 0 { 0 } else { utf8_len(s.drop_last()) + utf8_len_char(s.last()) }
}

/// The value of a Crockford base-32 digit, in either letter case; `I`, `L`,
/// `O` and `U` are no digits.
pub open spec fn base32_digit(c: char) -> Option<int> {
    let u = ascii_upper(c);
    if '0' <= u && u <= '9' {
        Some(u as int - '0' as int)
    } else if 'A' <= u && u <= 'H' {
        Some(u as int - 'A' as int + 10)
    } else if u == 'J' || u == 'K' {
        Some(u as int - 'J' as int + 18)
    } else if u == 'M' || u == 'N' {
        Some(u as int - 'M' as int + 20)
    } else if 'P' <= u && u <= 'T' {
        Some(u as int - 'P' as int + 22)
    } else if 'V' <= u && u <= 'Z' {
        Some(u as int - 'V' as int + 27)
    } else {
        None
    }
}

/// The value of the digits `s[..n]`, most significant first, in 128 bits
/// (higher bits are shifted out).
pub open spec fn base32_value(s: Seq<char>, n: int) -> int
    decreases n,
{
    if n <= 0 {
        0
    } else {
        (base32_value(s, n - 1) * 32 + base32_digit(s[n - 1])->Some_0) % 0x1_0000_0000_0000_0000_0000_0000_0000_0000int
    }
}

/// The value of a ULID text as `ulid::Ulid::from_str` decodes it: a text
/// that is not 26 bytes long is refused for its length, one holding a
/// character that is no base-32 digit for that character, and the digits of
/// any other give the value.
pub open spec fn ulid_decode(s: Seq<char>) -> Result<u128, UlidDecodeError> {
    if utf8_len(s) != 26 {
        Err(UlidDecodeError::InvalidLength)
    } else if exists|i: int| 0 <= i < s.len() && #[trigger] base32_digit(s[i]) is None {
        Err(UlidDecodeError::InvalidChar)
    } else {
        Ok(base32_value(s, s.len() as int) as u128)
    }
}

/// Parses a ULID with `ulid::Ulid::from_str`. Claims that the result is
/// `ulid_decode` of the text, as `ulid::base32::decode` computes it: the
/// byte length checked first, then each byte looked up in its table (which
/// maps a lower-case letter as its upper-case form) and shifted in.
#[verifier::external_body]
fn parse_ulid(s: &str) -> (r: Result<u128, UlidDecodeError>)
    ensures
        r == ulid_decode(s@),
{
    match <ulid::Ulid as std::str::FromStr>::from_str(s) {
        Ok(u) => Ok(u.0),
        Err(ulid::DecodeError::InvalidLength) => Err(UlidDecodeError::InvalidLength),
        Err(ulid::DecodeError::InvalidChar) => Err(UlidDecodeError::InvalidChar),
    }
}

proof fn lemma_upper_char(c: char)
    ensures
        ascii_upper(ascii_upper(c)) == ascii_upper(c),
        utf8_len_char(ascii_upper(c)) == utf8_len_char(c),
        base32_digit(ascii_upper(c)) == base32_digit(c),
{
    if is_ascii_lower(c) {
        assert(ascii_upper(c) as u32 == c as u32 - 32);
    }
}

/// A revision id decodes as its ASCII upper-case form does.
proof fn lemma_ulid_decode_upper(s: Seq<char>)
    ensures
        ulid_decode(s) == ulid_decode(ascii_upper_seq(s)),
{
    let u = ascii_upper_seq(s);
    assert forall|i: int| 0 <= i < s.len() implies #[trigger] base32_digit(u[i]) == base32_digit(s[i]) by {
        lemma_upper_char(s[i]);
    }
    lemma_utf8_len_upper(s);
    lemma_base32_value_upper(s, s.len() as int);
    if exists|i: int| 0 <= i < s.len() && #[trigger] base32_digit(s[i]) is None {
        let i = choose|i: int| 0 <= i < s.len() && #[trigger] base32_digit(s[i]) is None;
        assert(base32_digit(u[i]) is None);
    }
    if exists|i: int| 0 <= i < u.len() && #[trigger] base32_digit(u[i]) is None {
        let i = choose|i: int| 0 <= i < u.len() && #[trigger] base32_digit(u[i]) is None;
        assert(base32_digit(s[i]) is None);
    }
}

proof fn lemma_utf8_len_upper(s: Seq<char>)
    ensures
        utf8_len(ascii_upper_seq(s)) == utf8_len(s),
    decreases s.len(),
{
    if s.len() > 0 {
        lemma_utf8_len_upper(s.drop_last());
        assert(ascii_upper_seq(s).drop_last() =~= ascii_upper_seq(s.drop_last()));
        lemma_upper_char(s.last());
    }
}

proof fn lemma_base32_value_upper(s: Seq<char>, n: int)
    requires
        0 <= n <= s.len(),
    ensures
        base32_value(ascii_upper_seq(s), n) == base32_value(s, n),
    decreases n,
{
    if n > 0 {
        lemma_base32_value_upper(s, n - 1);
        lemma_upper_char(s[n - 1]);
    }
}

pub open spec fn decode_error_text(e: UlidDecodeError) -> Seq<char> {
    match e {
        UlidDecodeError::InvalidLength => "invalid length"@,
        UlidDecodeError::InvalidChar => "invalid character"@,
    }
}

pub open spec fn has_revision(env: EnvironmentRevisions, id: u128) -> bool {
    exists|i: int| 0 <= i < env.revisions@.len() && #[trigger] env.revisions@[i].revision_id == id
}

/// The precondition of `complete-drain`: `revision_id` must be a ULID (in
/// either letter case) of a revision of the environment, and the first such
/// revision must be `Draining`. An id names the same revision as its ASCII
/// upper-case form.
pub fn precheck_drain_completable(env: &EnvironmentRevisions, revision_id: &str) -> (r: Result<(), OpFailure>)
    ensures
        ulid_decode(revision_id@) == ulid_decode(ascii_upper_seq(revision_id@)),
        match ulid_decode(revision_id@) {
            Err(e) => r matches Err(f) && f.kind == OpErrorKind::InvalidArgument
                && f.detail@ == "revision_id: "@ + decode_error_text(e),
            Ok(target) => if !has_revision(*env, target) {
                r matches Err(f) && f.kind == OpErrorKind::NotFound
                    && f.detail@ == "revision `"@ + revision_id@ + "` not found in env"@
            } else {
                exists|i: int| 0 <= i < env.revisions@.len()
                    && env.revisions@[i].revision_id == target
                    && (forall|j: int| 0 <= j < i ==> #[trigger] env.revisions@[j].revision_id != target)
                    && if env.revisions@[i].lifecycle == RevisionLifecycle::Draining {
                        r is Ok
                    } else {
                        r matches Err(f) && f.kind == OpErrorKind::Conflict
                            && f.detail@ == "/complete-drain requires revision in `Draining`; revision `"@ + revision_id@
                                + "` is `"@ + lifecycle_name_spec(env.revisions@[i].lifecycle)
                                + "`. Initiate drain (`Ready → Draining`) before completing it."@
                    }
            },
        },
{
    proof { lemma_ulid_decode_upper(revision_id@); }
    let target = match parse_ulid(revision_id) {
        Ok(t) => t,
        Err(e) => {
            let text = match e {
                UlidDecodeError::InvalidLength => "invalid length",
                UlidDecodeError::InvalidChar => "invalid character",
            };
            return Err(OpFailure { kind: OpErrorKind::InvalidArgument, detail: concat("revision_id: ", text) });
        },
    };
    let mut i: usize = 0;
    while i < env.revisions.len()
        invariant
            ulid_decode(revision_id@) == Ok::<u128, UlidDecodeError>(target),
            ulid_decode(revision_id@) == ulid_decode(ascii_upper_seq(revision_id@)),
            i <= env.revisions@.len(),
            forall|j: int| 0 <= j < i ==> #[trigger] env.revisions@[j].revision_id != target,
        decreases env.revisions.len() - i,
    {
        let rev = &env.revisions[i];
        if rev.revision_id == target {
            assert(has_revision(*env, target));
            assert(env.revisions@[i as int].revision_id == target);
            if rev.lifecycle == RevisionLifecycle::Draining {
                return Ok(());
            }
            let mut detail = concat("/complete-drain requires revision in `Draining`; revision `", revision_id);
            detail.append("` is `");
            let name = lifecycle_name(rev.lifecycle);
            detail.append(name.as_str());
            detail.append("`. Initiate drain (`Ready → Draining`) before completing it.");
            return Err(OpFailure { kind: OpErrorKind::Conflict, detail });
        }
        i = i + 1;
    }
    let mut detail = concat("revision `", revision_id);
    detail.append("` not found in env");
    Err(OpFailure { kind: OpErrorKind::NotFound, detail })
}

} // verus!
