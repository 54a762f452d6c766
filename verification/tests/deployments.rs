use greentic_operator::deployments::{
    body_read_failure, check_trust_boundary, choose_env_root, invalid_json_failure, is_loopback_origin,
    op_error_status, precheck_drain_completable, route, DeploymentsState, EnvironmentRevisions,
    OpErrorKind, RevisionLifecycle, RevisionSummary, Route, MAX_BODY_BYTES,
};

fn state(loopback_only: bool) -> DeploymentsState {
    DeploymentsState { env_root: Some("/tmp/envs".to_string()), loopback_only }
}

const REMOTE_PEER: &str = "203.0.113.7:1234";
const LOOPBACK_PEER: &str = "127.0.0.1:1234";

#[test]
fn max_body_bytes_constant_is_reasonable() {
    assert_eq!(MAX_BODY_BYTES, 512 * 1024);
}

#[test]
fn unknown_subpath_returns_404() {
    match route(true, "/deployments/bogus") {
        Route::Refused(f) => {
            assert_eq!(f.status, 404);
            assert_eq!(f.message, "unknown /deployments endpoint: /bogus");
        }
        _ => panic!("bogus path must error"),
    }
}

#[test]
fn wrong_method_returns_405() {
    for verb in ["/stage", "/warm", "/activate", "/rollback", "/complete-drain"] {
        let path = format!("/deployments{verb}");
        match route(false, &path) {
            Route::Refused(f) => assert_eq!(f.status, 405, "GET {path} should 405"),
            _ => panic!("GET must error"),
        }
    }
}

#[test]
fn post_routes_to_each_verb_with_trailing_slashes() {
    assert!(matches!(route(true, "/deployments/stage"), Route::Stage));
    assert!(matches!(route(true, "/deployments/warm/"), Route::Warm));
    assert!(matches!(route(true, "/deployments/activate//"), Route::Activate));
    assert!(matches!(route(true, "/deployments/rollback"), Route::Rollback));
    assert!(matches!(route(true, "/deployments/complete-drain"), Route::CompleteDrain));
    match route(true, "/other/stage") {
        Route::Refused(f) => {
            assert_eq!(f.status, 404);
            assert_eq!(f.message, "unknown /deployments endpoint: ");
        }
        _ => panic!("foreign prefix must be unknown"),
    }
}

#[test]
fn body_and_json_failures_map_to_statuses() {
    let big = body_read_failure(true, "ignored");
    assert_eq!(big.status, 413);
    assert_eq!(big.message, "body exceeds 524288 bytes");
    let broken = body_read_failure(false, "reset");
    assert_eq!(broken.status, 400);
    assert_eq!(broken.message, "read body: reset");
    let bad = invalid_json_failure("expected value");
    assert_eq!(bad.status, 400);
    assert_eq!(bad.message, "invalid JSON: expected value");
}

#[test]
fn op_error_to_status_covers_every_variant() {
    let cases = [
        (OpErrorKind::Store, 500),
        (OpErrorKind::Spec, 400),
        (OpErrorKind::Io, 500),
        (OpErrorKind::AnswersParse, 400),
        (OpErrorKind::SchemaGeneration, 500),
        (OpErrorKind::InvalidArgument, 400),
        (OpErrorKind::NotFound, 404),
        (OpErrorKind::NotYetImplemented, 501),
        (OpErrorKind::Conflict, 409),
        (OpErrorKind::Unauthorized, 403),
        (OpErrorKind::Audit, 500),
        (OpErrorKind::RevenuePolicy, 500),
        (OpErrorKind::TrustRoot, 500),
        (OpErrorKind::OperatorKey, 500),
    ];
    for (kind, expected) in cases {
        assert_eq!(op_error_status(kind), expected, "{kind:?} should map to {expected}");
    }
}

#[test]
fn check_trust_boundary_blocks_non_loopback_peer() {
    let err = check_trust_boundary(false, REMOTE_PEER, None, &state(true)).err().expect("remote peer must be refused");
    assert_eq!(err.status, 403);
    assert_eq!(
        err.message,
        "/deployments/* refused: peer 203.0.113.7:1234 is not loopback; mTLS / admin admission is Phase D (plan §B4b)"
    );
}

#[test]
fn check_trust_boundary_allows_loopback_peer_without_origin() {
    assert!(check_trust_boundary(true, LOOPBACK_PEER, None, &state(true)).is_ok(), "loopback must pass");
}

#[test]
fn check_trust_boundary_allows_loopback_origin() {
    let s = state(true);
    for origin in ["http://127.0.0.1:8080", "http://localhost:8080", "http://[::1]:8080", "null"] {
        assert!(check_trust_boundary(true, LOOPBACK_PEER, Some(origin), &s).is_ok(), "{origin} must pass");
    }
}

#[test]
fn check_trust_boundary_blocks_cross_origin_csrf() {
    let err = check_trust_boundary(true, LOOPBACK_PEER, Some("https://evil.example.com"), &state(true))
        .err()
        .expect("remote Origin must be refused");
    assert_eq!(err.status, 403);
}

#[test]
fn loopback_only_false_disables_peer_check_but_keeps_origin_check() {
    let s = state(false);
    assert!(check_trust_boundary(false, REMOTE_PEER, None, &s).is_ok(), "remote peer must pass when loopback_only=false");
    let err = check_trust_boundary(false, REMOTE_PEER, Some("https://evil.example.com"), &s)
        .err()
        .expect("remote Origin must still be refused");
    assert_eq!(err.status, 403);
}

#[test]
fn is_loopback_origin_classifier() {
    for ok in [
        "http://localhost",
        "http://localhost:3000",
        "https://localhost",
        "http://127.0.0.1",
        "http://127.0.0.1:8080",
        "http://[::1]",
        "http://[::1]:8080",
        "null",
        "NULL",
    ] {
        assert!(is_loopback_origin(ok), "{ok} should classify as loopback");
    }
    for not_ok in [
        "http://example.com",
        "https://attacker.example",
        "http://127.0.0.1.evil.example",
        "http://localhostess.example",
        "http://10.0.0.1",
        "http://[2001:db8::1]",
    ] {
        assert!(!is_loopback_origin(not_ok), "{not_ok} must NOT classify as loopback");
    }
}

#[test]
fn env_root_prefers_state_then_override_then_default() {
    let explicit = state(true);
    assert_eq!(choose_env_root(&explicit, Some("/x"), None).ok(), Some("/tmp/envs".to_string()));
    let fresh = DeploymentsState::new();
    assert!(fresh.loopback_only);
    assert_eq!(choose_env_root(&fresh, Some("/x"), Some("/home".to_string())).ok(), Some("/x".to_string()));
    assert_eq!(choose_env_root(&fresh, Some(""), Some("/home".to_string())).ok(), Some("/home".to_string()));
    let err = choose_env_root(&fresh, None, None).err().expect("no root");
    assert_eq!(err.status, 500);
}

fn env_with_one_revision(id: u128, lifecycle: RevisionLifecycle) -> EnvironmentRevisions {
    EnvironmentRevisions { revisions: vec![RevisionSummary { revision_id: id, lifecycle }] }
}

#[test]
fn precheck_drain_completable_accepts_draining_revision() {
    let rev_id = ulid::Ulid::new();
    let env = env_with_one_revision(rev_id.0, RevisionLifecycle::Draining);
    assert!(precheck_drain_completable(&env, &rev_id.to_string()).is_ok(), "Draining revision must be accepted");
}

#[test]
fn precheck_drain_completable_rejects_ready_revision_with_conflict() {
    let rev_id = ulid::Ulid::new();
    let env = env_with_one_revision(rev_id.0, RevisionLifecycle::Ready);
    let err = precheck_drain_completable(&env, &rev_id.to_string()).err().expect("Ready revision must be refused");
    assert!(matches!(err.kind, OpErrorKind::Conflict));
    assert_eq!(op_error_status(err.kind), 409);
    assert!(err.detail.contains("is `Ready`"));
}

#[test]
fn precheck_drain_completable_rejects_other_lifecycle_states() {
    for lifecycle in [
        RevisionLifecycle::Inactive,
        RevisionLifecycle::Staged,
        RevisionLifecycle::Warming,
        RevisionLifecycle::Failed,
        RevisionLifecycle::Archived,
    ] {
        let rev_id = ulid::Ulid::new();
        let env = env_with_one_revision(rev_id.0, lifecycle);
        let err = precheck_drain_completable(&env, &rev_id.to_string()).err().expect("non-Draining must be refused");
        assert!(matches!(err.kind, OpErrorKind::Conflict), "got {:?}", err.kind);
    }
}

#[test]
fn precheck_drain_completable_accepts_lowercase_ulid_input() {
    let rev_id = ulid::Ulid::new();
    let env = env_with_one_revision(rev_id.0, RevisionLifecycle::Draining);
    let lower = rev_id.to_string().to_ascii_lowercase();
    assert!(precheck_drain_completable(&env, &lower).is_ok(), "lowercase ULID must match the same revision");
}

#[test]
fn precheck_drain_completable_invalid_ulid_is_400() {
    let env = env_with_one_revision(ulid::Ulid::new().0, RevisionLifecycle::Draining);
    let err = precheck_drain_completable(&env, "not-a-ulid").err().expect("non-ULID input must be InvalidArgument");
    assert!(matches!(err.kind, OpErrorKind::InvalidArgument));
    assert_eq!(op_error_status(err.kind), 400);
    assert_eq!(err.detail, "revision_id: invalid length");
}

#[test]
fn precheck_drain_completable_missing_revision_is_404() {
    let env = env_with_one_revision(ulid::Ulid::new().0, RevisionLifecycle::Draining);
    let unknown = ulid::Ulid::new().to_string();
    let err = precheck_drain_completable(&env, &unknown).err().expect("unknown revision must be NotFound");
    assert!(matches!(err.kind, OpErrorKind::NotFound));
    assert_eq!(op_error_status(err.kind), 404);
    assert_eq!(err.detail, format!("revision `{unknown}` not found in env"));
}

#[test]
fn malformed_json_returns_400() {
    assert!(matches!(route(true, "/deployments/stage"), Route::Stage));
    let err = serde_json::from_slice::<serde_json::Value>(b"{not-json").expect_err("malformed JSON must error");
    let failure = invalid_json_failure(&err.to_string());
    assert_eq!(failure.status, 400);
    assert!(failure.message.starts_with("invalid JSON: "));
}
