use greentic_operator::bin_resolver::{
    local_candidates, missing_binary_message, normalize_env_key, override_var_name, paths_to_check,
    resolve_binary, BinaryLookup, ResolveCtx, ResolveError,
};

fn lookup(existing: Vec<String>) -> BinaryLookup {
    BinaryLookup { env_override: None, existing, on_path: None, windows: false }
}

#[test]
fn explicit_relative_path_is_resolved_from_config_dir() {
    let ctx = ResolveCtx {
        config_dir: "/work/demo".to_string(),
        explicit_path: Some("bin/demo-runner".to_string()),
    };
    let binary = "/work/demo/bin/demo-runner".to_string();
    let resolved = resolve_binary("demo-runner", &ctx, &lookup(vec![binary.clone()])).ok().expect("found");
    assert_eq!(resolved, binary);
}

#[test]
fn local_candidates_are_checked_before_path() {
    let ctx = ResolveCtx { config_dir: "/work/demo".to_string(), explicit_path: None };
    let binary = "/work/demo/target/debug/gateway".to_string();
    let mut lk = lookup(vec![binary.clone()]);
    lk.on_path = Some("/usr/bin/gateway".to_string());
    let resolved = resolve_binary("gateway", &ctx, &lk).ok().expect("found");
    assert_eq!(resolved, binary);
}

#[test]
fn missing_binary_error_includes_suggestions() {
    let binary_name = "totally-missing-greentic-bin";
    let ctx = ResolveCtx { config_dir: "/work/empty".to_string(), explicit_path: None };
    let err = match resolve_binary(binary_name, &ctx, &lookup(Vec::new())) {
        Err(e) => e.message(),
        Ok(_) => panic!("binary must not be found"),
    };
    assert!(err.contains(&format!("binary not found: {binary_name}")));
    assert!(err.contains("GREENTIC_OPERATOR_BINARY_TOTALLY_MISSING_GREENTIC_BIN"));
    assert!(err.contains("set binaries.totally-missing-greentic-bin in greentic.yaml"));
}

#[test]
fn normalize_env_key_rewrites_non_alphanumeric_chars() {
    assert_eq!(normalize_env_key("greentic-pack"), "GREENTIC_PACK");
    assert_eq!(normalize_env_key("runner.host/v1"), "RUNNER_HOST_V1");
}

#[test]
fn normalize_env_key_twice_is_normalize_once() {
    let once = normalize_env_key("runner.host/v1-é");
    assert_eq!(normalize_env_key(&once), once);
    assert_eq!(once.chars().count(), "runner.host/v1-é".chars().count());
}

#[test]
fn override_var_name_prefixes_normalized_key() {
    assert_eq!(override_var_name("demo-runner"), "GREENTIC_OPERATOR_BINARY_DEMO_RUNNER");
}

#[test]
fn local_candidates_follow_bin_then_debug_then_release() {
    let c = local_candidates("/work/demo", "gateway", false);
    assert_eq!(
        c,
        vec![
            "/work/demo/bin/gateway".to_string(),
            "/work/demo/target/debug/gateway".to_string(),
            "/work/demo/target/release/gateway".to_string(),
        ]
    );
    let w = local_candidates("/work/demo/", "gateway", true);
    assert_eq!(w[0], "/work/demo/bin/gateway.exe");
    let already = local_candidates("/work/demo", "gateway.exe", true);
    assert_eq!(already[0], "/work/demo/bin/gateway.exe");
}

#[test]
fn explicit_absolute_path_ignores_config_dir() {
    let ctx = ResolveCtx {
        config_dir: "/work/demo".to_string(),
        explicit_path: Some("/opt/bin/runner".to_string()),
    };
    match resolve_binary("runner", &ctx, &lookup(Vec::new())) {
        Err(ResolveError::ExplicitNotFound { path }) => assert_eq!(path, "/opt/bin/runner"),
        _ => panic!("explicit path must be reported missing"),
    }
    let err = resolve_binary("runner", &ctx, &lookup(Vec::new())).err().expect("missing");
    assert_eq!(err.message(), "explicit binary path not found: /opt/bin/runner");
}

#[test]
fn environment_override_wins_over_local_candidates() {
    let ctx = ResolveCtx { config_dir: "/work/demo".to_string(), explicit_path: None };
    let mut lk = lookup(vec!["/work/demo/bin/gateway".to_string()]);
    lk.env_override = Some("/custom/gateway".to_string());
    let err = resolve_binary("gateway", &ctx, &lk).err().expect("override missing");
    assert_eq!(err.message(), "binary override from environment not found: /custom/gateway");
    lk.existing.push("/custom/gateway".to_string());
    assert_eq!(resolve_binary("gateway", &ctx, &lk).ok(), Some("/custom/gateway".to_string()));
    assert_eq!(paths_to_check("gateway", &ctx, &lk.env_override, false), vec!["/custom/gateway".to_string()]);
}

#[test]
fn path_search_is_used_last() {
    let ctx = ResolveCtx { config_dir: "/work/demo".to_string(), explicit_path: None };
    let mut lk = lookup(Vec::new());
    lk.on_path = Some("/usr/local/bin/gateway".to_string());
    assert_eq!(resolve_binary("gateway", &ctx, &lk).ok(), Some("/usr/local/bin/gateway".to_string()));
}

#[test]
fn missing_binary_message_lists_tried_paths() {
    let msg = missing_binary_message("gw", &vec!["/a/gw".to_string(), "/b/gw".to_string()]);
    assert_eq!(
        msg,
        "binary not found: gw\nTried:\n  - /a/gw\n  - /b/gw\nSuggestions:\n  - set binaries.gw in greentic.yaml\n  - set GREENTIC_OPERATOR_BINARY_GW"
    );
    let bare = missing_binary_message("gw", &Vec::new());
    assert!(!bare.contains("Tried:"));
}
