use greentic_operator::qa_persist::{
    answers_json,
    all_secret_values, build_pack_config_input, emit_pack_config_input, form_secret_ids, persisted_secret_values,
    requirement_aliases, filter_secrets, has_config_entries, infer_bundle_id, pack_config_input_path,
    secret_question_ids, secret_ref, secret_values, validate_segment, visible_question_ids, AnswerValue, AnswersDoc,
    QuestionInfo, PACK_CONFIG_INPUT_DIR, PACK_CONFIG_INPUT_SCHEMA,
};

fn question(id: &str, secret: bool) -> QuestionInfo {
    QuestionInfo { id: id.to_string(), secret, visibility: None }
}

fn text(s: &str) -> AnswerValue {
    AnswerValue::Text(s.to_string())
}

fn json(s: &str) -> AnswerValue {
    AnswerValue::Json(s.to_string())
}

fn object(members: Vec<(&str, AnswerValue)>) -> AnswersDoc {
    AnswersDoc::Object(members.into_iter().map(|(k, v)| (k.to_string(), v)).collect())
}

fn member<'a>(doc: &'a AnswersDoc, key: &str) -> Option<&'a AnswerValue> {
    match doc {
        AnswersDoc::Object(entries) => entries.iter().find(|(k, _)| k == key).map(|(_, v)| v),
        AnswersDoc::Other(_) => None,
    }
}

#[test]
fn filters_out_secret_fields() {
    let config = object(vec![
        ("bot_token", text("secret123")),
        ("enabled", json("true")),
        ("public_url", text("https://example.com")),
    ]);
    let secret_ids = vec!["bot_token".to_string()];
    let filtered = filter_secrets(&config, &secret_ids);
    assert!(member(&filtered, "enabled").is_some());
    assert!(member(&filtered, "public_url").is_some());
    assert!(member(&filtered, "bot_token").is_none());
}

#[test]
fn no_secrets_returns_full_config() {
    let config = object(vec![("enabled", json("true")), ("url", text("https://example.com"))]);
    let filtered = filter_secrets(&config, &Vec::new());
    match filtered {
        AnswersDoc::Object(entries) => {
            assert_eq!(entries.len(), 2);
            assert_eq!(entries[0].0, "enabled");
            assert_eq!(entries[0].1, json("true"));
            assert_eq!(entries[1].0, "url");
            assert_eq!(entries[1].1, text("https://example.com"));
        }
        AnswersDoc::Other(_) => panic!("object expected"),
    }
    match filter_secrets(&AnswersDoc::Other("[1]".to_string()), &vec!["x".to_string()]) {
        AnswersDoc::Other(t) => assert_eq!(t, "[1]"),
        AnswersDoc::Object(_) => panic!("non-object stays"),
    }
}

#[test]
fn identifies_secret_questions() {
    let spec = vec![
        question("enabled", false),
        question("bot_token", true),
        question("api_secret", true),
        question("url", false),
    ];
    assert_eq!(secret_question_ids(&spec), vec!["bot_token".to_string(), "api_secret".to_string()]);
    let form = make_form_spec(vec![
        form_question("enabled", false),
        form_question("bot_token", true),
        form_question("api_secret", true),
        form_question("url", false),
    ]);
    assert_eq!(form_secret_ids(&form), vec!["bot_token".to_string(), "api_secret".to_string()]);
}

fn make_form_spec(questions: Vec<qa_spec::QuestionSpec>) -> qa_spec::FormSpec {
    qa_spec::FormSpec {
        id: "test".into(),
        title: "Test".into(),
        version: "1.0.0".into(),
        description: None,
        presentation: None,
        progress_policy: None,
        secrets_policy: None,
        store: vec![],
        validations: vec![],
        includes: vec![],
        questions,
    }
}

fn form_question(id: &str, secret: bool) -> qa_spec::QuestionSpec {
    qa_spec::QuestionSpec {
        id: id.into(),
        kind: qa_spec::QuestionType::String,
        title: id.into(),
        title_i18n: None,
        description: None,
        description_i18n: None,
        required: false,
        choices: None,
        default_value: None,
        secret,
        visible_if: None,
        constraint: None,
        list: None,
        computed: None,
        policy: Default::default(),
        computed_overridable: false,
    }
}

#[test]
fn emit_pack_config_input_splits_secret_vs_non_secret() {
    let form = make_form_spec(vec![
        form_question("enabled", false),
        form_question("bot_token", true),
        form_question("public_url", false),
    ]);
    let config = object(vec![
        ("bot_token", text("shhh")),
        ("enabled", json("true")),
        ("public_url", text("https://example.com")),
    ]);
    let parsed = emit_pack_config_input("local", "test-bundle", "provider-a", &config, &form)
        .ok()
        .expect("emit")
        .expect("path");
    assert_eq!(parsed.schema, PACK_CONFIG_INPUT_SCHEMA);
    assert_eq!(parsed.pack_id, "provider-a");
    assert_eq!(parsed.env_id, "local");
    assert_eq!(parsed.bundle_id, "test-bundle");
    let inline = |k: &str| parsed.non_secret.iter().find(|(key, _)| key == k).map(|(_, v)| v);
    assert_eq!(inline("enabled"), Some(&json("true")));
    assert_eq!(inline("public_url"), Some(&text("https://example.com")));
    assert!(inline("bot_token").is_none(), "secret must not be in non_secret");
    assert_eq!(
        parsed.secret_refs.iter().find(|(k, _)| k == "bot_token").map(|(_, v)| v.as_str()),
        Some("secret://local/test-bundle/provider-a/bot_token"),
        "secret recorded as URI ref"
    );
    let everything: String = parsed
        .non_secret
        .iter()
        .map(|(k, v)| format!("{k}{v:?}"))
        .chain(parsed.secret_refs.iter().map(|(k, v)| format!("{k}{v}")))
        .collect();
    assert!(!everything.contains("shhh"), "plaintext secret leaked into pack-config-input: {everything}");
}

#[test]
fn emit_pack_config_input_secret_refs_discriminate_on_env_id() {
    let form = make_form_spec(vec![form_question("api_token", true)]);
    let cfg = object(vec![("api_token", text("x"))]);
    let a = emit_pack_config_input("local", "b", "p", &cfg, &form).ok().expect("emit-a").expect("path-a");
    let b = emit_pack_config_input("staging", "b", "p", &cfg, &form).ok().expect("emit-b").expect("path-b");
    assert_eq!(a.secret_refs[0].1, "secret://local/b/p/api_token");
    assert_eq!(b.secret_refs[0].1, "secret://staging/b/p/api_token");
}

#[test]
fn emit_pack_config_input_skips_empty_config() {
    let form = make_form_spec(vec![form_question("enabled", false)]);
    let empty = object(Vec::new());
    assert!(emit_pack_config_input("local", "b", "p", &empty, &form).ok().expect("emit").is_none());
    assert!(!has_config_entries(&empty));
}

#[test]
fn emit_pack_config_input_rejects_invalid_segments() {
    let form = make_form_spec(vec![form_question("k", false)]);
    let cfg = object(vec![("k", text("v"))]);
    assert!(emit_pack_config_input("", "b", "p", &cfg, &form).is_err(), "empty env_id rejected");
    assert!(emit_pack_config_input("local", "b", "../p", &cfg, &form).is_err(), "pack_id with `/` rejected");
    assert!(emit_pack_config_input("local", "b/c", "p", &cfg, &form).is_err(), "bundle_id with `/` rejected");
    assert!(emit_pack_config_input("local", "b", "..", &cfg, &form).is_err(), "pack_id `..` rejected");
    assert!(emit_pack_config_input(".", "b", "p", &cfg, &form).is_err(), "env_id `.` rejected");
}

#[test]
fn emit_pack_config_input_respects_visibility() {
    let mut advanced = form_question("advanced_url", false);
    advanced.visible_if = Some(qa_spec::Expr::Eq {
        left: Box::new(qa_spec::Expr::Answer { path: "mode".into() }),
        right: Box::new(qa_spec::Expr::Literal { value: serde_json::Value::String("advanced".into()) }),
    });
    let form = make_form_spec(vec![form_question("mode", false), advanced]);
    let config = object(vec![
        ("advanced_url", text("https://should-be-hidden.example.com")),
        ("mode", text("basic")),
    ]);
    let parsed = emit_pack_config_input("local", "b", "p", &config, &form).ok().expect("emit").expect("path");
    assert!(
        parsed.non_secret.iter().all(|(k, _)| k != "advanced_url"),
        "invisible question should not appear in non_secret"
    );
    assert_eq!(parsed.non_secret.iter().find(|(k, _)| k == "mode").map(|(_, v)| v), Some(&text("basic")));
}

#[test]
fn build_pack_config_input_splits_by_question_flags() {
    let mut hidden = question("advanced_url", false);
    hidden.visibility = Some(false);
    let form = vec![question("mode", false), hidden, question("token", true)];
    let config = object(vec![
        ("advanced_url", text("https://hidden.example.com")),
        ("mode", text("basic")),
        ("token", text("t")),
    ]);
    let parsed = build_pack_config_input("local", "b", "p", &config, &form).ok().expect("emit").expect("record");
    assert_eq!(parsed.non_secret, vec![("mode".to_string(), text("basic"))]);
    assert_eq!(parsed.secret_refs, vec![("token".to_string(), "secret://local/b/p/token".to_string())]);
    assert!(build_pack_config_input("local", "b", "p", &AnswersDoc::Other("3".to_string()), &form)
        .ok()
        .expect("emit")
        .is_none());
    let only_blank = object(vec![("mode", text("")), ("token", json("null"))]);
    assert!(build_pack_config_input("local", "b", "p", &only_blank, &form).ok().expect("emit").is_none());
}

#[test]
fn persisted_secret_values_follow_form_visibility() {
    let mut advanced = form_question("advanced_url", false);
    advanced.visible_if = Some(qa_spec::Expr::Eq {
        left: Box::new(qa_spec::Expr::Answer { path: "mode".into() }),
        right: Box::new(qa_spec::Expr::Literal { value: serde_json::Value::String("advanced".into()) }),
    });
    let form = make_form_spec(vec![form_question("mode", false), advanced, form_question("token", true)]);
    let config = object(vec![("advanced_url", text("u")), ("mode", text("basic")), ("token", text("t"))]);
    assert_eq!(
        persisted_secret_values(&form, &config),
        vec![("mode".to_string(), "basic".to_string()), ("token".to_string(), "t".to_string())]
    );
    assert_eq!(form_secret_ids(&form), vec!["token".to_string()]);
}

#[test]
fn all_secret_values_keep_every_non_blank_member() {
    let config = object(vec![("a", text("1")), ("b", text("")), ("c", json("null")), ("d", json("{\"x\":1}"))]);
    assert_eq!(
        all_secret_values(&config),
        vec![("a".to_string(), "1".to_string()), ("d".to_string(), "{\"x\":1}".to_string())]
    );
    assert!(all_secret_values(&AnswersDoc::Other("[]".to_string())).is_empty());
}

#[test]
fn requirement_aliases_match_by_suffix() {
    let requirements = vec!["webex_bot_token".to_string(), "bot_token".to_string(), "slack_signing_secret".to_string()];
    let existing = vec!["bot_token".to_string()];
    let config = vec![
        ("signing_secret".to_string(), text("")),
        ("bot_token".to_string(), text("tok")),
        ("secret".to_string(), text("s")),
    ];
    assert_eq!(
        requirement_aliases(&requirements, &existing, &config),
        vec![
            ("webex_bot_token".to_string(), "tok".to_string()),
            ("slack_signing_secret".to_string(), "s".to_string()),
        ]
    );
}

#[test]
fn secret_question_with_bad_id_is_refused() {
    let form = vec![question("a/b", true)];
    let cfg = object(vec![("a/b", text("v"))]);
    let err = build_pack_config_input("local", "b", "p", &cfg, &form).err().expect("refused");
    assert_eq!(err.message, "question.id `a/b` contains '/' which would corrupt the pack-config-input layout");
}

#[test]
fn validate_segment_messages() {
    assert_eq!(
        validate_segment("env_id", "").err().expect("empty").message,
        "env_id must not be empty for pack-config-input emission"
    );
    assert_eq!(
        validate_segment("pack_id", "..").err().expect("dots").message,
        "pack_id `..` is a relative path component and would corrupt the pack-config-input layout"
    );
    assert!(validate_segment("pack_id", "p.q").is_ok());
}

#[test]
fn infer_bundle_id_uses_dir_name_with_bundle_fallback() {
    assert_eq!(infer_bundle_id("/tmp/x/my-bundle"), "my-bundle");
    assert_eq!(infer_bundle_id("/"), "bundle");
    assert_eq!(infer_bundle_id("/tmp/   "), "bundle");
    assert_eq!(infer_bundle_id("bundles/demo/./"), "demo");
    assert_eq!(infer_bundle_id("./demo"), "demo");
    assert_eq!(infer_bundle_id("bundles/demo/.."), "bundle");
    assert_eq!(infer_bundle_id(""), "bundle");
    assert_eq!(infer_bundle_id("."), "bundle");
}

#[test]
fn secret_values_follow_visible_questions() {
    let mut hidden = question("hidden", false);
    hidden.visibility = Some(false);
    let form = vec![question("token", true), hidden, question("count", false), question("absent", false)];
    let cfg = object(vec![("count", json("3")), ("hidden", text("h")), ("token", text("t"))]);
    assert_eq!(
        secret_values(&form, &cfg),
        vec![("token".to_string(), "t".to_string()), ("count".to_string(), "3".to_string())]
    );
    assert_eq!(visible_question_ids(&form), vec!["token".to_string(), "count".to_string(), "absent".to_string()]);
}

#[test]
fn secret_refs_and_paths() {
    assert_eq!(secret_ref("e", "b", "p", "k"), "secret://e/b/p/k");
    assert_eq!(pack_config_input_path("/bundle", "p"), format!("/bundle/{PACK_CONFIG_INPUT_DIR}/p.json"));
}

#[test]
fn answers_json_renders_the_members_in_order() {
    let config = object(vec![("b", text("x\"y")), ("a", json("[1,true]")), ("c", json("null"))]);
    assert_eq!(answers_json(&config), r#"{"b":"x\"y","a":[1,true],"c":null}"#);
    assert_eq!(answers_json(&object(Vec::new())), "{}");
    assert_eq!(answers_json(&AnswersDoc::Other("[1]".to_string())), "[1]");
}
