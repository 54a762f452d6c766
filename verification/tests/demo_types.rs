use greentic_operator::demo_types::UserEvent;
use serde_json::Value;

#[test]
fn card_submit_converts_to_expected_json_shape() {
    let fields = vec![("token".to_string(), "\"secret\"".to_string())];
    let text = UserEvent::card_submit("save".to_string(), fields).into_value();
    let value: Value = serde_json::from_str(&text).expect("json");
    assert_eq!(value["action_id"], "save");
    assert_eq!(value["inputs"]["token"], "secret");
}

#[test]
fn raw_event_passes_through_unchanged() {
    let raw = r#"{"kind":"message","text":"hello"}"#.to_string();
    assert_eq!(UserEvent::raw(raw.clone()).into_value(), raw);
}

#[test]
fn card_submit_escapes_names_and_keeps_member_order() {
    let fields = vec![
        ("b\"q".to_string(), "1".to_string()),
        ("a".to_string(), "[true,null]".to_string()),
    ];
    let text = UserEvent::card_submit("say \"hi\"".to_string(), fields).into_value();
    assert_eq!(text, r#"{"action_id":"say \"hi\"","inputs":{"b\"q":1,"a":[true,null]}}"#);
    let empty = UserEvent::card_submit("x".to_string(), Vec::new()).into_value();
    assert_eq!(empty, r#"{"action_id":"x","inputs":{}}"#);
}

#[test]
fn card_submit_escapes_control_characters() {
    let text = UserEvent::card_submit("a\u{1}\n\\\t".to_string(), Vec::new()).into_value();
    assert_eq!(text, "{\"action_id\":\"a\\u0001\\n\\\\\\t\",\"inputs\":{}}");
}
