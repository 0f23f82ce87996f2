use tel::llm::{
    action_from_arguments, base_url_or_default, check_llm_status, completions_url, get,
    llm_request_body, parse_llm_action, reply_action, step, tool_call_arguments, GeneratedAction,
    JsonValue, LlmError,
};

fn s(v: &str) -> JsonValue {
    JsonValue::Str(v.to_string())
}

fn obj(members: Vec<(&str, JsonValue)>) -> JsonValue {
    JsonValue::Object(members.into_iter().map(|(k, v)| (k.to_string(), v)).collect())
}

fn payload(arguments: JsonValue) -> JsonValue {
    obj(vec![(
        "choices",
        JsonValue::Array(vec![obj(vec![(
            "message",
            obj(vec![(
                "tool_calls",
                JsonValue::Array(vec![obj(vec![("function", obj(vec![("arguments", arguments)]))])]),
            )]),
        )])]),
    )])
}

#[test]
fn parses_llm_tool_call_text_action() {
    let payload = payload(s("{\"action_type\":\"text\",\"options\":{\"text\":\"hello\"}}"));
    let action = parse_llm_action(&payload).expect("tool call should parse");
    match action {
        GeneratedAction::Text(text) => assert_eq!(text, "hello"),
        _ => panic!("expected text action"),
    }
}

#[test]
fn reads_tool_call_arguments_text() {
    let p = payload(s("{\"action_type\":\"text\",\"options\":{\"text\":\"hello\"}}"));
    let arguments = tool_call_arguments(&p).expect("tool call should parse");
    assert_eq!(arguments, "{\"action_type\":\"text\",\"options\":{\"text\":\"hello\"}}");
    let parsed = obj(vec![("action_type", s("text")), ("options", obj(vec![("text", s("hello"))]))]);
    assert!(matches!(action_from_arguments(&parsed), Ok(GeneratedAction::Text(t)) if t == "hello"));
}

#[test]
fn reads_the_action_from_a_reply_body() {
    let body = r#"{"choices":[{"message":{"tool_calls":[{"function":{"arguments":"{\"action_type\":\"click\",\"options\":{\"key\":\"签到\"}}"}}]}}]}"#;
    let action = reply_action(200, "200 OK".to_string(), body.to_string());
    assert!(matches!(action, Ok(GeneratedAction::Click(k)) if k == "签到"));
    let dice = r#"{"choices":[{"message":{"tool_calls":[{"function":{"arguments":" {\"options\":{\"dice\":\"🎲\",\"n\":1.5},\"action_type\":\"dice\"} "}}]}}]}"#;
    let action = reply_action(201, "201 Created".to_string(), dice.to_string());
    assert!(matches!(action, Ok(GeneratedAction::Dice(d)) if d == "🎲"));
}

#[test]
fn reports_reply_errors() {
    let refused = reply_action(500, "500 Internal Server Error".to_string(), "oops".to_string());
    assert_eq!(refused.unwrap_err().message(), "llm endpoint returned 500 Internal Server Error: oops");
    match reply_action(200, "200 OK".to_string(), "not json".to_string()) {
        Err(LlmError::InvalidResponse { cause }) => {
            assert_eq!(cause.to_string(), serde_json::from_str::<serde_json::Value>("not json").unwrap_err().to_string());
        }
        other => panic!("unexpected: {:?}", other),
    }
    let trailing = reply_action(200, "200 OK".to_string(), "{} x".to_string());
    assert_eq!(trailing.unwrap_err().message(), "failed to parse llm response JSON");
    let no_calls = reply_action(200, "200 OK".to_string(), "{\"choices\":[]}".to_string());
    assert_eq!(no_calls.unwrap_err().message(), "llm response did not include task_action tool arguments");
    let bad_args = r#"{"choices":[{"message":{"tool_calls":[{"function":{"arguments":"{oops"}}]}}]}"#;
    match reply_action(200, "200 OK".to_string(), bad_args.to_string()) {
        Err(e @ LlmError::InvalidArguments { .. }) => {
            assert_eq!(e.message(), "failed to parse task_action arguments")
        }
        other => panic!("unexpected: {:?}", other),
    }
}

#[test]
fn reads_dice_and_click_actions() {
    let dice = obj(vec![("action_type", s("dice")), ("options", obj(vec![("dice", s("🎲"))]))]);
    assert!(matches!(action_from_arguments(&dice), Ok(GeneratedAction::Dice(d)) if d == "🎲"));
    let click = obj(vec![("action_type", s("click")), ("options", obj(vec![("key", s("OK"))]))]);
    assert!(matches!(action_from_arguments(&click), Ok(GeneratedAction::Click(k)) if k == "OK"));
}

#[test]
fn reports_each_llm_error() {
    let msg = |e: LlmError| e.message();
    assert_eq!(
        msg(tool_call_arguments(&obj(vec![])).unwrap_err()),
        "llm response did not include task_action tool arguments"
    );
    assert_eq!(
        msg(tool_call_arguments(&payload(JsonValue::Number("1".to_string()))).unwrap_err()),
        "llm response did not include task_action tool arguments"
    );
    assert_eq!(
        msg(parse_llm_action(&payload(s("not json"))).unwrap_err()),
        "failed to parse task_action arguments"
    );
    assert_eq!(
        msg(parse_llm_action(&payload(JsonValue::Null)).unwrap_err()),
        "llm response did not include task_action tool arguments"
    );
    assert_eq!(
        msg(parse_llm_action(&payload(s("{\"action_type\":\"wave\",\"options\":{}}"))).unwrap_err()),
        "unsupported llm action_type: wave"
    );
    assert_eq!(
        msg(action_from_arguments(&obj(vec![("options", obj(vec![]))])).unwrap_err()),
        "task_action.action_type is required"
    );
    assert_eq!(
        msg(action_from_arguments(&obj(vec![("action_type", s("text"))])).unwrap_err()),
        "task_action.options is required"
    );
    let no = |t: &str| obj(vec![("action_type", s(t)), ("options", JsonValue::Null)]);
    assert_eq!(
        msg(action_from_arguments(&no("text")).unwrap_err()),
        "task_action.options.text is required for text action"
    );
    assert_eq!(
        msg(action_from_arguments(&no("dice")).unwrap_err()),
        "task_action.options.dice is required for dice action"
    );
    assert_eq!(
        msg(action_from_arguments(&no("click")).unwrap_err()),
        "task_action.options.key is required for click action"
    );
    assert_eq!(
        msg(action_from_arguments(&no("wave")).unwrap_err()),
        "unsupported llm action_type: wave"
    );
}

#[test]
fn follows_pointer_steps() {
    let arr = JsonValue::Array(vec![s("a"), s("b")]);
    assert!(matches!(step(&arr, "1"), Some(JsonValue::Str(x)) if x == "b"));
    assert!(step(&arr, "01").is_none());
    assert!(step(&arr, "+1").is_none());
    assert!(step(&arr, "2").is_none());
    let o = obj(vec![("0", s("zero"))]);
    assert!(matches!(step(&o, "0"), Some(JsonValue::Str(x)) if x == "zero"));
    assert!(get(&arr, "0").is_none());
    assert!(step(&JsonValue::Bool(true), "0").is_none());
}

#[test]
fn builds_the_completions_url() {
    assert_eq!(completions_url("https://api.openai.com/v1"), "https://api.openai.com/v1/chat/completions");
    assert_eq!(completions_url("http://x//"), "http://x/chat/completions");
    assert_eq!(base_url_or_default(None), "https://api.openai.com/v1");
    assert_eq!(base_url_or_default(Some("u".to_string())), "u");
}

#[test]
fn builds_the_tool_call_request() {
    let body = llm_request_body("gpt", "say hi");
    let model = get(&body, "model");
    assert!(matches!(model, Some(JsonValue::Str(m)) if m == "gpt"));
    let content = step(&body, "messages").and_then(|m| step(m, "1")).and_then(|m| get(m, "content"));
    assert!(matches!(content, Some(JsonValue::Str(c)) if c == "say hi"));
    let system = step(&body, "messages").and_then(|m| step(m, "0")).and_then(|m| get(m, "content"));
    assert!(matches!(system, Some(JsonValue::Str(c)) if c.starts_with("Choose exactly one Telegram task action.")));
    let tool_name = get(&body, "tools")
        .and_then(|t| step(t, "0"))
        .and_then(|t| get(t, "function"))
        .and_then(|f| get(f, "name"));
    assert!(matches!(tool_name, Some(JsonValue::Str(n)) if n == "task_action"));
    let name = get(&body, "tool_choice").and_then(|c| get(c, "function")).and_then(|f| get(f, "name"));
    assert!(matches!(name, Some(JsonValue::Str(n)) if n == "task_action"));
    let kinds = get(&body, "tools")
        .and_then(|t| step(t, "0"))
        .and_then(|t| get(t, "function"))
        .and_then(|f| get(f, "parameters"))
        .and_then(|p| get(p, "properties"))
        .and_then(|p| get(p, "action_type"))
        .and_then(|a| get(a, "enum"));
    match kinds {
        Some(JsonValue::Array(items)) => assert_eq!(items.len(), 3),
        _ => panic!("expected the action types"),
    }
}

#[test]
fn only_success_statuses_pass() {
    assert_eq!(check_llm_status(200, "200 OK".to_string(), "{}".to_string()).unwrap(), "{}");
    assert_eq!(check_llm_status(299, "299".to_string(), "b".to_string()).unwrap(), "b");
    let error = check_llm_status(404, "404 Not Found".to_string(), "missing".to_string());
    assert_eq!(error.unwrap_err().message(), "llm endpoint returned 404 Not Found: missing");
    assert!(check_llm_status(199, "199".to_string(), String::new()).is_err());
    assert!(check_llm_status(300, "300".to_string(), String::new()).is_err());
}
