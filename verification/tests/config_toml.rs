use tel::config::{
    push_inline_action, to_inline_toml, toml_string, Action, ActionBodyError, AppConfig,
    ClickAction, DiceAction, LlmAction, Task, TextAction,
};

fn text_action(text: &str) -> Action {
    Action {
        text: Some(TextAction { text: text.to_string() }),
        dice: None,
        click: None,
        llm: None,
    }
}

fn task(name: &str, chat_id: &str, actions: Vec<Action>) -> Task {
    Task {
        name: name.to_string(),
        chat_id: chat_id.to_string(),
        chat_name: None,
        cron: None,
        delay: None,
        action: actions,
    }
}

#[test]
fn serializes_actions_as_inline_tables() {
    let config = AppConfig { task: vec![task("task_name", "123", vec![text_action("hello")])] };
    let output = to_inline_toml(&config).expect("config should serialize");
    assert!(output.contains("action = [\n  { text = { text = \"hello\" } },\n]"));
    assert!(!output.contains("[[task.action]]"));
}

#[test]
fn writes_every_field_of_a_task() {
    let mut t = task("task_name", "123", vec![]);
    t.chat_name = Some("@example".to_string());
    t.cron = Some("0 0 9 * * *".to_string());
    t.delay = Some(30);
    t.action = vec![
        text_action("/start"),
        Action { text: None, dice: Some(DiceAction { dice: "🎲".to_string() }), click: None, llm: None },
        Action { text: None, dice: None, click: Some(ClickAction { key: "OK".to_string() }), llm: None },
        Action { text: None, dice: None, click: None, llm: Some(LlmAction { prompt: "pick one".to_string() }) },
    ];
    let output = to_inline_toml(&AppConfig { task: vec![t] }).unwrap();
    assert_eq!(
        output,
        "[[task]]\nname = \"task_name\"\nchat_id = \"123\"\nchat_name = \"@example\"\ncron = \"0 0 9 * * *\"\ndelay = 30\naction = [\n  { text = { text = \"/start\" } },\n  { dice = { dice = \"🎲\" } },\n  { click = { key = \"OK\" } },\n  { llm = { prompt = \"pick one\" } },\n]\n\n"
    );
}

#[test]
fn writes_tasks_in_order_and_empty_config_as_nothing() {
    assert_eq!(to_inline_toml(&AppConfig { task: vec![] }).unwrap(), "");
    let config = AppConfig {
        task: vec![task("a", "1", vec![text_action("x")]), task("b", "2", vec![])],
    };
    assert_eq!(
        to_inline_toml(&config).unwrap(),
        "[[task]]\nname = \"a\"\nchat_id = \"1\"\naction = [\n  { text = { text = \"x\" } },\n]\n\n[[task]]\nname = \"b\"\nchat_id = \"2\"\naction = [\n]\n\n"
    );
}

#[test]
fn rejects_action_without_body() {
    let config = AppConfig { task: vec![task("a", "1", vec![text_action("x"), Action::default()])] };
    assert_eq!(to_inline_toml(&config).unwrap_err(), "task action must contain one action body");
}

#[test]
fn rejects_action_with_two_bodies() {
    let mut two = text_action("x");
    two.dice = Some(DiceAction { dice: "🎯".to_string() });
    let config = AppConfig { task: vec![task("a", "1", vec![two])] };
    assert_eq!(
        to_inline_toml(&config).unwrap_err(),
        "task action must contain only one action body"
    );
}

#[test]
fn reports_the_first_bad_action() {
    let mut two = text_action("x");
    two.click = Some(ClickAction { key: "k".to_string() });
    let config = AppConfig {
        task: vec![task("a", "1", vec![Action::default()]), task("b", "2", vec![two])],
    };
    assert_eq!(to_inline_toml(&config).unwrap_err(), "task action must contain one action body");
}

#[test]
fn push_inline_action_writes_all_bodies_and_counts_them() {
    let mut out = String::new();
    let mut two = text_action("x");
    two.llm = Some(LlmAction { prompt: "p".to_string() });
    assert_eq!(push_inline_action(&mut out, &two), Err(ActionBodyError::Multiple));
    assert_eq!(out, "{ text = { text = \"x\" } }{ llm = { prompt = \"p\" } }");
    let mut out = String::new();
    assert_eq!(push_inline_action(&mut out, &text_action("y")), Ok(()));
    assert_eq!(out, "{ text = { text = \"y\" } }");
}

#[test]
fn escapes_toml_strings() {
    assert_eq!(toml_string("plain"), "\"plain\"");
    assert_eq!(toml_string("a\"b\\c"), "\"a\\\"b\\\\c\"");
    assert_eq!(toml_string("\u{8}\t\n\u{c}\r"), "\"\\b\\t\\n\\f\\r\"");
    assert_eq!(toml_string("\u{0}\u{1f}\u{7f}"), "\"\\u0000\\u001F\\u007F\"");
    assert_eq!(toml_string("签到 🎯"), "\"签到 🎯\"");
    assert_eq!(toml_string(""), "\"\"");
}

#[test]
fn default_action_has_no_body() {
    let a = Action::default();
    assert!(a.text.is_none() && a.dice.is_none() && a.click.is_none() && a.llm.is_none());
}

#[test]
fn shows_an_action_by_its_first_body() {
    assert_eq!(text_action("hi \"you\"\n").display_text().unwrap(), "TextAction { text: \"hi \\\"you\\\"\\n\" }");
    let text = TextAction { text: "é\u{200b}\\".to_string() };
    assert_eq!(text_action(&text.text).display_text().unwrap(), format!("{:?}", text));
    let mut both = Action::default();
    both.click = Some(ClickAction { key: "OK".to_string() });
    both.llm = Some(LlmAction { prompt: "p".to_string() });
    assert_eq!(both.display_text().unwrap(), "ClickAction { key: \"OK\" }");
    let mut dice = Action::default();
    dice.dice = Some(DiceAction { dice: "🎲".to_string() });
    assert_eq!(dice.display_text().unwrap(), "DiceAction { dice: \"🎲\" }");
    let mut llm = Action::default();
    llm.llm = Some(LlmAction { prompt: "go".to_string() });
    assert_eq!(llm.display_text().unwrap(), "LlmAction { prompt: \"go\" }");
    assert_eq!(Action::default().display_text().unwrap_err(), ActionBodyError::Missing);
}
