use tel::config::{Action, ActionBodyError, AppConfig, ClickAction, DiceAction, Task, TextAction};
use tel::db::SessionData;
use tel::run::{
    callback_answer_text, next_click_step, ClickStep, check_config_has_tasks, check_task_actions,
    dialog_matches, find_inline_button, find_inline_button_in_rows, peer_lookup_plan,
    peer_not_found, resolve_action, select_tasks, session_for_user, session_source, SessionSource, single_session,
    stored_session_path, trim_username, username_candidate, CallbackAnswer, ClickSearch,
    InlineButtonMatch, KeyboardButton, KeyboardButtonRow, PeerLookup, ReplyMarkup,
    ResolvedAction, RunError, CLICK_LOOKUP_ATTEMPTS,
};

fn task(name: &str, chat_id: &str) -> Task {
    Task {
        name: name.to_string(),
        chat_id: chat_id.to_string(),
        chat_name: None,
        cron: None,
        delay: None,
        action: vec![],
    }
}

fn session(user_id: i64, path: &str) -> SessionData {
    SessionData { user_id, name: "n".to_string(), session_path: path.to_string() }
}

fn callback(text: &str, data: &[u8]) -> KeyboardButton {
    KeyboardButton::Callback { text: text.to_string(), data: data.to_vec() }
}

fn other(text: &str) -> KeyboardButton {
    KeyboardButton::Other { text: text.to_string() }
}

fn inline(rows: Vec<Vec<KeyboardButton>>) -> ReplyMarkup {
    ReplyMarkup::ReplyInlineMarkup {
        rows: rows.into_iter().map(|buttons| KeyboardButtonRow { buttons }).collect(),
    }
}

#[test]
fn finds_inline_callback_button_by_text() {
    let markup = inline(vec![vec![callback("🎯 签到", b"checkin")]]);
    let matched = find_inline_button(Some(&markup), "🎯 签到");
    match matched {
        Some(InlineButtonMatch::Callback(data)) => assert_eq!(data, b"checkin"),
        _ => panic!("expected inline callback button"),
    }
}

#[test]
fn ignores_reply_keyboard_buttons_for_click() {
    let markup = ReplyMarkup::ReplyKeyboardMarkup {
        rows: vec![KeyboardButtonRow { buttons: vec![other("🎯 签到")] }],
    };
    assert!(find_inline_button(Some(&markup), "🎯 签到").is_none());
}

#[test]
fn extracts_non_empty_callback_answer_text() {
    let answer = CallbackAnswer { message: Some("checked in".to_string()) };
    assert_eq!(callback_answer_text(answer).as_deref(), Some("checked in"));
}

#[test]
fn ignores_blank_callback_answer_text() {
    let answer = CallbackAnswer { message: Some("   ".to_string()) };
    assert!(callback_answer_text(answer).is_none());
    assert!(callback_answer_text(CallbackAnswer { message: None }).is_none());
}

#[test]
fn finds_the_first_button_row_by_row() {
    let rows = vec![
        KeyboardButtonRow { buttons: vec![other("a"), other("key")] },
        KeyboardButtonRow { buttons: vec![callback("key", b"late")] },
    ];
    match find_inline_button_in_rows(&rows, "key") {
        Some(InlineButtonMatch::Unsupported(t)) => assert_eq!(t, "key"),
        _ => panic!("expected the first button"),
    }
    assert!(find_inline_button_in_rows(&rows, "none").is_none());
    assert!(find_inline_button(None, "key").is_none());
    assert!(find_inline_button(Some(&ReplyMarkup::ReplyKeyboardHide), "key").is_none());
}

#[test]
fn click_search_presses_callback_and_remembers_other_buttons() {
    let mut search = ClickSearch::new("go");
    assert!(search.inspect(None).is_none());
    assert!(search.inspect(Some(&inline(vec![vec![other("go")]]))).is_none());
    assert_eq!(search.unsupported_match.as_deref(), Some("go"));
    let pressed = search.inspect(Some(&inline(vec![vec![callback("go", b"d")]])));
    assert_eq!(pressed, Some(b"d".to_vec()));
    match search.finish() {
        RunError::UnsupportedButton(t) => assert_eq!(t, "go"),
        _ => panic!("expected unsupported button"),
    }
}

#[test]
fn click_search_without_match_reports_not_found() {
    let search = ClickSearch::new("go");
    let error = search.finish();
    assert_eq!(
        error.message(),
        "no inline keyboard callback button found for key `go` in the latest 30 messages"
    );
    assert_eq!(
        RunError::UnsupportedButton("x".to_string()).message(),
        "matched inline keyboard button `x`, but this button type is not supported"
    );
}

#[test]
fn waits_between_attempts_but_not_after_the_last() {
    assert_eq!(next_click_step(0, false), ClickStep::WaitThenSearch);
    assert_eq!(next_click_step(CLICK_LOOKUP_ATTEMPTS - 2, false), ClickStep::WaitThenSearch);
    assert_eq!(next_click_step(CLICK_LOOKUP_ATTEMPTS - 1, false), ClickStep::GiveUp);
    assert_eq!(next_click_step(CLICK_LOOKUP_ATTEMPTS - 1, true), ClickStep::Press);
    assert_eq!(next_click_step(3, true), ClickStep::Press);
    let mut searches = 0;
    let mut waits = 0;
    let mut attempt = 0;
    loop {
        searches += 1;
        match next_click_step(attempt, false) {
            ClickStep::WaitThenSearch => {
                waits += 1;
                attempt += 1;
            }
            _ => break,
        }
    }
    assert_eq!((searches, waits), (15, 14));
    assert_eq!(CLICK_LOOKUP_ATTEMPTS, 15);
}

#[test]
fn selects_all_tasks_or_the_named_ones() {
    let config = AppConfig { task: vec![task("a", "1"), task("b", "2"), task("a", "3")] };
    let all = select_tasks(&config, None).unwrap();
    assert_eq!(all.len(), 3);
    let named = select_tasks(&config, Some("a")).unwrap();
    assert_eq!(named.iter().map(|t| t.chat_id.as_str()).collect::<Vec<_>>(), vec!["1", "3"]);
    match select_tasks(&config, Some("zzz")) {
        Err(e) => assert_eq!(e.message(), "task not found: zzz"),
        Ok(_) => panic!("expected an error"),
    }
}

#[test]
fn requires_tasks_and_actions() {
    assert_eq!(
        check_config_has_tasks(&AppConfig { task: vec![] }).unwrap_err().message(),
        "task config has no [[task]] entries"
    );
    assert!(check_config_has_tasks(&AppConfig { task: vec![task("a", "1")] }).is_ok());
    assert_eq!(
        check_task_actions(&task("morning", "1")).unwrap_err().message(),
        "task morning has no action entries"
    );
}

#[test]
fn chooses_the_stored_session() {
    assert_eq!(session_for_user(7, Some(session(7, "p"))).unwrap().user_id, 7);
    assert_eq!(
        session_for_user(-7, None).unwrap_err().message(),
        "no stored session for user -7"
    );
    assert_eq!(
        single_session(vec![]).unwrap_err().message(),
        "no stored session; run `tel login` or pass --session-path"
    );
    assert_eq!(single_session(vec![session(1, "x")]).unwrap().session_path, "x");
    assert_eq!(
        single_session(vec![session(1, "x"), session(2, "y")]).unwrap_err().message(),
        "multiple stored sessions; pass --user to select one"
    );
    assert_eq!(stored_session_path(session(3, "a.sqlite")).unwrap(), "a.sqlite");
    assert_eq!(
        stored_session_path(session(3, "  ")).unwrap_err().message(),
        "stored session for user 3 has no session path"
    );
}

#[test]
fn resolves_the_single_action_body() {
    let a = Action {
        text: None,
        dice: Some(DiceAction { dice: "🎲".to_string() }),
        click: None,
        llm: None,
    };
    match resolve_action(&a) {
        Ok(ResolvedAction::Dice(d)) => assert_eq!(d.dice, "🎲"),
        _ => panic!("expected dice"),
    }
    assert_eq!(resolve_action(&Action::default()).err(), Some(ActionBodyError::Missing));
    let two = Action {
        text: Some(TextAction { text: "t".to_string() }),
        dice: None,
        click: Some(ClickAction { key: "k".to_string() }),
        llm: None,
    };
    assert_eq!(resolve_action(&two).err(), Some(ActionBodyError::Multiple));
    assert_eq!(
        RunError::ActionBody(ActionBodyError::Multiple).message(),
        "task action must contain only one action body"
    );
}

#[test]
fn trims_usernames() {
    assert_eq!(trim_username("  @@channel "), "channel");
    assert_eq!(trim_username("https://t.me/name"), "name");
    assert_eq!(trim_username("http://t.me/name"), "name");
    assert_eq!(trim_username("t.me/t.me/name"), "name");
    assert_eq!(trim_username("t.me/@name"), "@name");
    assert_eq!(trim_username("\u{3000}x\u{a0}"), "x");
}

#[test]
fn username_candidates_exclude_numbers_and_spaces() {
    assert_eq!(username_candidate("@someone"), Some("someone"));
    assert_eq!(username_candidate("-100123"), None);
    assert_eq!(username_candidate("+42"), None);
    assert_eq!(username_candidate("two words"), None);
    assert_eq!(username_candidate(" @ "), None);
    assert_eq!(username_candidate("99999999999999999999"), Some("99999999999999999999"));
}

#[test]
fn matches_dialogs_by_id_name_or_username() {
    assert!(dialog_matches(Some(-100123), None, None, Some("-100123"), None));
    assert!(!dialog_matches(Some(-100123), None, None, Some("-0100123"), None));
    assert!(dialog_matches(Some(5), Some("MyBot"), None, Some("@mybot"), None));
    assert!(dialog_matches(Some(5), None, Some("Group"), None, Some("Group")));
    assert!(!dialog_matches(Some(5), None, Some("Group"), None, Some("group")));
    assert!(dialog_matches(Some(5), Some("grp"), Some("Group"), Some("x"), Some("t.me/GRP")));
    assert!(!dialog_matches(Some(5), None, None, None, None));
    assert!(!dialog_matches(None, None, None, Some(""), None));
}

#[test]
fn plans_peer_lookups_in_order() {
    let mut t = task("t", "  @chan ");
    t.chat_name = Some(" Name ".to_string());
    let plan = peer_lookup_plan(&t);
    let kinds: Vec<String> = plan
        .iter()
        .map(|l| match l {
            PeerLookup::DialogById(s) => format!("id:{s}"),
            PeerLookup::DialogByName(s) => format!("name:{s}"),
            PeerLookup::Username(s) => format!("user:{s}"),
        })
        .collect();
    assert_eq!(kinds, vec!["id:@chan", "user:@chan", "name:Name", "user: Name "]);
    assert!(peer_lookup_plan(&task("t", "   ")).is_empty());
    assert_eq!(
        peer_not_found(&t).message(),
        "failed to resolve chat for task t; chat_id=  @chan , chat_name= Name "
    );
}

#[test]
fn prefers_an_explicit_session_file() {
    assert!(matches!(session_source(Some(1), Some("s.sqlite")), SessionSource::Explicit(p) if p == "s.sqlite"));
    assert!(matches!(session_source(Some(1), None), SessionSource::StoredForUser(1)));
    assert!(matches!(session_source(None, None), SessionSource::OnlyStored));
}
