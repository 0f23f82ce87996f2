use tel::config::{AppConfig, Task};
use tel::gen_config::{merge_tasks, new_action, optional_input, parse_delay, ActionKind};
use tel::telegram::{
    api_hash_from, api_id_from, sanitize_filename, session_dir, session_path_for_phone,
    DEFAULT_API_ID,
};
use tel::text::{
    parse_i32_checked, parse_i64, parse_u32_checked, str_eq_ignore_ascii_case, trim_str,
    IntErrorKind,
};
use tel::run::RunError;
use tel::trigger::{delay_bound, next_trigger, pick_delay_seconds, trigger_from, wait_millis};

fn task(name: &str) -> Task {
    Task {
        name: name.to_string(),
        chat_id: String::new(),
        chat_name: None,
        cron: None,
        delay: None,
        action: vec![],
    }
}

#[test]
fn sanitizes_file_names() {
    assert_eq!(sanitize_filename("+1 (234) 567-89_0"), "p1234567-89_0");
    assert_eq!(sanitize_filename("电话"), "default");
    assert_eq!(sanitize_filename(""), "default");
}

#[test]
fn places_session_files_by_phone() {
    assert_eq!(session_dir(), ".tel/sessions");
    assert_eq!(session_path_for_phone("+123456789"), ".tel/sessions/p123456789.sqlite");
}

#[test]
fn chooses_api_credentials() {
    assert_eq!(api_id_from(None), Ok(DEFAULT_API_ID));
    assert_eq!(api_id_from(Some("12")), Ok(12));
    assert_eq!(api_id_from(Some("-2147483648")), Ok(i32::MIN));
    assert_eq!(api_id_from(Some("2147483648")).unwrap_err().kind, IntErrorKind::PosOverflow);
    assert_eq!(api_id_from(Some("-2147483649")).unwrap_err().kind, IntErrorKind::NegOverflow);
    assert_eq!(api_id_from(Some("")).unwrap_err().kind, IntErrorKind::Empty);
    let refused = api_id_from(Some("x")).unwrap_err();
    assert_eq!(refused.kind, IntErrorKind::InvalidDigit);
    assert_eq!(refused.message(), "TG_API_ID must be a valid i32");
    assert_eq!(api_hash_from(None), "45ae393448c97ddbd6c74d02b31ea024");
    assert_eq!(api_hash_from(Some("h".to_string())), "h");
}

#[test]
fn parses_integers_like_std() {
    for s in ["0", "+7", "-0", "-9223372036854775808", "9223372036854775807", "", "+", "-", "1a", " 1", "9223372036854775808"] {
        assert_eq!(parse_i64(s), s.parse::<i64>().ok(), "{s}");
    }
    for s in ["2147483647", "-2147483649", "+0"] {
        assert_eq!(parse_i32_checked(s).ok(), s.parse::<i32>().ok(), "{s}");
    }
    for s in ["4294967295", "4294967296", "-0", "+5", "007"] {
        assert_eq!(parse_u32_checked(s).ok(), s.parse::<u32>().ok(), "{s}");
    }
}

#[test]
fn trims_and_compares_text() {
    assert_eq!(trim_str(" \t a b \n"), "a b");
    assert_eq!(trim_str("\u{2003}x\u{2028}"), "x");
    assert!(str_eq_ignore_ascii_case("AbC", "aBc"));
    assert!(!str_eq_ignore_ascii_case("Ä", "ä"));
}

#[test]
fn reads_optional_answers() {
    assert_eq!(optional_input("  x y ".to_string()), Some("x y".to_string()));
    assert_eq!(optional_input("   ".to_string()), None);
    assert_eq!(parse_delay(" ".to_string()).unwrap(), None);
    assert_eq!(parse_delay(" 30 ".to_string()).unwrap(), Some(30));
    let error = parse_delay("abc".to_string()).unwrap_err();
    assert_eq!(error.input, "abc");
    assert_eq!(error.kind, IntErrorKind::InvalidDigit);
    assert_eq!(error.kind.message(), "invalid digit found in string");
    let too_big = parse_delay("99999999999x".to_string()).unwrap_err();
    assert_eq!(too_big.kind, IntErrorKind::PosOverflow);
    assert_eq!(too_big.kind.message(), "99999999999x".parse::<u32>().unwrap_err().to_string());
    assert_eq!(parse_delay("+".to_string()).unwrap_err().kind, IntErrorKind::InvalidDigit);
}

#[test]
fn builds_actions_and_merges_tasks() {
    let a = new_action(ActionKind::Click, "OK".to_string());
    assert_eq!(a.click.unwrap().key, "OK");
    assert!(a.text.is_none() && a.dice.is_none() && a.llm.is_none());
    let merged = merge_tasks(Some(AppConfig { task: vec![task("old")] }), vec![task("new")]);
    let names: Vec<&str> = merged.task.iter().map(|t| t.name.as_str()).collect();
    assert_eq!(names, vec!["old", "new"]);
    assert_eq!(merge_tasks(None, vec![task("only")]).task.len(), 1);
}

#[test]
fn parses_cron_schedules() {
    // 2024-01-01 08:30:00.250 UTC; the schedule fires daily at 09:00:00.
    let now = 1_704_097_800_250;
    assert_eq!(next_trigger("0 0 9 * * *", now).unwrap(), 1_704_099_600_000);
    assert_eq!(next_trigger("0 0 9 * * *", 1_704_099_600_000).unwrap(), 1_704_186_000_000);
    let error = next_trigger("not a cron", now).unwrap_err();
    assert_eq!(error.message(), "invalid cron expression: not a cron");
    match error {
        RunError::InvalidCron { expression, cause } => {
            assert_eq!(expression, "not a cron");
            assert!(!cause.to_string().is_empty());
        }
        other => panic!("unexpected error: {}", other.message()),
    }
    let past = next_trigger("0 0 0 1 1 * 2020", now).unwrap_err();
    assert_eq!(past.message(), "cron expression has no upcoming trigger");
    assert!(matches!(trigger_from("x", Ok(None)), Err(RunError::NoUpcomingTrigger)));
    assert_eq!(trigger_from("x", Ok(Some(7))).unwrap(), 7);
    let cause = "bad".parse::<cron::Schedule>().unwrap_err();
    match trigger_from("bad", Err(cause)) {
        Err(RunError::InvalidCron { expression, .. }) => assert_eq!(expression, "bad"),
        _ => panic!("expected an invalid cron error"),
    }
}

#[test]
fn waits_until_the_trigger() {
    assert_eq!(wait_millis(1_500, 1_000), 500);
    assert_eq!(wait_millis(1_000, 1_000), 0);
    assert_eq!(wait_millis(1_000, 2_000), 0);
    assert_eq!(wait_millis(i64::MAX, i64::MIN), u64::MAX);
}

#[test]
fn picks_delays_in_range() {
    assert_eq!(delay_bound(None), None);
    assert_eq!(delay_bound(Some(0)), None);
    assert_eq!(delay_bound(Some(7)), Some(7));
    assert_eq!(pick_delay_seconds(None), None);
    assert_eq!(pick_delay_seconds(Some(0)), None);
    assert_eq!(pick_delay_seconds(Some(1)), Some(1));
    let mut seen_below_max = false;
    for _ in 0..200 {
        let s = pick_delay_seconds(Some(3)).unwrap();
        assert!((1..=3).contains(&s));
        seen_below_max |= s < 3;
    }
    assert!(seen_below_max);
    let mut seen_above_one = false;
    for _ in 0..200 {
        seen_above_one |= pick_delay_seconds(Some(1000)).unwrap() > 1;
    }
    assert!(seen_above_one);
}

#[test]
fn reports_integer_errors_like_std() {
    for s in ["", "+", "-", "-1", "12a", "4294967296", "42949672961x", "x4294967296", "0", "+4294967295"] {
        let ours = parse_u32_checked(s).map_err(|e| e.message());
        let std = s.parse::<u32>().map_err(|e| e.to_string());
        assert_eq!(ours, std, "{s}");
    }
    for s in ["", "-", "+", "-2147483649", "2147483648", "-12a", "-2147483648", "--1"] {
        let ours = parse_i32_checked(s).map_err(|e| e.message());
        let std = s.parse::<i32>().map_err(|e| e.to_string());
        assert_eq!(ours, std, "{s}");
    }
    assert_eq!(IntErrorKind::Empty.message(), "cannot parse integer from empty string");
}
