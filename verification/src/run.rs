//! The decisions of a task run: which tasks run, which stored session is
//! used, which body an action has, how a chat is looked up, when a task
//! waits, and which keyboard button a click presses.
use vstd::prelude::*;
use vstd::string::*;

use crate::config::{
    action_error_text, body_count, Action, ActionBodyError, AppConfig, ClickAction, DiceAction,
    LlmAction, Task, TextAction,
};
use crate::db::SessionData;
use crate::text::{
    chars_of, is_space, parse_i64, parse_integer, signed_decimal, str_equal,
    str_eq_ignore_ascii_case, eq_ignore_ascii_case, strip_all, skip_all, trim, trim_str,
    i64_to_string, is_whitespace, decimal, push_decimal,
};

verus! {

/// Why a run stops before or while it performs a task.
#[derive(Debug)]
pub enum RunError {
    /// The configuration has no `[[task]]` entry.
    NoTasks,
    /// No task has the requested name.
    TaskNotFound(String),
    /// No session is stored for the requested user.
    NoStoredSessionForUser(i64),
    /// No session is stored at all.
    NoStoredSession,
    /// More than one session is stored and none was chosen.
    MultipleStoredSessions,
    /// The stored session of this user has a blank path.
    EmptySessionPath(i64),
    /// The named task has no action.
    TaskHasNoActions(String),
    /// An action has no body or more than one.
    ActionBody(ActionBodyError),
    /// No chat matched the task's `chat_id` or `chat_name`.
    PeerNotFound { task: String, chat_id: String, chat_name: String },
    /// The task's cron expression does not parse; `cause` is the parser's error.
    InvalidCron { expression: String, cause: cron::error::Error },
    /// The task's cron schedule fires no more.
    NoUpcomingTrigger,
    /// A button with the key was found, but it is not a callback button.
    UnsupportedButton(String),
    /// No callback button with the key was found.
    ButtonNotFound(String),
}

/// The number of recent messages searched for a button, per attempt.
pub const CLICK_LOOKUP_LIMIT: usize = 30;

/// How many times the recent messages are searched for a button.
pub const CLICK_LOOKUP_ATTEMPTS: usize = 15;

/// The message that reports a `RunError`.
pub open spec fn run_error_text(e: RunError) -> Seq<char> {
    match e {
        RunError::NoTasks => "task config has no [[task]] entries"@,
        RunError::TaskNotFound(f) => "task not found: "@ + f@,
        RunError::NoStoredSessionForUser(u) => "no stored session for user "@ + signed_decimal(
            u as int,
        ),
        RunError::NoStoredSession => "no stored session; run `tel login` or pass --session-path"@,
        RunError::MultipleStoredSessions => "multiple stored sessions; pass --user to select one"@,
        RunError::EmptySessionPath(u) => "stored session for user "@ + signed_decimal(u as int)
            + " has no session path"@,
        RunError::TaskHasNoActions(t) => "task "@ + t@ + " has no action entries"@,
        RunError::ActionBody(b) => action_error_text(b),
        RunError::PeerNotFound { task, chat_id, chat_name } => "failed to resolve chat for task "@
            + task@ + "; chat_id="@ + chat_id@ + ", chat_name="@ + chat_name@,
        RunError::InvalidCron { expression, .. } => "invalid cron expression: "@ + expression@,
        RunError::NoUpcomingTrigger => "cron expression has no upcoming trigger"@,
        RunError::UnsupportedButton(t) => "matched inline keyboard button `"@ + t@
            + "`, but this button type is not supported"@,
        RunError::ButtonNotFound(k) => "no inline keyboard callback button found for key `"@ + k@
            + "` in the latest "@ + decimal(CLICK_LOOKUP_LIMIT as nat) + " messages"@,
    }
}

impl RunError {
    /// The message that reports this error.
    pub fn message(&self) -> (r: String)
        ensures
            r@ == run_error_text(*self),
    {
        match self {
            RunError::NoTasks => String::from_str("task config has no [[task]] entries"),
            RunError::TaskNotFound(f) => String::from_str("task not found: ").concat(f.as_str()),
            RunError::NoStoredSessionForUser(u) => {
                let id = i64_to_string(*u);
                String::from_str("no stored session for user ").concat(id.as_str())
            },
            RunError::NoStoredSession => String::from_str(
                "no stored session; run `tel login` or pass --session-path",
            ),
            RunError::MultipleStoredSessions => String::from_str(
                "multiple stored sessions; pass --user to select one",
            ),
            RunError::EmptySessionPath(u) => {
                let id = i64_to_string(*u);
                String::from_str("stored session for user ").concat(id.as_str()).concat(
                    " has no session path",
                )
            },
            RunError::TaskHasNoActions(t) => String::from_str("task ").concat(t.as_str()).concat(
                " has no action entries",
            ),
            RunError::ActionBody(b) => b.message(),
            RunError::PeerNotFound { task, chat_id, chat_name } => String::from_str(
                "failed to resolve chat for task ",
            ).concat(task.as_str()).concat("; chat_id=").concat(chat_id.as_str()).concat(
                ", chat_name=",
            ).concat(chat_name.as_str()),
            RunError::InvalidCron { expression, .. } => String::from_str(
                "invalid cron expression: ",
            ).concat(expression.as_str()),
            RunError::NoUpcomingTrigger => String::from_str("cron expression has no upcoming trigger"),
            RunError::UnsupportedButton(t) => String::from_str(
                "matched inline keyboard button `",
            ).concat(t.as_str()).concat("`, but this button type is not supported"),
            RunError::ButtonNotFound(k) => {
                let mut m = String::from_str("no inline keyboard callback button found for key `")
                    .concat(k.as_str()).concat("` in the latest ");
                push_decimal(&mut m, CLICK_LOOKUP_LIMIT as u64);
                m.concat(" messages")
            },
        }
    }
}

/// A configuration is usable when it has at least one task.
pub fn check_config_has_tasks(config: &AppConfig) -> (r: Result<(), RunError>)
    ensures
        r is Ok <==> config.task@.len() > 0,
        r matches Err(e) ==> e == RunError::NoTasks,
{
    if config.task.len() == 0 {
        Err(RunError::NoTasks)
    } else {
        Ok(())
    }
}

/// The view of an optional string slice.
pub open spec fn opt_str_view(o: Option<&str>) -> Option<Seq<char>> {
    match o {
        Some(s) => Some(s@),
        None => None,
    }
}

/// Whether a task passes the optional name filter.
pub open spec fn passes_filter(t: Task, filter: Option<Seq<char>>) -> bool {
    match filter {
        Some(f) => t.name@ == f,
        None => true,
    }
}

/// The tasks that pass the filter, in their order.
pub open spec fn filtered_tasks(tasks: Seq<Task>, filter: Option<Seq<char>>) -> Seq<Task>
    decreases tasks.len(),
{
    if tasks.len() == 0 {
        seq![]
    } else if passes_filter(tasks.last(), filter) {
        filtered_tasks(tasks.drop_last(), filter).push(tasks.last())
    } else {
        filtered_tasks(tasks.drop_last(), filter)
    }
}

/// The tasks to run: all of them, or those named `task_filter`; a filter
/// that names no task is an error.
pub fn select_tasks<'a>(config: &'a AppConfig, task_filter: Option<&str>) -> (r: Result<
    Vec<&'a Task>,
    RunError,
>)
    ensures
        ({
            let sel = filtered_tasks(config.task@, opt_str_view(task_filter));
            match r {
                Ok(v) => {
                    &&& v@.len() == sel.len()
                    &&& forall|i: int| 0 <= i < sel.len() ==> *v@[i] == sel[i]
                    &&& task_filter is None || sel.len() > 0
                },
                Err(e) => task_filter is Some && sel.len() == 0 && (e matches RunError::TaskNotFound(
                    f,
                ) && f@ == task_filter->0@),
            }
        }),
{
    let ghost filter = opt_str_view(task_filter);
    let ghost tasks = config.task@;
    let mut selected: Vec<&'a Task> = Vec::new();
    for i in 0..config.task.len()
        invariant
            tasks == config.task@,
            filter == opt_str_view(task_filter),
            selected@.len() == filtered_tasks(tasks.take(i as int), filter).len(),
            forall|j: int|
                0 <= j < selected@.len() ==> *selected@[j] == filtered_tasks(
                    tasks.take(i as int),
                    filter,
                )[j],
    {
        let task = &config.task[i];
        let keep = match task_filter {
            Some(f) => str_equal(task.name.as_str(), f),
            None => true,
        };
        assert(tasks.take(i + 1).drop_last() == tasks.take(i as int));
        assert(tasks.take(i + 1).last() == tasks[i as int]);
        if keep {
            selected.push(task);
        }
    }
    assert(tasks.take(tasks.len() as int) == tasks);
    match task_filter {
        Some(f) => {
            if selected.len() == 0 {
                return Err(RunError::TaskNotFound(String::from_str(f)));
            }
        },
        None => {},
    }
    Ok(selected)
}

/// Where the session of a run comes from.
#[derive(Debug, Clone)]
pub enum SessionSource {
    /// The session file given on the command line.
    Explicit(String),
    /// The session stored for this user.
    StoredForUser(i64),
    /// The only stored session.
    OnlyStored,
}

/// A session file given on the command line wins; else the stored session of
/// the user asked for; else the only stored session.
pub fn session_source(user: Option<i64>, session_path: Option<&str>) -> (r: SessionSource)
    ensures
        match session_path {
            Some(p) => r matches SessionSource::Explicit(q) && q@ == p@,
            None => match user {
                Some(u) => r matches SessionSource::StoredForUser(v) && v == u,
                None => r matches SessionSource::OnlyStored,
            },
        },
{
    match session_path {
        Some(p) => SessionSource::Explicit(String::from_str(p)),
        None => match user {
            Some(u) => SessionSource::StoredForUser(u),
            None => SessionSource::OnlyStored,
        },
    }
}

/// The stored session of the user asked for, given what the session store
/// found under that user id.
pub fn session_for_user(user_id: i64, found: Option<SessionData>) -> (r: Result<
    SessionData,
    RunError,
>)
    ensures
        match found {
            Some(s) => r == Ok::<SessionData, RunError>(s),
            None => r == Err::<SessionData, RunError>(RunError::NoStoredSessionForUser(user_id)),
        },
{
    match found {
        Some(s) => Ok(s),
        None => Err(RunError::NoStoredSessionForUser(user_id)),
    }
}

/// With no user asked for, the one stored session; none or several is an error.
pub fn single_session(sessions: Vec<SessionData>) -> (r: Result<SessionData, RunError>)
    ensures
        sessions@.len() == 0 ==> r == Err::<SessionData, RunError>(RunError::NoStoredSession),
        sessions@.len() == 1 ==> r == Ok::<SessionData, RunError>(sessions@[0]),
        sessions@.len() > 1 ==> r == Err::<SessionData, RunError>(
            RunError::MultipleStoredSessions,
        ),
{
    let mut sessions = sessions;
    if sessions.len() == 0 {
        Err(RunError::NoStoredSession)
    } else if sessions.len() == 1 {
        Ok(sessions.remove(0))
    } else {
        Err(RunError::MultipleStoredSessions)
    }
}

/// The session file of a stored session; a blank path is an error.
pub fn stored_session_path(session: SessionData) -> (r: Result<String, RunError>)
    ensures
        match r {
            Ok(p) => !crate::text::is_blank(session.session_path@) && p@
                == session.session_path@,
            Err(e) => crate::text::is_blank(session.session_path@) && e
                == RunError::EmptySessionPath(session.user_id),
        },
{
    if crate::text::is_blank_str(session.session_path.as_str()) {
        return Err(RunError::EmptySessionPath(session.user_id));
    }
    Ok(session.session_path)
}

/// A task can run only when it has at least one action.
pub fn check_task_actions(task: &Task) -> (r: Result<(), RunError>)
    ensures
        match r {
            Ok(()) => task.action@.len() > 0,
            Err(e) => task.action@.len() == 0 && (e matches RunError::TaskHasNoActions(n) && n@
                == task.name@),
        },
{
    if task.action.len() == 0 {
        return Err(RunError::TaskHasNoActions(task.name.clone()));
    }
    Ok(())
}

/// The one body of an action.
pub enum ResolvedAction<'a> {
    Text(&'a TextAction),
    Dice(&'a DiceAction),
    Click(&'a ClickAction),
    Llm(&'a LlmAction),
}

/// Whether `r` is a body that `a` carries.
pub open spec fn is_body_of(r: ResolvedAction, a: Action) -> bool {
    match r {
        ResolvedAction::Text(t) => a.text == Some(*t),
        ResolvedAction::Dice(d) => a.dice == Some(*d),
        ResolvedAction::Click(c) => a.click == Some(*c),
        ResolvedAction::Llm(l) => a.llm == Some(*l),
    }
}

/// The single body of `action`; none, or more than one, is an error.
pub fn resolve_action(action: &Action) -> (r: Result<ResolvedAction<'_>, ActionBodyError>)
    ensures
        match r {
            Ok(b) => body_count(*action) == 1 && is_body_of(b, *action),
            Err(e) => (body_count(*action) == 0 && e == ActionBodyError::Missing) || (body_count(
                *action,
            ) > 1 && e == ActionBodyError::Multiple),
        },
{
    let mut count: u32 = 0;
    let mut found: Option<ResolvedAction<'_>> = None;
    if let Some(text) = action.text.as_ref() {
        count += 1;
        found = Some(ResolvedAction::Text(text));
    }
    if let Some(dice) = action.dice.as_ref() {
        count += 1;
        found = Some(ResolvedAction::Dice(dice));
    }
    if let Some(click) = action.click.as_ref() {
        count += 1;
        found = Some(ResolvedAction::Click(click));
    }
    if let Some(llm) = action.llm.as_ref() {
        count += 1;
        found = Some(ResolvedAction::Llm(llm));
    }
    assert(count == body_count(*action));
    if count == 0 {
        Err(ActionBodyError::Missing)
    } else if count > 1 {
        Err(ActionBodyError::Multiple)
    } else {
        match found {
            Some(b) => Ok(b),
            None => Err(ActionBodyError::Missing),
        }
    }
}

/// A chat reference as users write it, reduced to the bare username: white
/// space trimmed, then leading `@`, `https://t.me/`, `http://t.me/` and
/// `t.me/` removed, each as many times as it occurs, in that order.
pub open spec fn bare_username(s: Seq<char>) -> Seq<char> {
    strip_all(
        strip_all(strip_all(strip_all(trim(s), seq!['@']), "https://t.me/"@), "http://t.me/"@),
        "t.me/"@,
    )
}

/// The bare username in a chat reference.
pub fn trim_username(value: &str) -> (r: &str)
    ensures
        r@ == bare_username(value@),
{
    let t = trim_str(value);
    let v = chars_of(t);
    let mut at: Vec<char> = Vec::new();
    at.push('@');
    assert(at@ == seq!['@']);
    let https = chars_of("https://t.me/");
    let http = chars_of("http://t.me/");
    let short = chars_of("t.me/");
    assert(v@.skip(0) == v@);
    let i = skip_all(&v, 0, &at);
    let i = skip_all(&v, i, &https);
    let i = skip_all(&v, i, &http);
    let i = skip_all(&v, i, &short);
    assert(v@.skip(i as int) == v@.subrange(i as int, v@.len() as int));
    t.substring_char(i, v.len())
}

/// Whether some character of `s` is white space.
pub open spec fn has_space(s: Seq<char>) -> bool {
    exists|i: int| 0 <= i < s.len() && is_space(#[trigger] s[i])
}

/// Whether a chat reference may be looked up as a username: its bare
/// username is not empty, is not an `i64`, and holds no white space.
pub open spec fn is_username_candidate(s: Seq<char>) -> bool {
    let u = bare_username(s);
    &&& u.len() > 0
    &&& parse_integer(u, true, i64::MIN as int, i64::MAX as int) is None
    &&& !has_space(u)
}

/// The username to resolve for a chat reference, if it may be one.
pub fn username_candidate(value: &str) -> (r: Option<&str>)
    ensures
        match r {
            Some(u) => is_username_candidate(value@) && u@ == bare_username(value@),
            None => !is_username_candidate(value@),
        },
{
    let username = trim_username(value);
    let v = chars_of(username);
    if v.len() == 0 {
        return None;
    }
    if parse_i64(username).is_some() {
        return None;
    }
    for i in 0..v.len()
        invariant
            v@ == username@,
            username@ == bare_username(value@),
            forall|j: int| 0 <= j < i ==> !is_space(v@[j]),
    {
        if is_whitespace(v[i]) {
            assert(is_space(username@[i as int]));
            assert(has_space(username@));
            return None;
        }
    }
    Some(username)
}

/// Whether a dialog answers a lookup by id: its id (when it has one) written
/// in decimal is the reference, or its username equals the bare username up to ASCII case.
pub open spec fn matches_by_id(
    dialog_id: Option<i64>,
    username: Option<Seq<char>>,
    chat_id: Seq<char>,
) -> bool {
    ||| (dialog_id matches Some(d) && signed_decimal(d as int) == chat_id)
    ||| (username matches Some(u) && eq_ignore_ascii_case(u, bare_username(chat_id)))
}

/// Whether a dialog answers a lookup by name: its name is the reference, or
/// its username equals the bare username up to ASCII case.
pub open spec fn matches_by_name(
    name: Option<Seq<char>>,
    username: Option<Seq<char>>,
    chat_name: Seq<char>,
) -> bool {
    ||| (name matches Some(n) && n == chat_name)
    ||| (username matches Some(u) && eq_ignore_ascii_case(u, bare_username(chat_name)))
}

/// Whether the dialog with `dialog_id`, `username` and `name` is the chat that
/// `chat_id` (or, failing that, `chat_name`) refers to.
pub fn dialog_matches(
    dialog_id: Option<i64>,
    username: Option<&str>,
    name: Option<&str>,
    chat_id: Option<&str>,
    chat_name: Option<&str>,
) -> (r: bool)
    ensures
        r == ((chat_id matches Some(c) && matches_by_id(dialog_id, opt_str_view(username), c@))
            || (chat_name matches Some(n) && matches_by_name(
            opt_str_view(name),
            opt_str_view(username),
            n@,
        ))),
{
    if let Some(chat_id) = chat_id {
        let id_matches = match dialog_id {
            Some(d) => {
                let id_text = i64_to_string(d);
                str_equal(id_text.as_str(), chat_id)
            },
            None => false,
        };
        let username_matches = match username {
            Some(u) => str_eq_ignore_ascii_case(u, trim_username(chat_id)),
            None => false,
        };
        if id_matches || username_matches {
            return true;
        }
    }
    if let Some(chat_name) = chat_name {
        let name_matches = match name {
            Some(n) => str_equal(n, chat_name),
            None => false,
        };
        let username_matches = match username {
            Some(u) => str_eq_ignore_ascii_case(u, trim_username(chat_name)),
            None => false,
        };
        if name_matches || username_matches {
            return true;
        }
    }
    false
}

/// One way of finding a task's chat.
#[derive(Debug, Clone)]
pub enum PeerLookup {
    /// Search the dialogs for this id or username.
    DialogById(String),
    /// Search the dialogs for this name or username.
    DialogByName(String),
    /// Resolve this reference as a username.
    Username(String),
}

/// The view of a lookup step: its kind and text.
pub open spec fn lookup_view(l: PeerLookup) -> (int, Seq<char>) {
    match l {
        PeerLookup::DialogById(s) => (0, s@),
        PeerLookup::DialogByName(s) => (1, s@),
        PeerLookup::Username(s) => (2, s@),
    }
}

/// The lookups for a task's chat, in the order they are tried: by the trimmed
/// `chat_id` when it is not blank (in the dialogs, then as a username), then
/// by `chat_name` (in the dialogs by its trimmed form, then as a username).
pub open spec fn lookup_plan(t: Task) -> Seq<(int, Seq<char>)> {
    let id = trim(t.chat_id@);
    (if id.len() > 0 {
        seq![(0int, id), (2int, id)]
    } else {
        seq![]
    }) + match t.chat_name {
        Some(n) => seq![(1int, trim(n@)), (2int, n@)],
        None => seq![],
    }
}

/// The lookups to try, in order, to find the chat of `task`.
pub fn peer_lookup_plan(task: &Task) -> (r: Vec<PeerLookup>)
    ensures
        r@.len() == lookup_plan(*task).len(),
        forall|i: int| 0 <= i < r@.len() ==> lookup_view(#[trigger] r@[i]) == lookup_plan(*task)[i],
{
    let mut plan: Vec<PeerLookup> = Vec::new();
    let chat_id = trim_str(task.chat_id.as_str());
    if chat_id.unicode_len() > 0 {
        plan.push(PeerLookup::DialogById(String::from_str(chat_id)));
        plan.push(PeerLookup::Username(String::from_str(chat_id)));
    }
    if let Some(chat_name) = task.chat_name.as_ref() {
        plan.push(PeerLookup::DialogByName(String::from_str(trim_str(chat_name.as_str()))));
        plan.push(PeerLookup::Username(chat_name.clone()));
    }
    plan
}

/// The error when no lookup found the chat of `task`.
pub fn peer_not_found(task: &Task) -> (r: RunError)
    ensures
        r matches RunError::PeerNotFound { task: t, chat_id: c, chat_name: n } && t@
            == task.name@ && c@ == task.chat_id@ && n@ == match task.chat_name {
            Some(x) => x@,
            None => Seq::<char>::empty(),
        },
{
    let chat_name = match task.chat_name.as_ref() {
        Some(n) => n.clone(),
        None => String::new(),
    };
    RunError::PeerNotFound {
        task: task.name.clone(),
        chat_id: task.chat_id.clone(),
        chat_name: chat_name,
    }
}

/// A keyboard button as far as a click needs it.
#[derive(Debug, Clone)]
pub enum KeyboardButton {
    /// A button that sends `data` back to the bot when pressed.
    Callback { text: String, data: Vec<u8> },
    /// Any other kind of button.
    Other { text: String },
}

/// One row of buttons.
#[derive(Debug, Clone)]
pub struct KeyboardButtonRow {
    pub buttons: Vec<KeyboardButton>,
}

/// The keyboard attached to a message.
#[derive(Debug, Clone)]
pub enum ReplyMarkup {
    /// Buttons shown under the message.
    ReplyInlineMarkup { rows: Vec<KeyboardButtonRow> },
    /// A custom reply keyboard.
    ReplyKeyboardMarkup { rows: Vec<KeyboardButtonRow> },
    /// A request to hide the reply keyboard.
    ReplyKeyboardHide,
    /// A request to reply to the message.
    ReplyKeyboardForceReply,
}

/// The button found for a key: a callback button's data, or the text of a
/// button of another kind.
#[derive(Debug, Clone)]
pub enum InlineButtonMatch {
    Callback(Vec<u8>),
    Unsupported(String),
}

/// The text of a button.
pub open spec fn button_text(b: KeyboardButton) -> Seq<char> {
    match b {
        KeyboardButton::Callback { text, .. } => text@,
        KeyboardButton::Other { text } => text@,
    }
}

/// The first button of a row whose text is `key`.
pub open spec fn first_in_buttons(bs: Seq<KeyboardButton>, key: Seq<char>) -> Option<KeyboardButton>
    decreases bs.len(),
{
    if bs.len() == 0 {
        None
    } else if button_text(bs[0]) == key {
        Some(bs[0])
    } else {
        first_in_buttons(bs.drop_first(), key)
    }
}

/// The first button, row by row, whose text is `key`.
pub open spec fn first_in_rows(rows: Seq<KeyboardButtonRow>, key: Seq<char>) -> Option<KeyboardButton>
    decreases rows.len(),
{
    if rows.len() == 0 {
        None
    } else {
        match first_in_buttons(rows[0].buttons@, key) {
            Some(b) => Some(b),
            None => first_in_rows(rows.drop_first(), key),
        }
    }
}

/// The button of an inline keyboard whose text is `key`; other keyboards
/// have none.
pub open spec fn key_button(markup: Option<ReplyMarkup>, key: Seq<char>) -> Option<KeyboardButton> {
    match markup {
        Some(ReplyMarkup::ReplyInlineMarkup { rows }) => first_in_rows(rows@, key),
        _ => None,
    }
}

/// Whether a match reports the button `b`.
pub open spec fn reports(m: Option<InlineButtonMatch>, b: Option<KeyboardButton>) -> bool {
    match (m, b) {
        (None, None) => true,
        (Some(InlineButtonMatch::Callback(d)), Some(KeyboardButton::Callback { data, .. })) => d@
            == data@,
        (Some(InlineButtonMatch::Unsupported(t)), Some(KeyboardButton::Other { text })) => t@
            == text@,
        _ => false,
    }
}

fn match_button(button: &KeyboardButton) -> (r: InlineButtonMatch)
    ensures
        reports(Some(r), Some(*button)),
{
    match button {
        KeyboardButton::Callback { data, .. } => {
            let mut copy: Vec<u8> = Vec::new();
            for i in 0..data.len()
                invariant
                    copy@ == data@.take(i as int),
            {
                copy.push(data[i]);
                assert(data@.take(i + 1) == data@.take(i as int).push(data@[i as int]));
            }
            assert(data@.take(data.len() as int) == data@);
            InlineButtonMatch::Callback(copy)
        },
        KeyboardButton::Other { text } => InlineButtonMatch::Unsupported(text.clone()),
    }
}

proof fn lemma_first_in_buttons_skip(bs: Seq<KeyboardButton>, key: Seq<char>, i: int)
    requires
        0 <= i < bs.len(),
    ensures
        first_in_buttons(bs.skip(i), key) == if button_text(bs[i]) == key {
            Some(bs[i])
        } else {
            first_in_buttons(bs.skip(i + 1), key)
        },
{
    assert(bs.skip(i).drop_first() == bs.skip(i + 1));
    assert(bs.skip(i)[0] == bs[i]);
}

/// The first button in `buttons` whose text is `key`, if any.
fn find_in_buttons(buttons: &Vec<KeyboardButton>, key: &str) -> (r: Option<InlineButtonMatch>)
    ensures
        reports(r, first_in_buttons(buttons@, key@)),
{
    assert(buttons@.skip(0) == buttons@);
    for i in 0..buttons.len()
        invariant
            first_in_buttons(buttons@, key@) == first_in_buttons(buttons@.skip(i as int), key@),
    {
        let button = &buttons[i];
        let text = match button {
            KeyboardButton::Callback { text, .. } => text,
            KeyboardButton::Other { text } => text,
        };
        proof {
            lemma_first_in_buttons_skip(buttons@, key@, i as int);
        }
        if str_equal(text.as_str(), key) {
            return Some(match_button(button));
        }
    }
    assert(buttons@.skip(buttons.len() as int) =~= Seq::<KeyboardButton>::empty());
    None
}

/// The first button, row by row, whose text is `key`: a callback button
/// gives its data, any other kind its text.
pub fn find_inline_button_in_rows(rows: &Vec<KeyboardButtonRow>, key: &str) -> (r: Option<
    InlineButtonMatch,
>)
    ensures
        reports(r, first_in_rows(rows@, key@)),
{
    assert(rows@.skip(0) == rows@);
    for i in 0..rows.len()
        invariant
            first_in_rows(rows@, key@) == first_in_rows(rows@.skip(i as int), key@),
    {
        assert(rows@.skip(i as int).drop_first() == rows@.skip(i + 1));
        assert(rows@.skip(i as int)[0] == rows@[i as int]);
        let found = find_in_buttons(&rows[i].buttons, key);
        if found.is_some() {
            return found;
        }
    }
    assert(rows@.skip(rows.len() as int) =~= Seq::<KeyboardButtonRow>::empty());
    None
}

/// The button with text `key` in an inline keyboard; reply keyboards and
/// messages without a keyboard have none.
pub fn find_inline_button(markup: Option<&ReplyMarkup>, key: &str) -> (r: Option<InlineButtonMatch>)
    ensures
        reports(
            r,
            key_button(
                match markup {
                    Some(m) => Some(*m),
                    None => None,
                },
                key@,
            ),
        ),
{
    match markup {
        Some(ReplyMarkup::ReplyInlineMarkup { rows }) => find_inline_button_in_rows(rows, key),
        _ => None,
    }
}

/// What a bot answered to a button press.
#[derive(Debug, Clone)]
pub struct CallbackAnswer {
    pub message: Option<String>,
}

/// The text of a bot's answer worth showing: its message, unless blank.
pub fn callback_answer_text(answer: CallbackAnswer) -> (r: Option<String>)
    ensures
        match answer.message {
            Some(m) => if crate::text::is_blank(m@) {
                r is None
            } else {
                r == Some(m)
            },
            None => r is None,
        },
{
    match answer.message {
        Some(m) => {
            if crate::text::is_blank_str(m.as_str()) {
                None
            } else {
                Some(m)
            }
        },
        None => None,
    }
}

/// The search for a button to click: which key, and the text of the last
/// button found with that key that is not a callback button.
#[derive(Debug, Clone)]
pub struct ClickSearch {
    pub key: String,
    pub unsupported_match: Option<String>,
}

impl ClickSearch {
    /// A search for `key` that has seen nothing yet.
    pub fn new(key: &str) -> (r: ClickSearch)
        ensures
            r.key@ == key@,
            r.unsupported_match is None,
    {
        ClickSearch { key: String::from_str(key), unsupported_match: None }
    }

    /// Looks at one message's keyboard: gives the callback data to press when
    /// it has a callback button with the key, and remembers the text of a
    /// button of another kind with the key.
    pub fn inspect(&mut self, markup: Option<&ReplyMarkup>) -> (r: Option<Vec<u8>>)
        ensures
            final(self).key == old(self).key,
            ({
                let b = key_button(
                    match markup {
                        Some(m) => Some(*m),
                        None => None,
                    },
                    old(self).key@,
                );
                match b {
                    Some(KeyboardButton::Callback { data, .. }) => (r matches Some(d) && d@
                        == data@) && final(self).unsupported_match == old(self).unsupported_match,
                    Some(KeyboardButton::Other { text }) => r is None
                        && (final(self).unsupported_match matches Some(t) && t@ == text@),
                    None => r is None
                        && final(self).unsupported_match == old(self).unsupported_match,
                }
            }),
    {
        let found = find_inline_button(markup, self.key.as_str());
        match found {
            Some(InlineButtonMatch::Callback(data)) => Some(data),
            Some(InlineButtonMatch::Unsupported(text)) => {
                self.unsupported_match = Some(text);
                None
            },
            None => None,
        }
    }

    /// The error when the search ends without a press: the last button of
    /// another kind found, else that no button was found.
    pub fn finish(self) -> (r: RunError)
        ensures
            match self.unsupported_match {
                Some(t) => r == RunError::UnsupportedButton(t),
                None => r == RunError::ButtonNotFound(self.key),
            },
    {
        match self.unsupported_match {
            Some(t) => RunError::UnsupportedButton(t),
            None => RunError::ButtonNotFound(self.key),
        }
    }
}

/// What a click does after one search of the recent messages.
#[derive(Debug, Clone, Copy, PartialEq, Eq, Structural)]
pub enum ClickStep {
    /// Press the callback button that the search found.
    Press,
    /// Wait, then search the recent messages again.
    WaitThenSearch,
    /// Stop: the messages were searched as often as a click may search them.
    GiveUp,
}

/// The step after search `attempt` (counted from zero): press a button that
/// was found; else wait and search again while fewer than
/// `CLICK_LOOKUP_ATTEMPTS` searches were made; else give up.
pub open spec fn click_step(attempt: int, found: bool) -> ClickStep {
    if found {
        ClickStep::Press
    } else if attempt + 1 < CLICK_LOOKUP_ATTEMPTS {
        ClickStep::WaitThenSearch
    } else {
        ClickStep::GiveUp
    }
}

/// The step after search `attempt` (counted from zero), `found` telling
/// whether that search found a callback button with the key.
pub fn next_click_step(attempt: usize, found: bool) -> (r: ClickStep)
    ensures
        r == click_step(attempt as int, found),
{
    if found {
        ClickStep::Press
    } else if attempt < CLICK_LOOKUP_ATTEMPTS - 1 {
        ClickStep::WaitThenSearch
    } else {
        ClickStep::GiveUp
    }
}

/// The searches that a click makes from search `attempt` on while none of
/// them finds the button, and the waits between them, as `click_step` leads.
pub open spec fn searches_and_waits(attempt: nat) -> (nat, nat)
    decreases CLICK_LOOKUP_ATTEMPTS - attempt,
{
    if attempt >= CLICK_LOOKUP_ATTEMPTS {
        (0, 0)
    } else if click_step(attempt as int, false) == ClickStep::WaitThenSearch {
        let rest = searches_and_waits(attempt + 1);
        (rest.0 + 1, rest.1 + 1)
    } else {
        (1, 0)
    }
}

proof fn lemma_searches_and_waits_from(attempt: nat)
    requires
        attempt < CLICK_LOOKUP_ATTEMPTS,
    ensures
        searches_and_waits(attempt) == (
            (CLICK_LOOKUP_ATTEMPTS - attempt) as nat,
            (CLICK_LOOKUP_ATTEMPTS - 1 - attempt) as nat,
        ),
    decreases CLICK_LOOKUP_ATTEMPTS - attempt,
{
    if attempt + 1 < CLICK_LOOKUP_ATTEMPTS {
        lemma_searches_and_waits_from(attempt + 1);
    }
}

/// A click whose button is never found searches the recent messages
/// `CLICK_LOOKUP_ATTEMPTS` times, waits between two searches and not after
/// the last; a button that a search finds is pressed at once.
pub proof fn lemma_click_search_is_bounded()
    ensures
        searches_and_waits(0) == (CLICK_LOOKUP_ATTEMPTS as nat, (CLICK_LOOKUP_ATTEMPTS - 1) as nat),
        forall|attempt: int| #[trigger] click_step(attempt, true) == ClickStep::Press,
{
    lemma_searches_and_waits_from(0);
}

/// Without a name filter every task is selected, in order.
pub proof fn lemma_no_filter_selects_all(tasks: Seq<Task>)
    ensures
        filtered_tasks(tasks, None) == tasks,
    decreases tasks.len(),
{
    if tasks.len() > 0 {
        lemma_no_filter_selects_all(tasks.drop_last());
        assert(tasks.drop_last().push(tasks.last()) =~= tasks);
    }
}

/// The tasks selected by a name all carry that name.
pub proof fn lemma_filter_selects_named(tasks: Seq<Task>, name: Seq<char>)
    ensures
        forall|i: int|
            0 <= i < filtered_tasks(tasks, Some(name)).len() ==> (#[trigger] filtered_tasks(
                tasks,
                Some(name),
            )[i]).name@ == name,
    decreases tasks.len(),
{
    if tasks.len() > 0 {
        lemma_filter_selects_named(tasks.drop_last(), name);
    }
}

/// A task's chat is looked up first by its trimmed `chat_id`, when that is
/// not blank: in the dialogs, then as a username, whether or not a
/// `chat_name` is given. A `chat_name` only adds its own two lookups after
/// those: in the dialogs by its trimmed form, then as a username. There are
/// no other lookups.
pub proof fn lemma_lookup_plan_order(t: Task)
    ensures
        ({
            let id = trim(t.chat_id@);
            let k: int = if id.len() > 0 {
                2
            } else {
                0
            };
            &&& lookup_plan(t).len() == k + if t.chat_name is Some {
                2int
            } else {
                0int
            }
            &&& id.len() > 0 ==> lookup_plan(t)[0] == (0int, id) && lookup_plan(t)[1] == (2int, id)
            &&& t.chat_name matches Some(n) ==> lookup_plan(t)[k] == (1int, trim(n@)) && lookup_plan(
                t,
            )[k + 1] == (2int, n@)
        }),
{
}

proof fn lemma_first_in_buttons_at(bs: Seq<KeyboardButton>, key: Seq<char>, j: int)
    requires
        0 <= j <= bs.len(),
        forall|m: int| 0 <= m < j ==> button_text(#[trigger] bs[m]) != key,
    ensures
        j < bs.len() && button_text(bs[j]) == key ==> first_in_buttons(bs, key) == Some(bs[j]),
        j == bs.len() ==> first_in_buttons(bs, key) is None,
    decreases j,
{
    if j > 0 {
        let rest = bs.drop_first();
        assert forall|m: int| 0 <= m < j - 1 implies button_text(#[trigger] rest[m]) != key by {
            assert(rest[m] == bs[m + 1]);
        }
        lemma_first_in_buttons_at(rest, key, j - 1);
        assert(button_text(bs[0]) != key);
        if j < bs.len() {
            assert(rest[j - 1] == bs[j]);
        }
    }
}

proof fn lemma_first_in_rows_at(rows: Seq<KeyboardButtonRow>, key: Seq<char>, i: int, j: int)
    requires
        0 <= i < rows.len(),
        0 <= j < rows[i].buttons@.len(),
        button_text(rows[i].buttons@[j]) == key,
        forall|r: int, m: int|
            0 <= r < i && 0 <= m < rows[r].buttons@.len() ==> button_text(
                #[trigger] rows[r].buttons@[m],
            ) != key,
        forall|m: int| 0 <= m < j ==> button_text(#[trigger] rows[i].buttons@[m]) != key,
    ensures
        first_in_rows(rows, key) == Some(rows[i].buttons@[j]),
    decreases i,
{
    if i == 0 {
        lemma_first_in_buttons_at(rows[0].buttons@, key, j);
    } else {
        let first = rows[0].buttons@;
        assert forall|m: int| 0 <= m < first.len() implies button_text(#[trigger] first[m]) != key by {
            assert(button_text(rows[0].buttons@[m]) != key);
        }
        lemma_first_in_buttons_at(first, key, first.len() as int);
        let rest = rows.drop_first();
        assert forall|r: int, m: int|
            0 <= r < i - 1 && 0 <= m < rest[r].buttons@.len() implies button_text(
            #[trigger] rest[r].buttons@[m],
        ) != key by {
            assert(rest[r] == rows[r + 1]);
            assert(button_text(rows[r + 1].buttons@[m]) != key);
        }
        assert(rest[i - 1] == rows[i]);
        lemma_first_in_rows_at(rest, key, i - 1, j);
    }
}

proof fn lemma_first_in_rows_none(rows: Seq<KeyboardButtonRow>, key: Seq<char>)
    requires
        forall|r: int, m: int|
            0 <= r < rows.len() && 0 <= m < rows[r].buttons@.len() ==> button_text(
                #[trigger] rows[r].buttons@[m],
            ) != key,
    ensures
        first_in_rows(rows, key) is None,
    decreases rows.len(),
{
    if rows.len() > 0 {
        let first = rows[0].buttons@;
        assert forall|m: int| 0 <= m < first.len() implies button_text(#[trigger] first[m]) != key by {
            assert(button_text(rows[0].buttons@[m]) != key);
        }
        lemma_first_in_buttons_at(first, key, first.len() as int);
        let rest = rows.drop_first();
        assert forall|r: int, m: int|
            0 <= r < rest.len() && 0 <= m < rest[r].buttons@.len() implies button_text(
            #[trigger] rest[r].buttons@[m],
        ) != key by {
            assert(rest[r] == rows[r + 1]);
            assert(button_text(rows[r + 1].buttons@[m]) != key);
        }
        lemma_first_in_rows_none(rest, key);
    }
}

/// The button a key finds on a keyboard is the first one, row by row and
/// left to right, whose text is the key, in whichever row it stands; where
/// no button has that text, none is found.
pub proof fn lemma_button_search_covers_all_rows(
    rows: Seq<KeyboardButtonRow>,
    key: Seq<char>,
    i: int,
    j: int,
)
    ensures
        (0 <= i < rows.len() && 0 <= j < rows[i].buttons@.len() && button_text(rows[i].buttons@[j])
            == key && (forall|r: int, m: int|
            0 <= r < i && 0 <= m < rows[r].buttons@.len() ==> button_text(
                #[trigger] rows[r].buttons@[m],
            ) != key) && (forall|m: int|
            0 <= m < j ==> button_text(#[trigger] rows[i].buttons@[m]) != key)) ==> first_in_rows(
            rows,
            key,
        ) == Some(rows[i].buttons@[j]),
        (forall|r: int, m: int|
            0 <= r < rows.len() && 0 <= m < rows[r].buttons@.len() ==> button_text(
                #[trigger] rows[r].buttons@[m],
            ) != key) ==> first_in_rows(rows, key) is None,
{
    if 0 <= i < rows.len() && 0 <= j < rows[i].buttons@.len() && button_text(rows[i].buttons@[j])
        == key && (forall|r: int, m: int|
        0 <= r < i && 0 <= m < rows[r].buttons@.len() ==> button_text(
            #[trigger] rows[r].buttons@[m],
        ) != key) && (forall|m: int|
        0 <= m < j ==> button_text(#[trigger] rows[i].buttons@[m]) != key) {
        lemma_first_in_rows_at(rows, key, i, j);
    }
    if forall|r: int, m: int|
        0 <= r < rows.len() && 0 <= m < rows[r].buttons@.len() ==> button_text(
            #[trigger] rows[r].buttons@[m],
        ) != key {
        lemma_first_in_rows_none(rows, key);
    }
}

/// The tasks that a name selects are exactly the configured tasks with that
/// name, in their order, whatever their schedule, delay, chat or actions.
pub proof fn lemma_filter_selects_exactly_named(tasks: Seq<Task>, name: Seq<char>)
    ensures
        filtered_tasks(tasks, Some(name)) == tasks.filter(|t: Task| t.name@ == name),
    decreases tasks.len(),
{
    reveal(Seq::filter);
    if tasks.len() > 0 {
        lemma_filter_selects_exactly_named(tasks.drop_last(), name);
    }
}

} // verus!
