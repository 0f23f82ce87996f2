//! The task configuration and its inline-table TOML form.
use vstd::prelude::*;
use vstd::string::*;

use crate::text::{debug_quoted, decimal, digit_char, push_decimal, quote_debug};

verus! {

/// All configured tasks.
#[derive(Debug, Clone)]
pub struct AppConfig {
    pub task: Vec<Task>,
}

/// One task: where it sends, when it runs, and the actions it performs in order.
#[derive(Debug, Clone)]
pub struct Task {
    pub name: String,
    pub chat_id: String,
    pub chat_name: Option<String>,
    pub cron: Option<String>,
    pub delay: Option<u32>,
    pub action: Vec<Action>,
}

/// One action; exactly one of its bodies is meant to be present.
#[derive(Debug, Clone)]
pub struct Action {
    pub text: Option<TextAction>,
    pub dice: Option<DiceAction>,
    pub click: Option<ClickAction>,
    pub llm: Option<LlmAction>,
}

/// Send a text message.
#[derive(Debug, Clone)]
pub struct TextAction {
    pub text: String,
}

/// Send a dice with the given emoji.
#[derive(Debug, Clone)]
pub struct DiceAction {
    pub dice: String,
}

/// Click the inline keyboard button whose text is `key`.
#[derive(Debug, Clone)]
pub struct ClickAction {
    pub key: String,
}

/// Let a language model choose the action from `prompt`.
#[derive(Debug, Clone)]
pub struct LlmAction {
    pub prompt: String,
}

impl Default for Action {
    fn default() -> (a: Action)
        ensures
            a.text is None,
            a.dice is None,
            a.click is None,
            a.llm is None,
    {
        Action { text: None, dice: None, click: None, llm: None }
    }
}

/// The text that `{:?}` writes for a struct named `struct_name` with one field
/// `field`, whose value `{:?}` writes as `value`.
pub open spec fn one_field_text(struct_name: Seq<char>, field: Seq<char>, value: Seq<char>) -> Seq<
    char,
> {
    struct_name + " { "@ + field + ": "@ + value + " }"@
}

/// The text that `{:?}` writes for a struct named `struct_name` with one
/// field `field`, given the text `value` that it writes for the field.
pub fn one_field_debug(struct_name: &str, field: &str, value: &str) -> (r: String)
    ensures
        r@ == one_field_text(struct_name@, field@, value@),
{
    String::from_str(struct_name).concat(" { ").concat(field).concat(": ").concat(value).concat(" }")
}

/// What an action shows: its first body, in the order text, dice, click,
/// llm, as `{:?}` writes it; nothing for an action without a body.
pub open spec fn action_display(a: Action) -> Option<Seq<char>> {
    match a.text {
        Some(t) => Some(one_field_text("TextAction"@, "text"@, debug_quoted(t.text@))),
        None => match a.dice {
            Some(d) => Some(one_field_text("DiceAction"@, "dice"@, debug_quoted(d.dice@))),
            None => match a.click {
                Some(c) => Some(one_field_text("ClickAction"@, "key"@, debug_quoted(c.key@))),
                None => match a.llm {
                    Some(l) => Some(one_field_text("LlmAction"@, "prompt"@, debug_quoted(l.prompt@))),
                    None => None,
                },
            },
        },
    }
}

impl Action {
    /// The text an action shows (see `action_display`); an action without a
    /// body has none.
    pub fn display_text(&self) -> (r: Result<String, ActionBodyError>)
        ensures
            match action_display(*self) {
                Some(t) => r matches Ok(s) && s@ == t,
                None => r matches Err(e) && e == ActionBodyError::Missing,
            },
    {
        match &self.text {
            Some(t) => Ok(one_field_debug("TextAction", "text", quote_debug(t.text.as_str()).as_str())),
            None => match &self.dice {
                Some(d) => Ok(one_field_debug("DiceAction", "dice", quote_debug(d.dice.as_str()).as_str())),
                None => match &self.click {
                    Some(c) => Ok(one_field_debug("ClickAction", "key", quote_debug(c.key.as_str()).as_str())),
                    None => match &self.llm {
                        Some(l) => Ok(one_field_debug(
                            "LlmAction",
                            "prompt",
                            quote_debug(l.prompt.as_str()).as_str(),
                        )),
                        None => Err(ActionBodyError::Missing),
                    },
                },
            },
        }
    }
}

/// Why an action cannot be used: it has no body, or more than one.
#[derive(Debug, Clone, Copy, PartialEq, Eq)]
pub enum ActionBodyError {
    Missing,
    Multiple,
}

/// The message that reports an `ActionBodyError`.
pub open spec fn action_error_text(e: ActionBodyError) -> Seq<char> {
    match e {
        ActionBodyError::Missing => "task action must contain one action body"@,
        ActionBodyError::Multiple => "task action must contain only one action body"@,
    }
}

impl ActionBodyError {
    /// The message that reports this error.
    pub fn message(&self) -> (r: String)
        ensures
            r@ == action_error_text(*self),
    {
        match self {
            ActionBodyError::Missing => String::from_str("task action must contain one action body"),
            ActionBodyError::Multiple => String::from_str(
                "task action must contain only one action body",
            ),
        }
    }
}

/// How many bodies an action carries.
pub open spec fn body_count(a: Action) -> nat {
    (if a.text is Some { 1nat } else { 0nat }) + (if a.dice is Some { 1nat } else { 0nat }) + (
    if a.click is Some { 1nat } else { 0nat }) + (if a.llm is Some { 1nat } else { 0nat })
}

/// The error an action with the wrong number of bodies gives.
pub open spec fn body_error(a: Action) -> Option<ActionBodyError> {
    if body_count(a) == 0 {
        Some(ActionBodyError::Missing)
    } else if body_count(a) > 1 {
        Some(ActionBodyError::Multiple)
    } else {
        None
    }
}

/// Hexadecimal digit, upper case.
pub open spec fn hex_digit(d: nat) -> char {
    if d < 10 {
        digit_char(d)
    } else {
        (55 + d) as char
    }
}

/// Four upper-case hexadecimal digits of `n` (as `{:04X}` writes `n < 0x10000`).
pub open spec fn hex4(n: nat) -> Seq<char> {
    seq![hex_digit(n / 4096 % 16), hex_digit(n / 256 % 16), hex_digit(n / 16 % 16), hex_digit(n % 16)]
}

/// The TOML basic-string escape of one character.
pub open spec fn escape_char(c: char) -> Seq<char> {
    if c == '\u{8}' {
        seq!['\\', 'b']
    } else if c == '\t' {
        seq!['\\', 't']
    } else if c == '\n' {
        seq!['\\', 'n']
    } else if c == '\u{c}' {
        seq!['\\', 'f']
    } else if c == '\r' {
        seq!['\\', 'r']
    } else if c == '"' {
        seq!['\\', '"']
    } else if c == '\\' {
        seq!['\\', '\\']
    } else if c <= '\u{1f}' || c == '\u{7f}' {
        seq!['\\', 'u'] + hex4(c as nat)
    } else {
        seq![c]
    }
}

/// Every character of `s` escaped.
pub open spec fn escape(s: Seq<char>) -> Seq<char>
    decreases s.len(),
{
    if s.len() == 0 {
        seq![]
    } else {
        escape(s.drop_last()) + escape_char(s.last())
    }
}

/// `s` as a TOML basic string: quoted and escaped.
pub open spec fn quoted(s: Seq<char>) -> Seq<char> {
    seq!['"'] + escape(s) + seq!['"']
}

fn hex_digit_of(d: u32) -> (c: char)
    requires
        d < 16,
    ensures
        c == hex_digit(d as nat),
{
    let b: u8 = if d < 10 { 48 + d as u8 } else { 55 + d as u8 };
    b as char
}

fn push_escaped(out: &mut String, c: char)
    ensures
        final(out)@ == old(out)@ + escape_char(c),
{
    let ghost start = out@;
    if c == '\u{8}' {
        out.push('\\');
        out.push('b');
    } else if c == '\t' {
        out.push('\\');
        out.push('t');
    } else if c == '\n' {
        out.push('\\');
        out.push('n');
    } else if c == '\u{c}' {
        out.push('\\');
        out.push('f');
    } else if c == '\r' {
        out.push('\\');
        out.push('r');
    } else if c == '"' {
        out.push('\\');
        out.push('"');
    } else if c == '\\' {
        out.push('\\');
        out.push('\\');
    } else if c <= '\u{1f}' || c == '\u{7f}' {
        let n = c as u32;
        out.push('\\');
        out.push('u');
        out.push(hex_digit_of(n / 4096 % 16));
        out.push(hex_digit_of(n / 256 % 16));
        out.push(hex_digit_of(n / 16 % 16));
        out.push(hex_digit_of(n % 16));
    } else {
        out.push(c);
    }
    assert(out@ =~= start + escape_char(c));
}

/// `value` as a quoted, escaped TOML basic string.
pub fn toml_string(value: &str) -> (r: String)
    ensures
        r@ == quoted(value@),
{
    let mut output = String::new();
    output.push('"');
    let ghost s = value@;
    for ch in it: value.chars()
        invariant
            it.seq() == s,
            output@ == seq!['"'] + escape(s.take(it.index() as int)),
    {
        let ghost k = it.index() as int;
        push_escaped(&mut output, ch);
        assert(s.take(k + 1).drop_last() == s.take(k));
    }
    assert(s.take(s.len() as int) == s);
    output.push('"');
    output
}

/// The line `key = "value"`.
pub open spec fn string_field(key: Seq<char>, value: Seq<char>) -> Seq<char> {
    key + " = "@ + quoted(value) + "\n"@
}

/// Appends the line `key = "value"`.
pub fn push_string_field(output: &mut String, key: &str, value: &str)
    ensures
        final(output)@ == old(output)@ + string_field(key@, value@),
{
    let ghost start = output@;
    output.append(key);
    output.append(" = ");
    let quoted_value = toml_string(value);
    output.append(quoted_value.as_str());
    output.append("\n");
    assert(output@ =~= start + string_field(key@, value@));
}

/// The inline table of every body present in `a`, in the order text, dice,
/// click, llm.
pub open spec fn action_bodies(a: Action) -> Seq<char> {
    (match a.text {
        Some(t) => "{ text = { text = "@ + quoted(t.text@) + " } }"@,
        None => seq![],
    }) + (match a.dice {
        Some(d) => "{ dice = { dice = "@ + quoted(d.dice@) + " } }"@,
        None => seq![],
    }) + (match a.click {
        Some(c) => "{ click = { key = "@ + quoted(c.key@) + " } }"@,
        None => seq![],
    }) + (match a.llm {
        Some(l) => "{ llm = { prompt = "@ + quoted(l.prompt@) + " } }"@,
        None => seq![],
    })
}

/// The inline table of an action, or why it has none.
pub open spec fn action_toml(a: Action) -> Result<Seq<char>, ActionBodyError> {
    match body_error(a) {
        Some(e) => Err(e),
        None => Ok(action_bodies(a)),
    }
}

fn push_body(output: &mut String, head: &str, value: &str)
    ensures
        final(output)@ == old(output)@ + (head@ + quoted(value@) + " } }"@),
{
    let ghost start = output@;
    output.append(head);
    let q = toml_string(value);
    output.append(q.as_str());
    output.append(" } }");
    assert(output@ =~= start + (head@ + quoted(value@) + " } }"@));
}

/// Appends the inline table of each body present in `action`; succeeds when
/// there is exactly one.
pub fn push_inline_action(output: &mut String, action: &Action) -> (r: Result<(), ActionBodyError>)
    ensures
        final(output)@ == old(output)@ + action_bodies(*action),
        match r {
            Ok(()) => body_error(*action) is None,
            Err(e) => body_error(*action) == Some(e),
        },
{
    let ghost start = output@;
    let mut action_count: u32 = 0;
    if let Some(text) = action.text.as_ref() {
        action_count += 1;
        push_body(output, "{ text = { text = ", text.text.as_str());
    }
    let ghost s1 = output@;
    if let Some(dice) = action.dice.as_ref() {
        action_count += 1;
        push_body(output, "{ dice = { dice = ", dice.dice.as_str());
    }
    let ghost s2 = output@;
    if let Some(click) = action.click.as_ref() {
        action_count += 1;
        push_body(output, "{ click = { key = ", click.key.as_str());
    }
    let ghost s3 = output@;
    if let Some(llm) = action.llm.as_ref() {
        action_count += 1;
        push_body(output, "{ llm = { prompt = ", llm.prompt.as_str());
    }
    proof {
        let a = *action;
        let p1 = match a.text {
            Some(t) => "{ text = { text = "@ + quoted(t.text@) + " } }"@,
            None => seq![],
        };
        let p2 = match a.dice {
            Some(d) => "{ dice = { dice = "@ + quoted(d.dice@) + " } }"@,
            None => seq![],
        };
        let p3 = match a.click {
            Some(c) => "{ click = { key = "@ + quoted(c.key@) + " } }"@,
            None => seq![],
        };
        let p4 = match a.llm {
            Some(l) => "{ llm = { prompt = "@ + quoted(l.prompt@) + " } }"@,
            None => seq![],
        };
        assert(s1 =~= start + p1);
        assert(s2 =~= start + p1 + p2);
        assert(s3 =~= start + p1 + p2 + p3);
        assert(output@ =~= start + p1 + p2 + p3 + p4);
        assert(action_bodies(a) == p1 + p2 + p3 + p4);
        assert(output@ =~= start + action_bodies(a));
    }
    if action_count == 1 {
        Ok(())
    } else if action_count == 0 {
        Err(ActionBodyError::Missing)
    } else {
        Err(ActionBodyError::Multiple)
    }
}

/// The lines of a task before its actions.
pub open spec fn task_header(t: Task) -> Seq<char> {
    "[[task]]\n"@ + string_field("name"@, t.name@) + string_field("chat_id"@, t.chat_id@) + (
    match t.chat_name {
        Some(n) => string_field("chat_name"@, n@),
        None => seq![],
    }) + (match t.cron {
        Some(c) => string_field("cron"@, c@),
        None => seq![],
    }) + (match t.delay {
        Some(d) => "delay = "@ + decimal(d as nat) + "\n"@,
        None => seq![],
    }) + "action = [\n"@
}

/// The entries of an action list, one per line, or the first action's error.
pub open spec fn actions_toml(actions: Seq<Action>) -> Result<Seq<char>, ActionBodyError>
    decreases actions.len(),
{
    if actions.len() == 0 {
        Ok(seq![])
    } else {
        match actions_toml(actions.drop_last()) {
            Err(e) => Err(e),
            Ok(prefix) => match action_toml(actions.last()) {
                Err(e) => Err(e),
                Ok(body) => Ok(prefix + "  "@ + body + ",\n"@),
            },
        }
    }
}

/// The `[[task]]` block of a task, or the first error among its actions.
pub open spec fn task_toml(t: Task) -> Result<Seq<char>, ActionBodyError> {
    match actions_toml(t.action@) {
        Err(e) => Err(e),
        Ok(body) => Ok(task_header(t) + body + "]\n\n"@),
    }
}

/// The blocks of a task list, or the first error among their actions.
pub open spec fn tasks_toml(tasks: Seq<Task>) -> Result<Seq<char>, ActionBodyError>
    decreases tasks.len(),
{
    if tasks.len() == 0 {
        Ok(seq![])
    } else {
        match tasks_toml(tasks.drop_last()) {
            Err(e) => Err(e),
            Ok(prefix) => match task_toml(tasks.last()) {
                Err(e) => Err(e),
                Ok(block) => Ok(prefix + block),
            },
        }
    }
}

/// The inline-table TOML form of a configuration, or the first action error.
pub open spec fn config_toml(config: AppConfig) -> Result<Seq<char>, ActionBodyError> {
    tasks_toml(config.task@)
}

fn push_optional_field(output: &mut String, key: &str, value: &Option<String>)
    ensures
        final(output)@ == old(output)@ + match value {
            Some(v) => string_field(key@, v@),
            None => seq![],
        },
{
    let ghost start = output@;
    if let Some(v) = value.as_ref() {
        push_string_field(output, key, v.as_str());
    } else {
        assert(output@ =~= start + Seq::<char>::empty());
    }
}

fn push_delay(output: &mut String, delay: Option<u32>)
    ensures
        final(output)@ == old(output)@ + match delay {
            Some(d) => "delay = "@ + decimal(d as nat) + "\n"@,
            None => seq![],
        },
{
    let ghost start = output@;
    if let Some(d) = delay {
        output.append("delay = ");
        push_decimal(output, d as u64);
        output.append("\n");
        assert(output@ =~= start + ("delay = "@ + decimal(d as nat) + "\n"@));
    } else {
        assert(output@ =~= start + Seq::<char>::empty());
    }
}

fn push_task_header(output: &mut String, task: &Task)
    ensures
        final(output)@ == old(output)@ + task_header(*task),
{
    let ghost start = output@;
    output.append("[[task]]\n");
    push_string_field(output, "name", task.name.as_str());
    push_string_field(output, "chat_id", task.chat_id.as_str());
    push_optional_field(output, "chat_name", &task.chat_name);
    push_optional_field(output, "cron", &task.cron);
    push_delay(output, task.delay);
    output.append("action = [\n");
    assert(output@ =~= start + task_header(*task));
}

/// Appends the `[[task]]` block of `task`.
fn push_task(output: &mut String, task: &Task) -> (r: Result<(), ActionBodyError>)
    ensures
        match task_toml(*task) {
            Ok(block) => r is Ok && final(output)@ == old(output)@ + block,
            Err(e) => r == Err::<(), ActionBodyError>(e),
        },
{
    let ghost start = output@;
    push_task_header(output, task);
    let ghost acts = task.action@;
    for j in 0..task.action.len()
        invariant
            acts == task.action@,
            actions_toml(acts.take(j as int)) is Ok,
            output@ == start + task_header(*task) + actions_toml(acts.take(j as int))->Ok_0,
    {
        output.append("  ");
        let r = push_inline_action(output, &task.action[j]);
        assert(acts.take(j + 1).drop_last() == acts.take(j as int));
        assert(acts.take(j + 1).last() == acts[j as int]);
        match r {
            Ok(()) => {},
            Err(e) => {
                proof {
                    lemma_actions_error_extends(acts, j as int + 1);
                }
                return Err(e);
            },
        }
        output.append(",\n");
        assert(output@ =~= start + task_header(*task) + actions_toml(acts.take(j + 1))->Ok_0);
    }
    assert(acts.take(acts.len() as int) == acts);
    output.append("]\n\n");
    assert(output@ =~= start + task_toml(*task)->Ok_0);
    Ok(())
}

proof fn lemma_actions_error_extends(acts: Seq<Action>, k: int)
    requires
        0 <= k <= acts.len(),
        actions_toml(acts.take(k)) is Err,
    ensures
        actions_toml(acts) == actions_toml(acts.take(k)),
    decreases acts.len() - k,
{
    if k < acts.len() {
        assert(acts.take(k + 1).drop_last() == acts.take(k));
        lemma_actions_error_extends(acts, k + 1);
    } else {
        assert(acts.take(k) == acts);
    }
}

proof fn lemma_tasks_error_extends(tasks: Seq<Task>, k: int)
    requires
        0 <= k <= tasks.len(),
        tasks_toml(tasks.take(k)) is Err,
    ensures
        tasks_toml(tasks) == tasks_toml(tasks.take(k)),
    decreases tasks.len() - k,
{
    if k < tasks.len() {
        assert(tasks.take(k + 1).drop_last() == tasks.take(k));
        lemma_tasks_error_extends(tasks, k + 1);
    } else {
        assert(tasks.take(k) == tasks);
    }
}

/// The configuration as TOML in which every action is an inline table, or the
/// message of the first action that has no body or more than one.
pub fn to_inline_toml(config: &AppConfig) -> (r: Result<String, String>)
    ensures
        match config_toml(*config) {
            Ok(text) => r is Ok && r->Ok_0@ == text,
            Err(e) => r is Err && r->Err_0@ == action_error_text(e),
        },
{
    let mut output = String::new();
    let ghost tasks = config.task@;
    for i in 0..config.task.len()
        invariant
            tasks == config.task@,
            tasks_toml(tasks.take(i as int)) is Ok,
            output@ == tasks_toml(tasks.take(i as int))->Ok_0,
    {
        let r = push_task(&mut output, &config.task[i]);
        assert(tasks.take(i + 1).drop_last() == tasks.take(i as int));
        assert(tasks.take(i + 1).last() == tasks[i as int]);
        match r {
            Ok(()) => {},
            Err(e) => {
                proof {
                    lemma_tasks_error_extends(tasks, i as int + 1);
                }
                return Err(e.message());
            },
        }
    }
    assert(tasks.take(tasks.len() as int) == tasks);
    Ok(output)
}

/// Whether every action of a list has exactly one body.
pub open spec fn all_single_bodied(actions: Seq<Action>) -> bool {
    forall|j: int| 0 <= j < actions.len() ==> body_count(#[trigger] actions[j]) == 1
}

proof fn lemma_actions_toml_ok(actions: Seq<Action>)
    ensures
        actions_toml(actions) is Ok <==> all_single_bodied(actions),
    decreases actions.len(),
{
    if actions.len() > 0 {
        let d = actions.drop_last();
        lemma_actions_toml_ok(d);
        assert forall|j: int| 0 <= j < d.len() implies d[j] == actions[j] by {}
        if all_single_bodied(actions) {
            assert forall|j: int| 0 <= j < d.len() implies body_count(#[trigger] d[j]) == 1 by {
                assert(d[j] == actions[j]);
            }
            assert(body_count(actions[actions.len() - 1]) == 1);
        }
        if actions_toml(actions) is Ok {
            assert forall|j: int| 0 <= j < actions.len() implies body_count(#[trigger] actions[j])
                == 1 by {
                if j < actions.len() - 1 {
                    assert(d[j] == actions[j]);
                }
            }
        }
    }
}

/// A configuration can be written exactly when every action of every task
/// has exactly one body.
pub proof fn lemma_config_writable_iff_single_bodies(config: AppConfig)
    ensures
        config_toml(config) is Ok <==> forall|i: int|
            0 <= i < config.task@.len() ==> all_single_bodied(#[trigger] config.task@[i].action@),
{
    lemma_tasks_toml_ok(config.task@);
}

proof fn lemma_tasks_toml_ok(tasks: Seq<Task>)
    ensures
        tasks_toml(tasks) is Ok <==> forall|i: int|
            0 <= i < tasks.len() ==> all_single_bodied(#[trigger] tasks[i].action@),
    decreases tasks.len(),
{
    if tasks.len() > 0 {
        let d = tasks.drop_last();
        lemma_tasks_toml_ok(d);
        lemma_actions_toml_ok(tasks.last().action@);
        if forall|i: int| 0 <= i < tasks.len() ==> all_single_bodied(#[trigger] tasks[i].action@) {
            assert forall|i: int| 0 <= i < d.len() implies all_single_bodied(
                #[trigger] d[i].action@,
            ) by {
                assert(d[i] == tasks[i]);
            }
            assert(all_single_bodied(tasks[tasks.len() - 1].action@));
        }
        if tasks_toml(tasks) is Ok {
            assert forall|i: int| 0 <= i < tasks.len() implies all_single_bodied(
                #[trigger] tasks[i].action@,
            ) by {
                if i < tasks.len() - 1 {
                    assert(d[i] == tasks[i]);
                }
            }
        }
    }
}

/// The value of an upper-case hexadecimal digit.
pub open spec fn hex_value(c: char) -> int {
    if '0' <= c <= '9' {
        c as int - 48
    } else {
        c as int - 55
    }
}

/// The character a TOML basic-string escape `\x` stands for.
pub open spec fn unescape_simple(x: char) -> char {
    if x == 'b' {
        '\u{8}'
    } else if x == 't' {
        '\t'
    } else if x == 'n' {
        '\n'
    } else if x == 'f' {
        '\u{c}'
    } else if x == 'r' {
        '\r'
    } else {
        x
    }
}

/// How a TOML reader decodes the body of a basic string: `\uXXXX` gives
/// the character with that code, `\x` the character `unescape_simple(x)`,
/// and any other character itself.
pub open spec fn unescape(s: Seq<char>) -> Seq<char>
    decreases s.len(),
{
    if s.len() == 0 {
        seq![]
    } else if s[0] == '\\' && s.len() >= 2 {
        if s[1] == 'u' && s.len() >= 6 {
            seq![
                (hex_value(s[2]) * 4096 + hex_value(s[3]) * 256 + hex_value(s[4]) * 16
                    + hex_value(s[5])) as char,
            ] + unescape(s.skip(6))
        } else {
            seq![unescape_simple(s[1])] + unescape(s.skip(2))
        }
    } else {
        seq![s[0]] + unescape(s.drop_first())
    }
}

proof fn lemma_unescape_char(c: char, t: Seq<char>)
    ensures
        unescape(escape_char(c) + t) == seq![c] + unescape(t),
{
    let e = escape_char(c);
    let s = e + t;
    if c == '\u{8}' || c == '\t' || c == '\n' || c == '\u{c}' || c == '\r' || c == '"' || c
        == '\\' {
        assert(s[0] == '\\' && s[1] == e[1]);
        assert(s.skip(2) =~= t);
    } else if c <= '\u{1f}' || c == '\u{7f}' {
        let n = c as nat;
        assert(s[0] == '\\' && s[1] == 'u');
        assert(s[2] == hex_digit(n / 4096 % 16));
        assert(s[3] == hex_digit(n / 256 % 16));
        assert(s[4] == hex_digit(n / 16 % 16));
        assert(s[5] == hex_digit(n % 16));
        assert(n / 4096 % 16 == 0);
        assert(n / 256 % 16 == 0);
        assert(hex_value(s[2]) == 0);
        assert(hex_value(s[3]) == 0);
        assert(hex_value(s[4]) == n / 16 % 16);
        assert(hex_value(s[5]) == n % 16);
        assert(n / 16 % 16 * 16 + n % 16 == n);
        assert(s.skip(6) =~= t);
    } else {
        assert(s[0] == c);
        assert(s.drop_first() =~= t);
    }
}

proof fn lemma_unescape_escape_prefix(s: Seq<char>, t: Seq<char>)
    ensures
        unescape(escape(s) + t) == s + unescape(t),
    decreases s.len(),
{
    if s.len() == 0 {
        assert(escape(s) + t =~= t);
        assert(s + unescape(t) =~= unescape(t));
    } else {
        let d = s.drop_last();
        let c = s.last();
        assert(escape(s) + t =~= escape(d) + (escape_char(c) + t));
        lemma_unescape_escape_prefix(d, escape_char(c) + t);
        lemma_unescape_char(c, t);
        assert(d + (seq![c] + unescape(t)) =~= s + unescape(t));
    }
}

/// Decoding what `escape` wrote gives back the text it was given, so every
/// string written into the configuration reads back unchanged.
pub proof fn lemma_escape_reads_back(s: Seq<char>)
    ensures
        unescape(escape(s)) == s,
{
    lemma_unescape_escape_prefix(s, seq![]);
    assert(escape(s) + Seq::<char>::empty() =~= escape(s));
    assert(s + unescape(Seq::<char>::empty()) =~= s);
}

/// Whether action `j` is the first of `actions` without exactly one body,
/// and has error `e`.
pub open spec fn first_bad_action(actions: Seq<Action>, j: int, e: ActionBodyError) -> bool {
    &&& 0 <= j < actions.len()
    &&& body_error(actions[j]) == Some(e)
    &&& forall|l: int| 0 <= l < j ==> body_error(#[trigger] actions[l]) is None
}

proof fn lemma_body_error_single(a: Action)
    ensures
        body_error(a) is None <==> body_count(a) == 1,
{
}

proof fn lemma_actions_first_error(actions: Seq<Action>, e: ActionBodyError)
    ensures
        actions_toml(actions) == Err::<Seq<char>, ActionBodyError>(e) <==> exists|j: int|
            first_bad_action(actions, j, e),
    decreases actions.len(),
{
    if actions.len() > 0 {
        let d = actions.drop_last();
        let n = actions.len() - 1;
        lemma_actions_first_error(d, e);
        lemma_actions_toml_ok(d);
        if actions_toml(actions) == Err::<Seq<char>, ActionBodyError>(e) {
            if actions_toml(d) is Err {
                let j = choose|j: int| first_bad_action(d, j, e);
                assert forall|l: int| 0 <= l < j implies body_error(#[trigger] actions[l]) is None by {
                    assert(actions[l] == d[l]);
                }
                assert(actions[j] == d[j]);
                assert(first_bad_action(actions, j, e));
            } else {
                assert forall|l: int| 0 <= l < n implies body_error(#[trigger] actions[l]) is None by {
                    assert(actions[l] == d[l]);
                    lemma_body_error_single(d[l]);
                }
                assert(first_bad_action(actions, n, e));
            }
        }
        if exists|j: int| first_bad_action(actions, j, e) {
            let j = choose|j: int| first_bad_action(actions, j, e);
            if j < n {
                assert forall|l: int| 0 <= l < j implies body_error(#[trigger] d[l]) is None by {
                    assert(actions[l] == d[l]);
                }
                assert(d[j] == actions[j]);
                assert(first_bad_action(d, j, e));
            } else {
                assert forall|l: int| 0 <= l < d.len() implies body_count(#[trigger] d[l]) == 1 by {
                    assert(actions[l] == d[l]);
                    lemma_body_error_single(d[l]);
                }
                assert(actions.last() == actions[n]);
            }
        }
    }
}

/// Writing a configuration fails exactly on its first action, in task order
/// and then action order, that does not have exactly one body, and with that
/// action's error: "task action must contain one action body" when it has
/// none, "task action must contain only one action body" when it has several.
pub proof fn lemma_first_bad_action_decides(config: AppConfig, e: ActionBodyError)
    ensures
        config_toml(config) == Err::<Seq<char>, ActionBodyError>(e) <==> exists|i: int, j: int|
            0 <= i < config.task@.len() && first_bad_action(config.task@[i].action@, j, e) && (
            forall|k: int|
                0 <= k < i ==> all_single_bodied(#[trigger] config.task@[k].action@)),
{
    lemma_tasks_first_error(config.task@, e);
}

proof fn lemma_tasks_first_error(tasks: Seq<Task>, e: ActionBodyError)
    ensures
        tasks_toml(tasks) == Err::<Seq<char>, ActionBodyError>(e) <==> exists|i: int, j: int|
            0 <= i < tasks.len() && first_bad_action(tasks[i].action@, j, e) && (forall|k: int|
                0 <= k < i ==> all_single_bodied(#[trigger] tasks[k].action@)),
    decreases tasks.len(),
{
    if tasks.len() > 0 {
        let d = tasks.drop_last();
        let n = tasks.len() - 1;
        lemma_tasks_first_error(d, e);
        lemma_tasks_toml_ok(d);
        lemma_actions_first_error(tasks[n].action@, e);
        lemma_actions_toml_ok(tasks[n].action@);
        assert(tasks.last() == tasks[n]);
        if tasks_toml(tasks) == Err::<Seq<char>, ActionBodyError>(e) {
            if tasks_toml(d) is Err {
                let (i, j) = choose|i: int, j: int|
                    0 <= i < d.len() && first_bad_action(d[i].action@, j, e) && (forall|k: int|
                        0 <= k < i ==> all_single_bodied(#[trigger] d[k].action@));
                assert forall|k: int| 0 <= k < i implies all_single_bodied(
                    #[trigger] tasks[k].action@,
                ) by {
                    assert(tasks[k] == d[k]);
                }
                assert(tasks[i] == d[i]);
            } else {
                let j = choose|j: int| first_bad_action(tasks[n].action@, j, e);
                assert forall|k: int| 0 <= k < n implies all_single_bodied(
                    #[trigger] tasks[k].action@,
                ) by {
                    assert(tasks[k] == d[k]);
                }
                assert(first_bad_action(tasks[n].action@, j, e));
            }
        }
        if exists|i: int, j: int|
            0 <= i < tasks.len() && first_bad_action(tasks[i].action@, j, e) && (forall|k: int|
                0 <= k < i ==> all_single_bodied(#[trigger] tasks[k].action@)) {
            let (i, j) = choose|i: int, j: int|
                0 <= i < tasks.len() && first_bad_action(tasks[i].action@, j, e) && (forall|k: int|
                    0 <= k < i ==> all_single_bodied(#[trigger] tasks[k].action@));
            if i < n {
                assert forall|k: int| 0 <= k < i implies all_single_bodied(
                    #[trigger] d[k].action@,
                ) by {
                    assert(tasks[k] == d[k]);
                }
                assert(d[i] == tasks[i]);
                assert(0 <= i < d.len() && first_bad_action(d[i].action@, j, e) && (forall|k: int|
                    0 <= k < i ==> all_single_bodied(#[trigger] d[k].action@)));
            } else {
                assert forall|k: int| 0 <= k < d.len() implies all_single_bodied(
                    #[trigger] d[k].action@,
                ) by {
                    assert(tasks[k] == d[k]);
                }
            }
        }
    }
}

proof fn lemma_insert_after_prefix(pre: Seq<char>, w: Seq<char>, p: int, line: Seq<char>)
    requires
        0 <= p <= w.len(),
    ensures
        pre + (w.take(p) + line + w.skip(p)) == (pre + w).take(pre.len() + p) + line + (pre
            + w).skip(pre.len() + p),
{
    assert(pre + (w.take(p) + line + w.skip(p)) =~= (pre + w).take(pre.len() + p) + line + (pre
        + w).skip(pre.len() + p));
}

proof fn lemma_insert_before_suffix(w: Seq<char>, p: int, line: Seq<char>, post: Seq<char>)
    requires
        0 <= p <= w.len(),
    ensures
        (w.take(p) + line + w.skip(p)) + post == (w + post).take(p) + line + (w + post).skip(p),
{
    assert((w.take(p) + line + w.skip(p)) + post =~= (w + post).take(p) + line + (w + post).skip(
        p,
    ));
}

/// The part of a task's header before its `cron` line.
spec fn header_before_cron(t: Task) -> Seq<char> {
    "[[task]]\n"@ + string_field("name"@, t.name@) + string_field("chat_id"@, t.chat_id@) + match t.chat_name {
        Some(m) => string_field("chat_name"@, m@),
        None => seq![],
    }
}

proof fn lemma_task_cron_line(t: Task, u: Task, c: String) -> (p: int)
    requires
        t.cron is None,
        u.cron == Some(c),
        u.name == t.name,
        u.chat_id == t.chat_id,
        u.chat_name == t.chat_name,
        u.delay == t.delay,
        u.action == t.action,
    ensures
        task_toml(u) is Ok <==> task_toml(t) is Ok,
        task_toml(t) matches Ok(w) ==> (0 <= p <= w.len() && task_toml(u) == Ok::<
            Seq<char>,
            ActionBodyError,
        >(w.take(p) + string_field("cron"@, c@) + w.skip(p))),
{
    let line = string_field("cron"@, c@);
    let a = header_before_cron(t);
    let b = (match t.delay {
        Some(d) => "delay = "@ + decimal(d as nat) + "\n"@,
        None => seq![],
    }) + "action = [\n"@;
    assert(task_header(t) =~= a + b);
    assert(task_header(u) =~= a + line + b);
    assert((a + b).take(a.len() as int) =~= a);
    assert((a + b).skip(a.len() as int) =~= b);
    if let Ok(body) = actions_toml(t.action@) {
        let tail = body + "]\n\n"@;
        lemma_insert_before_suffix(a + b, a.len() as int, line, tail);
        assert(task_header(t) + body + "]\n\n"@ =~= (a + b) + tail);
        assert(task_header(u) + body + "]\n\n"@ =~= (a + line + b) + tail);
        assert(task_toml(t) == Ok::<Seq<char>, ActionBodyError>((a + b) + tail));
        assert(task_toml(u) == Ok::<Seq<char>, ActionBodyError>((a + line + b) + tail));
        assert((a + b).take(a.len() as int) + line + (a + b).skip(a.len() as int) == a + line + b);
    }
    a.len() as int
}

proof fn lemma_tasks_cron_line(plain: Seq<Task>, scheduled: Seq<Task>, k: int, c: String) -> (p: int)
    requires
        0 <= k < plain.len(),
        scheduled.len() == plain.len(),
        forall|i: int| 0 <= i < plain.len() && i != k ==> scheduled[i] == plain[i],
        plain[k].cron is None,
        scheduled[k].cron == Some(c),
        scheduled[k].name == plain[k].name,
        scheduled[k].chat_id == plain[k].chat_id,
        scheduled[k].chat_name == plain[k].chat_name,
        scheduled[k].delay == plain[k].delay,
        scheduled[k].action == plain[k].action,
    ensures
        tasks_toml(scheduled) is Ok <==> tasks_toml(plain) is Ok,
        tasks_toml(plain) matches Ok(w) ==> (0 <= p <= w.len() && tasks_toml(scheduled) == Ok::<
            Seq<char>,
            ActionBodyError,
        >(w.take(p) + string_field("cron"@, c@) + w.skip(p))),
    decreases plain.len(),
{
    let n = plain.len() - 1;
    let line = string_field("cron"@, c@);
    if k == n {
        assert(plain.drop_last() =~= scheduled.drop_last());
        let q = lemma_task_cron_line(plain.last(), scheduled.last(), c);
        match (tasks_toml(plain.drop_last()), task_toml(plain.last())) {
            (Ok(pre), Ok(block)) => {
                lemma_insert_after_prefix(pre, block, q, line);
                (pre.len() + q) as int
            },
            _ => 0,
        }
    } else {
        let q = lemma_tasks_cron_line(plain.drop_last(), scheduled.drop_last(), k, c);
        assert(scheduled.last() == plain.last());
        match (tasks_toml(plain.drop_last()), task_toml(plain.last())) {
            (Ok(pre), Ok(block)) => {
                lemma_insert_before_suffix(pre, q, line, block);
            },
            _ => {},
        }
        q
    }
}

/// Giving one task a cron schedule adds exactly the line `cron = "<schedule>"`
/// to the written configuration and leaves every other character as it was,
/// whatever the task's name, chat, delay and actions; whether the
/// configuration can be written at all does not change.
pub proof fn lemma_cron_line_is_written(plain: AppConfig, scheduled: AppConfig, k: int, c: String)
    requires
        0 <= k < plain.task@.len(),
        scheduled.task@.len() == plain.task@.len(),
        forall|i: int|
            0 <= i < plain.task@.len() && i != k ==> scheduled.task@[i] == plain.task@[i],
        plain.task@[k].cron is None,
        scheduled.task@[k].cron == Some(c),
        scheduled.task@[k].name == plain.task@[k].name,
        scheduled.task@[k].chat_id == plain.task@[k].chat_id,
        scheduled.task@[k].chat_name == plain.task@[k].chat_name,
        scheduled.task@[k].delay == plain.task@[k].delay,
        scheduled.task@[k].action == plain.task@[k].action,
    ensures
        config_toml(scheduled) is Ok <==> config_toml(plain) is Ok,
        config_toml(plain) matches Ok(w) ==> exists|p: int|
            0 <= p <= w.len() && config_toml(scheduled) == Ok::<Seq<char>, ActionBodyError>(
                #[trigger] w.take(p) + string_field("cron"@, c@) + w.skip(p),
            ),
{
    let p = lemma_tasks_cron_line(plain.task@, scheduled.task@, k, c);
    if config_toml(plain) is Ok {
        let w = config_toml(plain)->Ok_0;
        assert(0 <= p <= w.len() && config_toml(scheduled) == Ok::<Seq<char>, ActionBodyError>(
            w.take(p) + string_field("cron"@, c@) + w.skip(p),
        ));
    }
}

} // verus!
