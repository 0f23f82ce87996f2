//! Turning answers to the task prompts into configuration.
use vstd::prelude::*;
use vstd::string::*;

use crate::config::{Action, AppConfig, ClickAction, DiceAction, LlmAction, Task, TextAction};
use crate::text::{parse_integer, parse_u32_checked, trim, trim_str, unsigned_error, IntErrorKind};

verus! {

/// The subcommands of `gen`.
#[derive(Debug, Clone, Copy, PartialEq, Eq, Structural)]
pub enum GenCommands {
    /// Prompt for task details and save them.
    Task,
}

/// An optional answer: trimmed, and `None` when nothing is left.
pub fn optional_input(value: String) -> (r: Option<String>)
    ensures
        match r {
            Some(s) => trim(value@).len() > 0 && s@ == trim(value@),
            None => trim(value@).len() == 0,
        },
{
    let t = trim_str(value.as_str());
    if t.unicode_len() == 0 {
        None
    } else {
        Some(String::from_str(t))
    }
}

/// The delay answer is not a whole number of seconds: the trimmed answer and
/// why it does not parse.
#[derive(Debug, Clone)]
pub struct InvalidDelay {
    pub input: String,
    pub kind: IntErrorKind,
}

/// The optional delay: blank gives none, else the trimmed answer parsed as a
/// `u32`.
pub fn parse_delay(value: String) -> (r: Result<Option<u32>, InvalidDelay>)
    ensures
        ({
            let t = trim(value@);
            if t.len() == 0 {
                r == Ok::<Option<u32>, InvalidDelay>(None)
            } else {
                match parse_integer(t, false, 0, u32::MAX as int) {
                    Some(x) => r matches Ok(Some(d)) && d as int == x,
                    None => r matches Err(e) && e.input@ == t && unsigned_error(t, u32::MAX as nat)
                        == Some(e.kind),
                }
            }
        }),
{
    match optional_input(value) {
        None => Ok(None),
        Some(t) => match parse_u32_checked(t.as_str()) {
            Ok(d) => Ok(Some(d)),
            Err(kind) => Err(InvalidDelay { input: t, kind }),
        },
    }
}

/// The kinds of action the prompt offers.
#[derive(Debug, Clone, Copy, PartialEq, Eq, Structural)]
pub enum ActionKind {
    Text,
    Dice,
    Click,
    Llm,
}

/// An action with the one body of kind `kind`, holding `value`.
pub fn new_action(kind: ActionKind, value: String) -> (a: Action)
    ensures
        crate::config::body_count(a) == 1,
        match kind {
            ActionKind::Text => a.text matches Some(t) && t.text == value,
            ActionKind::Dice => a.dice matches Some(d) && d.dice == value,
            ActionKind::Click => a.click matches Some(c) && c.key == value,
            ActionKind::Llm => a.llm matches Some(l) && l.prompt == value,
        },
{
    match kind {
        ActionKind::Text => Action { text: Some(TextAction { text: value }), dice: None, click: None, llm: None },
        ActionKind::Dice => Action { text: None, dice: Some(DiceAction { dice: value }), click: None, llm: None },
        ActionKind::Click => Action { text: None, dice: None, click: Some(ClickAction { key: value }), llm: None },
        ActionKind::Llm => Action { text: None, dice: None, click: None, llm: Some(LlmAction { prompt: value }) },
    }
}

/// The configuration to save: the tasks already saved (when they could be
/// read), then the new ones, in order.
pub fn merge_tasks(existing: Option<AppConfig>, tasks: Vec<Task>) -> (r: AppConfig)
    ensures
        r.task@ == match existing {
            Some(c) => c.task@ + tasks@,
            None => tasks@,
        },
{
    let mut all: Vec<Task> = match existing {
        Some(c) => c.task,
        None => Vec::new(),
    };
    let mut tasks = tasks;
    all.append(&mut tasks);
    AppConfig { task: all }
}

} // verus!
