//! Reading the action that a language model chose out of its reply.
use vstd::prelude::*;
use vstd::string::*;

use crate::text::{chars_of, from_chars, parse_integer, str_equal, parse_usize};

verus! {

/// A JSON value, with numbers kept as their text.
pub enum JsonValue {
    Null,
    Bool(bool),
    Number(String),
    Str(String),
    Array(Vec<JsonValue>),
    /// Members in order; a lookup (`member`) takes the first one with the
    /// name.
    Object(Vec<(String, JsonValue)>),
}

#[verifier::external_type_specification]
#[verifier::external_body]
pub struct ExJsonTree(serde_json::Value);

#[verifier::external_type_specification]
#[verifier::external_body]
pub struct ExJsonError(serde_json::Error);

/// The value that `serde_json` reads from `text`, or `None` where it refuses
/// the text.
pub uninterp spec fn json_text_value(text: Seq<char>) -> Option<JsonValue>;

/// `serde_json::from_str::<serde_json::Value>`, with the value it reads given
/// as a `JsonValue` (a number as the text `serde_json` writes for it). The
/// outcome depends on `text` alone and is named `json_text_value`; the text of
/// the error is not stated.
#[verifier::external_body]
fn parse_json(text: &str) -> (r: Result<JsonValue, serde_json::Error>)
    ensures
        match r {
            Ok(v) => json_text_value(text@) == Some(v),
            Err(_) => json_text_value(text@) is None,
        },
{
    match serde_json::from_str::<serde_json::Value>(text) {
        Ok(value) => Ok(json_of(&value)),
        Err(e) => Err(e),
    }
}

/// The conversion that `parse_json` applies to what `serde_json` read: each
/// variant of `serde_json::Value` to the variant of the same name, members
/// in the order the map walks them. Nothing is stated of it on its own.
#[verifier::external_body]
fn json_of(value: &serde_json::Value) -> JsonValue {
    match value {
        serde_json::Value::Null => JsonValue::Null,
        serde_json::Value::Bool(b) => JsonValue::Bool(*b),
        serde_json::Value::Number(n) => JsonValue::Number(n.to_string()),
        serde_json::Value::String(t) => JsonValue::Str(t.clone()),
        serde_json::Value::Array(items) => JsonValue::Array(items.iter().map(json_of).collect()),
        serde_json::Value::Object(members) => JsonValue::Object(
            members.iter().map(|(k, v)| (k.clone(), json_of(v))).collect(),
        ),
    }
}

/// The value of the first member named `key`.
pub open spec fn member(entries: Seq<(String, JsonValue)>, key: Seq<char>) -> Option<JsonValue>
    decreases entries.len(),
{
    if entries.len() == 0 {
        None
    } else if entries[0].0@ == key {
        Some(entries[0].1)
    } else {
        member(entries.drop_first(), key)
    }
}

/// `value.get(key)`: the member `key` of an object; other values have none.
pub open spec fn json_get(v: JsonValue, key: Seq<char>) -> Option<JsonValue> {
    match v {
        JsonValue::Object(entries) => member(entries@, key),
        _ => None,
    }
}

/// The array index that a pointer token denotes: decimal digits with no sign
/// and no leading zero.
pub open spec fn token_index(token: Seq<char>) -> Option<int> {
    if token.len() > 0 && (token[0] == '+' || (token[0] == '0' && token.len() != 1)) {
        None
    } else {
        parse_integer(token, false, 0, usize::MAX as int)
    }
}

/// One step of a JSON pointer: an object's member named by the token, or an
/// array's element at the index the token denotes.
pub open spec fn json_step(v: JsonValue, token: Seq<char>) -> Option<JsonValue> {
    match v {
        JsonValue::Object(entries) => member(entries@, token),
        JsonValue::Array(items) => match token_index(token) {
            Some(i) => if i < items@.len() {
                Some(items@[i])
            } else {
                None
            },
            None => None,
        },
        _ => None,
    }
}

/// The string a value holds, if it is a string.
pub open spec fn json_str(v: Option<JsonValue>) -> Option<Seq<char>> {
    match v {
        Some(JsonValue::Str(s)) => Some(s@),
        _ => None,
    }
}

/// Follows `token` from `v`, when both are there.
pub open spec fn step_from(v: Option<JsonValue>, token: Seq<char>) -> Option<JsonValue> {
    match v {
        Some(w) => json_step(w, token),
        None => None,
    }
}

/// The arguments of the first tool call of the first choice:
/// `/choices/0/message/tool_calls/0/function/arguments`, when it is a string.
pub open spec fn tool_arguments(payload: JsonValue) -> Option<Seq<char>> {
    let choice = step_from(step_from(Some(payload), "choices"@), "0"@);
    let call = step_from(step_from(step_from(choice, "message"@), "tool_calls"@), "0"@);
    json_str(step_from(step_from(call, "function"@), "arguments"@))
}

fn member_of<'a>(entries: &'a Vec<(String, JsonValue)>, key: &str) -> (r: Option<&'a JsonValue>)
    ensures
        match r {
            Some(w) => member(entries@, key@) == Some(*w),
            None => member(entries@, key@) is None,
        },
{
    assert(entries@.skip(0) == entries@);
    for i in 0..entries.len()
        invariant
            member(entries@, key@) == member(entries@.skip(i as int), key@),
    {
        assert(entries@.skip(i as int).drop_first() == entries@.skip(i + 1));
        assert(entries@.skip(i as int)[0] == entries@[i as int]);
        if str_equal(entries[i].0.as_str(), key) {
            return Some(&entries[i].1);
        }
    }
    assert(entries@.skip(entries.len() as int) =~= Seq::<(String, JsonValue)>::empty());
    None
}

/// `value.get(key)`.
pub fn get<'a>(v: &'a JsonValue, key: &str) -> (r: Option<&'a JsonValue>)
    ensures
        match r {
            Some(w) => json_get(*v, key@) == Some(*w),
            None => json_get(*v, key@) is None,
        },
{
    match v {
        JsonValue::Object(entries) => member_of(entries, key),
        _ => None,
    }
}

fn index_of_token(token: &str) -> (r: Option<usize>)
    ensures
        match r {
            Some(i) => token_index(token@) == Some(i as int),
            None => token_index(token@) is None,
        },
{
    let v = chars_of(token);
    if v.len() > 0 && (v[0] == '+' || (v[0] == '0' && v.len() != 1)) {
        return None;
    }
    parse_usize(token)
}

/// One JSON pointer step from `v`.
pub fn step<'a>(v: &'a JsonValue, token: &str) -> (r: Option<&'a JsonValue>)
    ensures
        match r {
            Some(w) => json_step(*v, token@) == Some(*w),
            None => json_step(*v, token@) is None,
        },
{
    match v {
        JsonValue::Object(entries) => member_of(entries, token),
        JsonValue::Array(items) => match index_of_token(token) {
            Some(i) => {
                if i < items.len() {
                    Some(&items[i])
                } else {
                    None
                }
            },
            None => None,
        },
        _ => None,
    }
}

fn step_opt<'a>(v: Option<&'a JsonValue>, token: &str) -> (r: Option<&'a JsonValue>)
    ensures
        match r {
            Some(w) => step_from(
                match v {
                    Some(x) => Some(*x),
                    None => None,
                },
                token@,
            ) == Some(*w),
            None => step_from(
                match v {
                    Some(x) => Some(*x),
                    None => None,
                },
                token@,
            ) is None,
        },
{
    match v {
        Some(x) => step(x, token),
        None => None,
    }
}

/// Why the action that a model chose cannot be read.
#[derive(Debug)]
pub enum LlmError {
    /// The body of the reply is not JSON; `cause` is the parser's error.
    InvalidResponse { cause: serde_json::Error },
    /// The reply has no tool-call arguments.
    MissingToolArguments,
    /// The tool-call arguments are not JSON; `cause` is the parser's error.
    InvalidArguments { cause: serde_json::Error },
    /// The arguments have no string `action_type`.
    MissingActionType,
    /// The arguments have no `options`.
    MissingOptions,
    /// A text action without `options.text`.
    MissingText,
    /// A dice action without `options.dice`.
    MissingDice,
    /// A click action without `options.key`.
    MissingKey,
    /// An action type other than text, dice and click.
    UnsupportedActionType(String),
    /// The endpoint answered with a status other than success; the status as
    /// it is shown, and the body of the answer.
    EndpointStatus { status: String, payload: String },
}

/// The message that reports an `LlmError`.
pub open spec fn llm_error_text(e: LlmError) -> Seq<char> {
    match e {
        LlmError::InvalidResponse { .. } => "failed to parse llm response JSON"@,
        LlmError::MissingToolArguments => "llm response did not include task_action tool arguments"@,
        LlmError::InvalidArguments { .. } => "failed to parse task_action arguments"@,
        LlmError::MissingActionType => "task_action.action_type is required"@,
        LlmError::MissingOptions => "task_action.options is required"@,
        LlmError::MissingText => "task_action.options.text is required for text action"@,
        LlmError::MissingDice => "task_action.options.dice is required for dice action"@,
        LlmError::MissingKey => "task_action.options.key is required for click action"@,
        LlmError::UnsupportedActionType(t) => "unsupported llm action_type: "@ + t@,
        LlmError::EndpointStatus { status, payload } => "llm endpoint returned "@ + status@
            + ": "@ + payload@,
    }
}

impl LlmError {
    /// The message that reports this error.
    pub fn message(&self) -> (r: String)
        ensures
            r@ == llm_error_text(*self),
    {
        match self {
            LlmError::InvalidResponse { .. } => String::from_str("failed to parse llm response JSON"),
            LlmError::MissingToolArguments => String::from_str(
                "llm response did not include task_action tool arguments",
            ),
            LlmError::InvalidArguments { .. } => String::from_str(
                "failed to parse task_action arguments",
            ),
            LlmError::MissingActionType => String::from_str("task_action.action_type is required"),
            LlmError::MissingOptions => String::from_str("task_action.options is required"),
            LlmError::MissingText => String::from_str(
                "task_action.options.text is required for text action",
            ),
            LlmError::MissingDice => String::from_str(
                "task_action.options.dice is required for dice action",
            ),
            LlmError::MissingKey => String::from_str(
                "task_action.options.key is required for click action",
            ),
            LlmError::UnsupportedActionType(t) => String::from_str(
                "unsupported llm action_type: ",
            ).concat(t.as_str()),
            LlmError::EndpointStatus { status, payload } => String::from_str(
                "llm endpoint returned ",
            ).concat(status.as_str()).concat(": ").concat(payload.as_str()),
        }
    }
}

/// The body of an answer, when its status code is a success (200 to 299);
/// otherwise the error that shows the status and the body.
pub fn check_llm_status(code: u16, status: String, payload: String) -> (r: Result<String, LlmError>)
    ensures
        200 <= code <= 299 ==> r == Ok::<String, LlmError>(payload),
        !(200 <= code <= 299) ==> r == Err::<String, LlmError>(
            LlmError::EndpointStatus { status, payload },
        ),
{
    if 200 <= code && code <= 299 {
        Ok(payload)
    } else {
        Err(LlmError::EndpointStatus { status, payload })
    }
}

/// The tool-call arguments in a chat-completions reply.
pub fn tool_call_arguments(payload: &JsonValue) -> (r: Result<String, LlmError>)
    ensures
        match tool_arguments(*payload) {
            Some(a) => r matches Ok(s) && s@ == a,
            None => r matches Err(e) && e == LlmError::MissingToolArguments,
        },
{
    let v = step(payload, "choices");
    let v = step_opt(v, "0");
    let v = step_opt(v, "message");
    let v = step_opt(v, "tool_calls");
    let v = step_opt(v, "0");
    let v = step_opt(v, "function");
    let v = step_opt(v, "arguments");
    match v {
        Some(JsonValue::Str(s)) => Ok(s.clone()),
        _ => Err(LlmError::MissingToolArguments),
    }
}

/// The action a model chose.
#[derive(Debug, Clone)]
pub enum GeneratedAction {
    Text(String),
    Dice(String),
    Click(String),
}

/// The kind and text of a chosen action.
pub open spec fn generated_view(a: GeneratedAction) -> (int, Seq<char>) {
    match a {
        GeneratedAction::Text(s) => (0, s@),
        GeneratedAction::Dice(s) => (1, s@),
        GeneratedAction::Click(s) => (2, s@),
    }
}

/// The string member `key` of `v`.
pub open spec fn str_member(v: JsonValue, key: Seq<char>) -> Option<Seq<char>> {
    json_str(json_get(v, key))
}

/// What a result of reading an action tells: the kind and text of the
/// action, or the message of the error.
pub open spec fn action_outcome(r: Result<GeneratedAction, LlmError>) -> Result<
    (int, Seq<char>),
    Seq<char>,
> {
    match r {
        Ok(a) => Ok(generated_view(a)),
        Err(e) => Err(llm_error_text(e)),
    }
}

/// The action that tool-call arguments describe: `action_type` picks text,
/// dice or click, and `options` must carry the matching string (`text`,
/// `dice` or `key`). Errors are given as `llm_error_text`.
pub open spec fn chosen_action(args: JsonValue) -> Result<(int, Seq<char>), Seq<char>> {
    match str_member(args, "action_type"@) {
        None => Err(llm_error_text(LlmError::MissingActionType)),
        Some(t) => match json_get(args, "options"@) {
            None => Err(llm_error_text(LlmError::MissingOptions)),
            Some(o) => if t == "text"@ {
                match str_member(o, "text"@) {
                    Some(s) => Ok((0int, s)),
                    None => Err(llm_error_text(LlmError::MissingText)),
                }
            } else if t == "dice"@ {
                match str_member(o, "dice"@) {
                    Some(s) => Ok((1int, s)),
                    None => Err(llm_error_text(LlmError::MissingDice)),
                }
            } else if t == "click"@ {
                match str_member(o, "key"@) {
                    Some(s) => Ok((2int, s)),
                    None => Err(llm_error_text(LlmError::MissingKey)),
                }
            } else {
                Err("unsupported llm action_type: "@ + t)
            },
        },
    }
}

fn str_of(v: Option<&JsonValue>) -> (r: Option<String>)
    ensures
        match r {
            Some(s) => json_str(
                match v {
                    Some(x) => Some(*x),
                    None => None,
                },
            ) == Some(s@),
            None => json_str(
                match v {
                    Some(x) => Some(*x),
                    None => None,
                },
            ) is None,
        },
{
    match v {
        Some(JsonValue::Str(s)) => Some(s.clone()),
        _ => None,
    }
}

/// The action that parsed tool-call arguments describe.
pub fn action_from_arguments(args: &JsonValue) -> (r: Result<GeneratedAction, LlmError>)
    ensures
        action_outcome(r) == chosen_action(*args),
{
    let action_type = match str_of(get(args, "action_type")) {
        Some(t) => t,
        None => return Err(LlmError::MissingActionType),
    };
    let options = match get(args, "options") {
        Some(o) => o,
        None => return Err(LlmError::MissingOptions),
    };
    if str_equal(action_type.as_str(), "text") {
        match str_of(get(options, "text")) {
            Some(s) => Ok(GeneratedAction::Text(s)),
            None => Err(LlmError::MissingText),
        }
    } else if str_equal(action_type.as_str(), "dice") {
        match str_of(get(options, "dice")) {
            Some(s) => Ok(GeneratedAction::Dice(s)),
            None => Err(LlmError::MissingDice),
        }
    } else if str_equal(action_type.as_str(), "click") {
        match str_of(get(options, "key")) {
            Some(s) => Ok(GeneratedAction::Click(s)),
            None => Err(LlmError::MissingKey),
        }
    } else {
        Err(LlmError::UnsupportedActionType(action_type))
    }
}

/// The action that a chat-completions reply chose: its tool-call arguments,
/// read as JSON, then as `chosen_action` reads them.
pub open spec fn payload_action(payload: JsonValue) -> Result<(int, Seq<char>), Seq<char>> {
    match tool_arguments(payload) {
        None => Err(llm_error_text(LlmError::MissingToolArguments)),
        Some(a) => match json_text_value(a) {
            None => Err("failed to parse task_action arguments"@),
            Some(args) => chosen_action(args),
        },
    }
}

/// The action that a chat-completions reply chose. Arguments that are not
/// JSON are refused with the parser's error as the cause.
pub fn parse_llm_action(payload: &JsonValue) -> (r: Result<GeneratedAction, LlmError>)
    ensures
        action_outcome(r) == payload_action(*payload),
        tool_arguments(*payload) is None ==> (r matches Err(e) && e
            == LlmError::MissingToolArguments),
        (tool_arguments(*payload) matches Some(a) && json_text_value(a) is None) ==> (r matches Err(
            e,
        ) && (e is InvalidArguments)),
{
    let arguments = match tool_call_arguments(payload) {
        Ok(a) => a,
        Err(e) => return Err(e),
    };
    match parse_json(arguments.as_str()) {
        Ok(args) => action_from_arguments(&args),
        Err(cause) => Err(LlmError::InvalidArguments { cause }),
    }
}

/// What the endpoint's answer comes to: an error that shows a status other
/// than success and the body; else the body read as JSON, then the action
/// that `payload_action` reads from it.
pub open spec fn reply_text_action(code: u16, status: Seq<char>, body: Seq<char>) -> Result<
    (int, Seq<char>),
    Seq<char>,
> {
    if !(200 <= code <= 299) {
        Err("llm endpoint returned "@ + status + ": "@ + body)
    } else {
        match json_text_value(body) {
            None => Err("failed to parse llm response JSON"@),
            Some(payload) => payload_action(payload),
        }
    }
}

/// The action that the endpoint's answer chose, from its status code, the
/// status as it is shown, and its body.
pub fn reply_action(code: u16, status: String, body: String) -> (r: Result<
    GeneratedAction,
    LlmError,
>)
    ensures
        action_outcome(r) == reply_text_action(code, status@, body@),
        !(200 <= code <= 299) ==> (r matches Err(e) && e == (LlmError::EndpointStatus {
            status,
            payload: body,
        })),
        (200 <= code <= 299 && json_text_value(body@) is None) ==> (r matches Err(e)
            && (e is InvalidResponse)),
{
    let body = match check_llm_status(code, status, body) {
        Ok(b) => b,
        Err(e) => return Err(e),
    };
    match parse_json(body.as_str()) {
        Ok(payload) => parse_llm_action(&payload),
        Err(cause) => Err(LlmError::InvalidResponse { cause }),
    }
}

/// `s` with every trailing copy of `c` removed (`str::trim_end_matches`).
pub open spec fn strip_end(s: Seq<char>, c: char) -> Seq<char>
    decreases s.len(),
{
    if s.len() > 0 && s.last() == c {
        strip_end(s.drop_last(), c)
    } else {
        s
    }
}

/// The chat-completions endpoint under `base_url`.
pub fn completions_url(base_url: &str) -> (r: String)
    ensures
        r@ == strip_end(base_url@, '/') + "/chat/completions"@,
{
    let v = chars_of(base_url);
    let mut n = v.len();
    assert(v@.take(n as int) == v@);
    while n > 0 && v[n - 1] == '/'
        invariant
            n <= v.len(),
            strip_end(v@, '/') == strip_end(v@.take(n as int), '/'),
        decreases n,
    {
        assert(v@.take(n as int).drop_last() == v@.take(n - 1));
        n = n - 1;
    }
    let mut kept: Vec<char> = Vec::new();
    for i in 0..n
        invariant
            n <= v.len(),
            kept@ == v@.take(i as int),
    {
        kept.push(v[i]);
        assert(v@.take(i + 1) == v@.take(i as int).push(v@[i as int]));
    }
    from_chars(&kept).concat("/chat/completions")
}

/// The endpoint base: the configured one, else OpenAI's.
pub fn base_url_or_default(configured: Option<String>) -> (r: String)
    ensures
        match configured {
            Some(u) => r == u,
            None => r@ == "https://api.openai.com/v1"@,
        },
{
    match configured {
        Some(u) => u,
        None => String::from_str("https://api.openai.com/v1"),
    }
}

fn text(s: &str) -> (r: JsonValue)
    ensures
        r matches JsonValue::Str(t) && t@ == s@,
{
    JsonValue::Str(String::from_str(s))
}

fn entry(key: &str, value: JsonValue) -> (r: (String, JsonValue))
    ensures
        r.0@ == key@,
        r.1 == value,
{
    (String::from_str(key), value)
}

/// Whether `v` is the string `s`.
pub open spec fn is_text(v: JsonValue, s: Seq<char>) -> bool {
    v matches JsonValue::Str(t) && t@ == s
}

/// Whether `v` is an array of exactly the strings `items`, in order.
pub open spec fn is_text_array(v: JsonValue, items: Seq<Seq<char>>) -> bool {
    v matches JsonValue::Array(a) && a@.len() == items.len() && forall|i: int|
        0 <= i < items.len() ==> is_text(#[trigger] a@[i], items[i])
}

/// Whether `v` is an object whose members are named `keys`, in order.
pub open spec fn has_keys(v: JsonValue, keys: Seq<Seq<char>>) -> bool {
    v matches JsonValue::Object(m) && m@.len() == keys.len() && forall|i: int|
        0 <= i < keys.len() ==> (#[trigger] m@[i]).0@ == keys[i]
}

/// The value of the member at position `i` of an object.
pub open spec fn member_at(v: JsonValue, i: int) -> JsonValue {
    match v {
        JsonValue::Object(m) => m@[i].1,
        _ => JsonValue::Null,
    }
}

/// Whether `v` is the schema `{"type": "string"}`.
pub open spec fn is_string_schema(v: JsonValue) -> bool {
    has_keys(v, seq!["type"@]) && is_text(member_at(v, 0), "string"@)
}

/// Whether `v` is the parameter schema of the `task_action` tool: an object
/// with `type` "object", `properties` holding `action_type` (a string, one
/// of text, dice, click) and `options` (an object whose `properties` are the
/// strings `text`, `dice` (one of the six dice emoji) and `key`, with other
/// members allowed), `required` naming both, and no other member allowed.
pub open spec fn is_tool_parameters(v: JsonValue) -> bool {
    let properties = member_at(v, 1);
    let action_type = member_at(properties, 0);
    let options = member_at(properties, 1);
    let option_properties = member_at(options, 1);
    let dice = member_at(option_properties, 1);
    &&& has_keys(v, seq!["type"@, "properties"@, "required"@, "additionalProperties"@])
    &&& is_text(member_at(v, 0), "object"@)
    &&& is_text_array(member_at(v, 2), seq!["action_type"@, "options"@])
    &&& member_at(v, 3) == JsonValue::Bool(false)
    &&& has_keys(properties, seq!["action_type"@, "options"@])
    &&& has_keys(action_type, seq!["type"@, "enum"@])
    &&& is_text(member_at(action_type, 0), "string"@)
    &&& is_text_array(member_at(action_type, 1), seq!["text"@, "dice"@, "click"@])
    &&& has_keys(options, seq!["type"@, "properties"@, "additionalProperties"@])
    &&& is_text(member_at(options, 0), "object"@)
    &&& member_at(options, 2) == JsonValue::Bool(true)
    &&& has_keys(option_properties, seq!["text"@, "dice"@, "key"@])
    &&& is_string_schema(member_at(option_properties, 0))
    &&& is_string_schema(member_at(option_properties, 2))
    &&& has_keys(dice, seq!["type"@, "enum"@])
    &&& is_text(member_at(dice, 0), "string"@)
    &&& is_text_array(
        member_at(dice, 1),
        seq!["🎲"@, "🏀"@, "🎯"@, "⚽"@, "🎳"@, "🎰"@],
    )
}

fn texts(items: &[&str]) -> (r: JsonValue)
    ensures
        is_text_array(r, items@.map_values(|t: &str| t@)),
{
    let mut out: Vec<JsonValue> = Vec::new();
    for i in 0..items.len()
        invariant
            out@.len() == i,
            forall|j: int| 0 <= j < i ==> is_text(#[trigger] out@[j], items@[j]@),
    {
        out.push(text(items[i]));
    }
    JsonValue::Array(out)
}

fn string_schema() -> (r: JsonValue)
    ensures
        is_string_schema(r),
{
    let mut m: Vec<(String, JsonValue)> = Vec::new();
    m.push(entry("type", text("string")));
    JsonValue::Object(m)
}

fn tool_parameters() -> (r: JsonValue)
    ensures
        is_tool_parameters(r),
{
    let mut action_type: Vec<(String, JsonValue)> = Vec::new();
    action_type.push(entry("type", text("string")));
    action_type.push(entry("enum", texts(&["text", "dice", "click"])));
    let mut dice: Vec<(String, JsonValue)> = Vec::new();
    dice.push(entry("type", text("string")));
    dice.push(entry("enum", texts(&["🎲", "🏀", "🎯", "⚽", "🎳", "🎰"])));
    let mut option_properties: Vec<(String, JsonValue)> = Vec::new();
    option_properties.push(entry("text", string_schema()));
    option_properties.push(entry("dice", JsonValue::Object(dice)));
    option_properties.push(entry("key", string_schema()));
    let mut options: Vec<(String, JsonValue)> = Vec::new();
    options.push(entry("type", text("object")));
    options.push(entry("properties", JsonValue::Object(option_properties)));
    options.push(entry("additionalProperties", JsonValue::Bool(true)));
    let mut properties: Vec<(String, JsonValue)> = Vec::new();
    properties.push(entry("action_type", JsonValue::Object(action_type)));
    properties.push(entry("options", JsonValue::Object(options)));
    let mut parameters: Vec<(String, JsonValue)> = Vec::new();
    parameters.push(entry("type", text("object")));
    parameters.push(entry("properties", JsonValue::Object(properties)));
    parameters.push(entry("required", texts(&["action_type", "options"])));
    parameters.push(entry("additionalProperties", JsonValue::Bool(false)));
    JsonValue::Object(parameters)
}

fn function_named(name: &str) -> (r: JsonValue)
    ensures
        r matches JsonValue::Object(m) && m@.len() == 1 && m@[0].0@ == "name"@ && (m@[0].1 matches JsonValue::Str(t) && t@ == name@),
{
    let mut m: Vec<(String, JsonValue)> = Vec::new();
    m.push(entry("name", text(name)));
    JsonValue::Object(m)
}

fn message(role: &str, content: JsonValue) -> (r: JsonValue)
    ensures
        r matches JsonValue::Object(m) && m@.len() == 2 && m@[0].0@ == "role"@ && (m@[0].1 matches JsonValue::Str(t) && t@ == role@) && m@[1].0@ == "content"@ && m@[1].1 == content,
{
    let mut m: Vec<(String, JsonValue)> = Vec::new();
    m.push(entry("role", text(role)));
    m.push(entry("content", content));
    JsonValue::Object(m)
}

/// The element at position `i` of an array.
pub open spec fn element_at(v: JsonValue, i: int) -> JsonValue {
    match v {
        JsonValue::Array(a) => a@[i],
        _ => JsonValue::Null,
    }
}

/// The instruction sent as the system message of every request.
pub open spec fn system_instruction() -> Seq<char> {
    "Choose exactly one Telegram task action. Call task_action with action_type and options. Do not answer with text content."@
}

/// The description of the `task_action` tool.
pub open spec fn tool_description() -> Seq<char> {
    "Select the next Telegram action to execute."@
}

/// Whether `v` is the chat message `{"role": role, "content": content}`.
pub open spec fn is_message(v: JsonValue, role: Seq<char>, content: Seq<char>) -> bool {
    &&& has_keys(v, seq!["role"@, "content"@])
    &&& is_text(member_at(v, 0), role)
    &&& is_text(member_at(v, 1), content)
}

/// Whether `v` is the request that makes `model` choose one action for
/// `prompt`: members `model`; `messages`, the system instruction then the
/// user's prompt; `tools`, the single function `task_action` with its
/// description and the `is_tool_parameters` schema; and `tool_choice`, which
/// forces the function `task_action`.
pub open spec fn is_request_body(v: JsonValue, model: Seq<char>, prompt: Seq<char>) -> bool {
    let messages = member_at(v, 1);
    let tools = member_at(v, 2);
    let tool = element_at(tools, 0);
    let function = member_at(tool, 1);
    let choice = member_at(v, 3);
    let chosen = member_at(choice, 1);
    &&& has_keys(v, seq!["model"@, "messages"@, "tools"@, "tool_choice"@])
    &&& is_text(member_at(v, 0), model)
    &&& messages matches JsonValue::Array(a) && a@.len() == 2
    &&& is_message(element_at(messages, 0), "system"@, system_instruction())
    &&& is_message(element_at(messages, 1), "user"@, prompt)
    &&& tools matches JsonValue::Array(a) && a@.len() == 1
    &&& has_keys(tool, seq!["type"@, "function"@])
    &&& is_text(member_at(tool, 0), "function"@)
    &&& has_keys(function, seq!["name"@, "description"@, "parameters"@])
    &&& is_text(member_at(function, 0), "task_action"@)
    &&& is_text(member_at(function, 1), tool_description())
    &&& is_tool_parameters(member_at(function, 2))
    &&& has_keys(choice, seq!["type"@, "function"@])
    &&& is_text(member_at(choice, 0), "function"@)
    &&& has_keys(chosen, seq!["name"@])
    &&& is_text(member_at(chosen, 0), "task_action"@)
}

/// The chat-completions request asking `model` to choose one action for
/// `prompt` through the `task_action` tool, which the request forces.
pub fn llm_request_body(model: &str, prompt: &str) -> (r: JsonValue)
    ensures
        is_request_body(r, model@, prompt@),
{
    let system = message(
        "system",
        text(
            "Choose exactly one Telegram task action. Call task_action with action_type and options. Do not answer with text content.",
        ),
    );
    let user = message("user", text(prompt));
    let mut messages: Vec<JsonValue> = Vec::new();
    messages.push(system);
    messages.push(user);
    let mut function: Vec<(String, JsonValue)> = Vec::new();
    function.push(entry("name", text("task_action")));
    function.push(entry("description", text("Select the next Telegram action to execute.")));
    function.push(entry("parameters", tool_parameters()));
    let mut tool: Vec<(String, JsonValue)> = Vec::new();
    tool.push(entry("type", text("function")));
    tool.push(entry("function", JsonValue::Object(function)));
    let mut tools: Vec<JsonValue> = Vec::new();
    tools.push(JsonValue::Object(tool));
    let mut choice: Vec<(String, JsonValue)> = Vec::new();
    choice.push(entry("type", text("function")));
    choice.push(entry("function", function_named("task_action")));
    let mut body: Vec<(String, JsonValue)> = Vec::new();
    body.push(entry("model", text(model)));
    body.push(entry("messages", JsonValue::Array(messages)));
    body.push(entry("tools", JsonValue::Array(tools)));
    body.push(entry("tool_choice", JsonValue::Object(choice)));
    JsonValue::Object(body)
}

/// The action read from tool-call arguments is of the kind that
/// `action_type` names and carries exactly the string the model gave for that
/// kind, whatever it is: `options.text` for a text action, `options.dice`
/// (any emoji) for a dice action, `options.key` for a click.
pub proof fn lemma_action_carries_the_chosen_value(
    args: JsonValue,
    kind: Seq<char>,
    field: Seq<char>,
    value: Seq<char>,
)
    requires
        json_str(json_get(args, "action_type"@)) == Some(kind),
        json_get(args, "options"@) matches Some(o) && json_str(json_get(o, field)) == Some(value),
        (kind == "text"@ && field == "text"@) || (kind == "dice"@ && field == "dice"@) || (kind
            == "click"@ && field == "key"@),
    ensures
        chosen_action(args) == Ok::<(int, Seq<char>), Seq<char>>(
            (
                if kind == "text"@ {
                    0int
                } else if kind == "dice"@ {
                    1int
                } else {
                    2int
                },
                value,
            ),
        ),
{
    reveal_strlit("text");
    reveal_strlit("dice");
    reveal_strlit("click");
    assert("text"@ != "dice"@ && "text"@ != "click"@ && "dice"@ != "click"@) by {
        assert("text"@[0] != "dice"@[0] && "text"@[0] != "click"@[0] && "dice"@[0] != "click"@[0]);
    }
}

} // verus!
