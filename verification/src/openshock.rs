//! OpenShock control requests: the command a rule's shock settings give, the
//! request body sent for it, the control endpoint, whether an account is
//! usable at all, and the short explanation of a failed request.

use vstd::prelude::*;
use crate::config::OpenShockConfig;
use crate::shock::{ShockConfig, ShockKind, Shocker, clamp_int};
use crate::text::{
    chars_of, push_chars, str_eq, push_str, string_of, take_chars, take_seq, trim_chars, trim_end_char,
    trim_end_char_seq, trim_seq, trim_start_chars, trim_start_seq,
};

verus! {

pub const MIN_INTENSITY: u8 = 1;
pub const MAX_INTENSITY: u8 = 100;
pub const MIN_DURATION_MS: u64 = 300;
pub const MAX_DURATION_MS: u64 = 30_000;

/// One control request for a set of shockers.
#[derive(Debug, Clone, Copy, PartialEq, Eq, Structural)]
pub struct ControlCommand {
    pub kind: ShockKind,
    pub intensity: u8,
    pub duration_ms: u64,
}

pub open spec fn kind_name(kind: ShockKind) -> Seq<char> {
    match kind {
        ShockKind::Shock => "shock"@,
        ShockKind::Vibrate => "vibrate"@,
        ShockKind::Sound => "sound"@,
    }
}

impl ControlCommand {
    /// The command of enabled shock settings, clamped into the API range.
    pub fn from_shock(config: &ShockConfig) -> (r: Option<ControlCommand>)
        ensures
            !config.enabled ==> r is None,
            config.enabled ==> r == Some(
                ControlCommand {
                    kind: config.kind,
                    intensity: clamp_int(config.intensity as int, 1, 100) as u8,
                    duration_ms: clamp_int(config.duration_ms as int, 300, 30_000) as u64,
                },
            ),
    {
        let config = config.clamped();
        if !config.enabled {
            return None;
        }
        Some(
            ControlCommand {
                kind: config.kind,
                intensity: config.intensity,
                duration_ms: config.duration_ms,
            },
        )
    }

    /// The intensity sent: clamped into 1..=100.
    pub fn intensity(self) -> (r: u8)
        ensures
            r as int == clamp_int(self.intensity as int, 1, 100),
    {
        if self.intensity < MIN_INTENSITY {
            MIN_INTENSITY
        } else if self.intensity > MAX_INTENSITY {
            MAX_INTENSITY
        } else {
            self.intensity
        }
    }

    /// The duration sent: clamped into 300..=30000 ms.
    pub fn duration_ms(self) -> (r: u64)
        ensures
            r as int == clamp_int(self.duration_ms as int, 300, 30_000),
    {
        if self.duration_ms < MIN_DURATION_MS {
            MIN_DURATION_MS
        } else if self.duration_ms > MAX_DURATION_MS {
            MAX_DURATION_MS
        } else {
            self.duration_ms
        }
    }

    /// The API's name for the control type.
    pub fn kind_str(self) -> (s: &'static str)
        ensures
            s@ == kind_name(self.kind),
    {
        proof {
            reveal_strlit("shock");
            reveal_strlit("vibrate");
            reveal_strlit("sound");
        }
        match self.kind {
            ShockKind::Shock => "shock",
            ShockKind::Vibrate => "vibrate",
            ShockKind::Sound => "sound",
        }
    }
}

/// One entry of the `shocks` array of a control request.
#[derive(Debug, Clone, PartialEq, Eq)]
pub struct ShockEntry {
    pub id: String,
    pub kind: &'static str,
    pub intensity: u8,
    pub duration: u64,
}

/// The body of a control request (`custom` is always false).
#[derive(Debug, Clone, PartialEq, Eq)]
pub struct ControlPayload {
    pub shocks: Vec<ShockEntry>,
    pub custom: bool,
}

/// The request body: one entry per shocker id, in order, each carrying the
/// command's type and its clamped intensity and duration, so that every
/// request stays inside the range the API accepts.
pub fn payload(command: ControlCommand, shocker_ids: &[String]) -> (p: ControlPayload)
    ensures
        !p.custom,
        p.shocks@.len() == shocker_ids@.len(),
        forall|i: int|
            0 <= i < shocker_ids@.len() ==> {
                let e = #[trigger] p.shocks@[i];
                &&& e.id@ == shocker_ids@[i]@
                &&& e.kind@ == kind_name(command.kind)
                &&& e.intensity as int == clamp_int(command.intensity as int, 1, 100)
                &&& e.duration as int == clamp_int(command.duration_ms as int, 300, 30_000)
                &&& MIN_INTENSITY <= e.intensity <= MAX_INTENSITY
                &&& MIN_DURATION_MS <= e.duration <= MAX_DURATION_MS
            },
{
    let mut shocks: Vec<ShockEntry> = Vec::new();
    let mut k: usize = 0;
    while k < shocker_ids.len()
        invariant
            k <= shocker_ids.len(),
            shocks@.len() == k,
            forall|i: int|
                0 <= i < k ==> {
                    let e = #[trigger] shocks@[i];
                    &&& e.id@ == shocker_ids@[i]@
                    &&& e.kind@ == kind_name(command.kind)
                    &&& e.intensity as int == clamp_int(command.intensity as int, 1, 100)
                    &&& e.duration as int == clamp_int(command.duration_ms as int, 300, 30_000)
                },
        decreases shocker_ids.len() - k,
    {
        let id = string_of(chars_of(shocker_ids[k].as_str()).as_slice());
        shocks.push(
            ShockEntry {
                id,
                kind: command.kind_str(),
                intensity: command.intensity(),
                duration: command.duration_ms(),
            },
        );
        k += 1;
    }
    ControlPayload { shocks, custom: false }
}

/// The control endpoint under a base URL (trailing slashes dropped).
pub open spec fn endpoint_spec(base_url: Seq<char>) -> Seq<char> {
    trim_end_char_seq(base_url, '/') + "/2/shockers/control"@
}

pub fn endpoint(config: &OpenShockConfig) -> (r: String)
    ensures
        r@ == endpoint_spec(config.base_url@),
{
    let mut out = trim_end_char(&chars_of(config.base_url.as_str()), '/');
    push_str(&mut out, "/2/shockers/control");
    string_of(out.as_slice())
}

/// An account is usable when enabled, with a non-blank token and at least
/// one roster shocker whose id is not blank.
pub open spec fn configured_spec(config: OpenShockConfig) -> bool {
    &&& config.enabled
    &&& trim_seq(config.api_token@).len() > 0
    &&& exists|i: int|
        0 <= i < config.shockers@.len() && trim_seq(#[trigger] config.shockers@[i].id@).len() > 0
}

fn any_shocker_id(roster: &Vec<Shocker>) -> (r: bool)
    ensures
        r == exists|i: int| 0 <= i < roster@.len() && trim_seq(#[trigger] roster@[i].id@).len() > 0,
{
    let mut k: usize = 0;
    while k < roster.len()
        invariant
            k <= roster.len(),
            forall|i: int| 0 <= i < k ==> trim_seq(#[trigger] roster@[i].id@).len() == 0,
        decreases roster.len() - k,
    {
        if trim_chars(&chars_of(roster[k].id.as_str())).len() > 0 {
            return true;
        }
        k += 1;
    }
    false
}

pub fn configured(config: &OpenShockConfig) -> (b: bool)
    ensures
        b == configured_spec(*config),
{
    config.enabled && trim_chars(&chars_of(config.api_token.as_str())).len() > 0 && any_shocker_id(
        &config.shockers,
    )
}

/// What an error body parsed as JSON holds that its explanation reads: its
/// `title` when that is a string; when `errors` is an object, each of its
/// fields (in the order the parsed object keeps them) with its messages when
/// they form an array (each message when it is a string); its `message` when
/// that is a string.
#[derive(Debug, Clone, PartialEq, Eq)]
pub struct ErrorBody {
    pub title: Option<String>,
    pub errors: Option<Vec<(String, Option<Vec<Option<String>>>)>>,
    pub message: Option<String>,
}

/// An [`ErrorBody`] as plain text values.
pub struct ErrorBodyView {
    pub title: Option<Seq<char>>,
    pub errors: Option<Seq<(Seq<char>, Option<Seq<Option<Seq<char>>>>)>>,
    pub message: Option<Seq<char>>,
}

pub open spec fn opt_text(s: Option<String>) -> Option<Seq<char>> {
    match s {
        Some(t) => Some(t@),
        None => None,
    }
}

pub open spec fn messages_view(m: Option<Vec<Option<String>>>) -> Option<Seq<Option<Seq<char>>>> {
    match m {
        Some(list) => Some(list@.map_values(|x: Option<String>| opt_text(x))),
        None => None,
    }
}

pub open spec fn body_view(b: ErrorBody) -> ErrorBodyView {
    ErrorBodyView {
        title: opt_text(b.title),
        errors: match b.errors {
            Some(fields) => Some(
                fields@.map_values(
                    |e: (String, Option<Vec<Option<String>>>)| (e.0@, messages_view(e.1)),
                ),
            ),
            None => None,
        },
        message: opt_text(b.message),
    }
}

pub open spec fn parsed_view(b: Option<ErrorBody>) -> Option<ErrorBodyView> {
    match b {
        Some(body) => Some(body_view(body)),
        None => None,
    }
}

/// A JSON document, value for value: numbers are kept as the text
/// `serde_json` prints for them, objects as their members in the order the
/// parsed object keeps them.
#[derive(Debug, PartialEq, Eq)]
pub enum JsonValue {
    Null,
    Bool(bool),
    Number(String),
    Text(String),
    Array(Vec<JsonValue>),
    Object(Vec<(String, JsonValue)>),
}

#[verifier::external_type_specification]
#[verifier::external_body]
pub struct ExJson(serde_json::Value);

/// What `text` parses to as JSON (`None` when it is not JSON).
pub uninterp spec fn parsed_json(text: Seq<char>) -> Option<JsonValue>;

/// `serde_json::from_str` into a `serde_json::Value`, converted value for
/// value into a [`JsonValue`]. Its result is named by `parsed_json` and not
/// otherwise stated.
#[verifier::external_body]
fn parse_json(text: &str) -> (r: Option<JsonValue>)
    ensures
        r == parsed_json(text@),
{
    serde_json::from_str::<serde_json::Value>(text).ok().map(json_value_of)
}

/// The conversion `parse_json` hands its parsed value to: each
/// `serde_json::Value` variant into the [`JsonValue`] variant of the same
/// shape, its contents moved across.
#[verifier::external_body]
fn json_value_of(v: serde_json::Value) -> JsonValue {
    match v {
        serde_json::Value::Null => JsonValue::Null,
        serde_json::Value::Bool(b) => JsonValue::Bool(b),
        serde_json::Value::Number(n) => JsonValue::Number(n.to_string()),
        serde_json::Value::String(t) => JsonValue::Text(t),
        serde_json::Value::Array(items) => JsonValue::Array(items.into_iter().map(json_value_of).collect()),
        serde_json::Value::Object(m) => JsonValue::Object(m.into_iter().map(|(k, x)| (k, json_value_of(x))).collect()),
    }
}

/// The value of the first member named `key`.
pub open spec fn member(fields: Seq<(String, JsonValue)>, key: Seq<char>) -> Option<JsonValue>
    decreases fields.len(),
{
    if fields.len() == 0 {
        None
    } else if fields[0].0@ == key {
        Some(fields[0].1)
    } else {
        member(fields.drop_first(), key)
    }
}

/// The member `key` of an object (nothing for any other value).
pub open spec fn field_of(v: JsonValue, key: Seq<char>) -> Option<JsonValue> {
    match v {
        JsonValue::Object(fields) => member(fields@, key),
        _ => None,
    }
}

/// The text of a string value.
pub open spec fn text_value(v: Option<JsonValue>) -> Option<Seq<char>> {
    match v {
        Some(JsonValue::Text(t)) => Some(t@),
        _ => None,
    }
}

/// The messages of an array value, each as text when it is a string.
pub open spec fn messages_of(v: JsonValue) -> Option<Seq<Option<Seq<char>>>> {
    match v {
        JsonValue::Array(items) => Some(items@.map_values(|x: JsonValue| text_value(Some(x)))),
        _ => None,
    }
}

/// What an error body in JSON says: its `title` when that is a string, its
/// `errors` when that is an object (each field with its messages), its
/// `message` when that is a string.
pub open spec fn error_body_of(v: JsonValue) -> ErrorBodyView {
    ErrorBodyView {
        title: text_value(field_of(v, "title"@)),
        errors: match field_of(v, "errors"@) {
            Some(JsonValue::Object(fields)) => Some(
                fields@.map_values(|e: (String, JsonValue)| (e.0@, messages_of(e.1))),
            ),
            _ => None,
        },
        message: text_value(field_of(v, "message"@)),
    }
}

pub open spec fn json_error_view(parsed: Option<JsonValue>) -> Option<ErrorBodyView> {
    match parsed {
        Some(v) => Some(error_body_of(v)),
        None => None,
    }
}

fn member_of<'a>(fields: &'a Vec<(String, JsonValue)>, key: &str) -> (r: Option<&'a JsonValue>)
    ensures
        match r {
            Some(x) => member(fields@, key@) == Some(*x),
            None => member(fields@, key@) is None,
        },
{
    let mut k: usize = 0;
    assert(fields@.subrange(0, fields@.len() as int) =~= fields@);
    while k < fields.len()
        invariant
            k <= fields.len(),
            member(fields@, key@) == member(fields@.subrange(k as int, fields@.len() as int), key@),
        decreases fields.len() - k,
    {
        let ghost rest = fields@.subrange(k as int, fields@.len() as int);
        assert(rest.drop_first() =~= fields@.subrange(k + 1, fields@.len() as int));
        assert(rest[0] == fields@[k as int]);
        if str_eq(fields[k].0.as_str(), key) {
            return Some(&fields[k].1);
        }
        k += 1;
    }
    None
}

fn field_value<'a>(v: &'a JsonValue, key: &str) -> (r: Option<&'a JsonValue>)
    ensures
        match r {
            Some(x) => field_of(*v, key@) == Some(*x),
            None => field_of(*v, key@) is None,
        },
{
    match v {
        JsonValue::Object(fields) => member_of(fields, key),
        _ => None,
    }
}

fn text_of_value(v: Option<&JsonValue>) -> (r: Option<String>)
    ensures
        opt_text(r) == text_value(match v {
            Some(x) => Some(*x),
            None => None,
        }),
{
    match v {
        Some(JsonValue::Text(t)) => Some(t.clone()),
        _ => None,
    }
}

fn messages_value(v: &JsonValue) -> (r: Option<Vec<Option<String>>>)
    ensures
        messages_view(r) == messages_of(*v),
{
    match v {
        JsonValue::Array(items) => {
            let mut out: Vec<Option<String>> = Vec::new();
            let mut k: usize = 0;
            while k < items.len()
                invariant
                    k <= items.len(),
                    out@.len() == k,
                    forall|i: int| 0 <= i < k ==> opt_text(#[trigger] out@[i]) == text_value(Some(items@[i])),
                decreases items.len() - k,
            {
                out.push(text_of_value(Some(&items[k])));
                k += 1;
            }
            assert(out@.map_values(|x: Option<String>| opt_text(x)) =~= items@.map_values(
                |x: JsonValue| text_value(Some(x)),
            ));
            Some(out)
        },
        _ => None,
    }
}

/// What a JSON error body says, read from the parsed document.
pub fn error_body_from_json(v: &JsonValue) -> (b: ErrorBody)
    ensures
        body_view(b) == error_body_of(*v),
{
    let title = text_of_value(field_value(v, "title"));
    let message = text_of_value(field_value(v, "message"));
    let errors = match field_value(v, "errors") {
        Some(JsonValue::Object(fields)) => {
            let mut out: Vec<(String, Option<Vec<Option<String>>>)> = Vec::new();
            let mut k: usize = 0;
            while k < fields.len()
                invariant
                    k <= fields.len(),
                    out@.len() == k,
                    forall|i: int|
                        0 <= i < k ==> (#[trigger] out@[i]).0@ == fields@[i].0@ && messages_view(out@[i].1)
                            == messages_of(fields@[i].1),
                decreases fields.len() - k,
            {
                out.push((fields[k].0.clone(), messages_value(&fields[k].1)));
                k += 1;
            }
            assert(out@.map_values(
                |e: (String, Option<Vec<Option<String>>>)| (e.0@, messages_view(e.1)),
            ) =~= fields@.map_values(|e: (String, JsonValue)| (e.0@, messages_of(e.1))));
            Some(out)
        },
        _ => None,
    };
    ErrorBody { title, errors, message }
}

/// Explain a failed request given what its body parsed to as JSON, if it
/// did.
pub fn explain_json_error(body: &str, parsed: Option<JsonValue>) -> (r: String)
    ensures
        r@ == error_detail_spec(body@, json_error_view(parsed)),
{
    match parsed {
        Some(v) => explain_error(body, Some(error_body_from_json(&v))),
        None => explain_error(body, None),
    }
}

pub const HTML_ERROR_HINT: &'static str =
    "an HTML error page (the request was blocked before it reached the API)";

/// A field's first message, when its messages form an array whose first
/// element is a string.
pub open spec fn first_message(m: Option<Seq<Option<Seq<char>>>>) -> Option<Seq<char>> {
    match m {
        Some(list) => if list.len() > 0 {
            list[0]
        } else {
            None
        },
        None => None,
    }
}

/// The summary parts of an error body: the title, then `field: message` for
/// each field that has a first message.
pub open spec fn error_parts(
    title: Option<Seq<char>>,
    errors: Seq<(Seq<char>, Option<Seq<Option<Seq<char>>>>)>,
) -> Seq<Seq<char>>
    decreases errors.len(),
{
    if errors.len() == 0 {
        match title {
            Some(t) => seq![t],
            None => Seq::empty(),
        }
    } else {
        let prev = error_parts(title, errors.drop_last());
        match first_message(errors.last().1) {
            Some(m) => prev.push(errors.last().0 + ": "@ + m),
            None => prev,
        }
    }
}

/// The parts joined with `"; "`.
pub open spec fn join_parts(parts: Seq<Seq<char>>) -> Seq<char>
    decreases parts.len(),
{
    if parts.len() == 0 {
        Seq::empty()
    } else if parts.len() == 1 {
        parts[0]
    } else {
        join_parts(parts.drop_last()) + "; "@ + parts.last()
    }
}

/// The explanation of a failed request's body: a fixed hint for an HTML
/// page; for a JSON error body the joined parts or else its message (at most
/// 400 characters); otherwise the body's first 200 characters.
pub open spec fn error_detail_spec(body: Seq<char>, parsed: Option<ErrorBodyView>) -> Seq<char> {
    let trimmed = trim_start_seq(body);
    if trimmed.len() > 0 && trimmed[0] == '<' {
        HTML_ERROR_HINT@
    } else {
        match parsed {
            Some(b) => {
                let fields = match b.errors {
                    Some(f) => f,
                    None => Seq::empty(),
                };
                let parts = error_parts(b.title, fields);
                if parts.len() > 0 {
                    take_seq(join_parts(parts), 400)
                } else {
                    match b.message {
                        Some(m) => take_seq(m, 400),
                        None => take_seq(body, 200),
                    }
                }
            },
            None => take_seq(body, 200),
        }
    }
}

/// Explain a failed request from its body: an HTML page gets a fixed hint;
/// otherwise the body, without leading whitespace, is read as a JSON error
/// body.
pub fn error_detail(body: &str) -> (r: String)
    ensures
        r@ == error_detail_spec(body@, json_error_view(parsed_json(trim_start_seq(body@)))),
{
    let chars = chars_of(body);
    let trimmed = trim_start_chars(&chars);
    if trimmed.len() > 0 && trimmed[0] == '<' {
        return explain_error(body, None);
    }
    let text = string_of(trimmed.as_slice());
    let parsed = parse_json(text.as_str());
    explain_json_error(body, parsed)
}

fn first_of(messages: &Option<Vec<Option<String>>>) -> (r: Option<&String>)
    ensures
        opt_text(match r {
            Some(s) => Some(*s),
            None => None,
        }) == first_message(messages_view(*messages)),
{
    match messages {
        Some(list) => if list.len() > 0 {
            match &list[0] {
                Some(m) => Some(m),
                None => None,
            }
        } else {
            None
        },
        None => None,
    }
}

/// Explain a failed request given what its body parsed to as a JSON error
/// body, if it did.
pub fn explain_error(body: &str, parsed: Option<ErrorBody>) -> (r: String)
    ensures
        r@ == error_detail_spec(body@, parsed_view(parsed)),
{
    let chars = chars_of(body);
    let trimmed = trim_start_chars(&chars);
    if trimmed.len() > 0 && trimmed[0] == '<' {
        proof {
            reveal_strlit("an HTML error page (the request was blocked before it reached the API)");
        }
        return string_of(chars_of(HTML_ERROR_HINT).as_slice());
    }
    match parsed {
        Some(b) => {
            let ghost v = body_view(b);
            let ghost fields = match v.errors {
                Some(f) => f,
                None => Seq::empty(),
            };
            let mut joined: Vec<char> = Vec::new();
            let mut any = false;
            if let Some(t) = &b.title {
                push_str(&mut joined, t.as_str());
                any = true;
            }
            proof {
                assert(fields.subrange(0, 0) =~= Seq::<(Seq<char>, Option<Seq<Option<Seq<char>>>>)>::empty());
            }
            let empty: Vec<(String, Option<Vec<Option<String>>>)> = Vec::new();
            let list = match &b.errors {
                Some(f) => f,
                None => &empty,
            };
            assert(list@.map_values(
                |e: (String, Option<Vec<Option<String>>>)| (e.0@, messages_view(e.1)),
            ) =~= fields);
            let mut k: usize = 0;
            while k < list.len()
                invariant
                    k <= list.len(),
                    v == body_view(b),
                    fields == list@.map_values(
                        |e: (String, Option<Vec<Option<String>>>)| (e.0@, messages_view(e.1)),
                    ),
                    fields.len() == list@.len(),
                    any == (error_parts(v.title, fields.subrange(0, k as int)).len() > 0),
                    joined@ == join_parts(error_parts(v.title, fields.subrange(0, k as int))),
                decreases list.len() - k,
            {
                let ghost pre = fields.subrange(0, k as int);
                assert(fields.subrange(0, k + 1).drop_last() =~= pre);
                let (field, messages) = &list[k];
                assert(fields[k as int] == (field@, messages_view(*messages)));
                if let Some(m) = first_of(messages) {
                    if any {
                        push_str(&mut joined, "; ");
                    }
                    push_str(&mut joined, field.as_str());
                    push_str(&mut joined, ": ");
                    push_str(&mut joined, m.as_str());
                    proof {
                        reveal_strlit("; ");
                        reveal_strlit(": ");
                        let prev = error_parts(v.title, pre);
                        let part = field@ + ": "@ + m@;
                        assert(error_parts(v.title, fields.subrange(0, k + 1)) == prev.push(part));
                        if any {
                            assert(prev.push(part).drop_last() =~= prev);
                            assert(joined@ =~= join_parts(prev) + "; "@ + part);
                        } else {
                            assert(joined@ =~= part);
                        }
                    }
                    any = true;
                }
                k += 1;
            }
            proof {
                assert(fields.subrange(0, k as int) =~= fields);
            }
            if any {
                return string_of(take_chars(&joined, 400).as_slice());
            }
            match &b.message {
                Some(m) => string_of(take_chars(&chars_of(m.as_str()), 400).as_slice()),
                None => string_of(take_chars(&chars, 200).as_slice()),
            }
        },
        None => string_of(take_chars(&chars, 200).as_slice()),
    }
}

} // verus!
