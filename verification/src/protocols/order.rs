//! What an order's child process says on its standard output: one JSON
//! object per line, told apart by its `type`.

use crate::json::{
    object_insert, object_remove, object_text, parse_object, spec_json_integer, spec_json_object,
    spec_json_string, spec_object_entries, spec_object_text, spec_value_text, value_as_i64,
    value_as_str, value_text,
};
use crate::text::{spec_signed_decimal, spec_utf8};
use vstd::prelude::*;

verus! {

/// The compact JSON text of `null`.
pub open spec fn spec_null_text() -> Seq<u8> {
    seq![110u8, 117u8, 108u8, 108u8]
}

/// The text of a value that may be missing; a missing value counts as `null`.
pub open spec fn spec_text_or_null(value: Option<serde_json::Value>) -> Seq<u8> {
    match value {
        Some(v) => spec_value_text(v),
        None => spec_null_text(),
    }
}

/// The text under `key`, `null` if the object has no such key.
pub open spec fn spec_field(entries: Map<Seq<char>, Seq<u8>>, key: Seq<char>) -> Seq<u8> {
    if entries.dom().contains(key) {
        entries[key]
    } else {
        spec_null_text()
    }
}

/// The order is done. `data` and `error` are results to hand on unless they
/// are `null`; `others` holds every other field of the message.
#[derive(Debug)]
pub struct Complete {
    pub data: Option<serde_json::Value>,
    pub error: Option<serde_json::Value>,
    pub others: serde_json::Map<String, serde_json::Value>,
}

/// Interim data of the order.
#[derive(Debug)]
pub struct Update {
    pub data: Option<serde_json::Value>,
}

/// How far the order has come.
#[derive(Clone, Copy, Debug, PartialEq, Eq, Structural)]
pub struct Progress {
    pub numerator: isize,
    pub denominator: isize,
}

/// A line for the worker's own standard error.
#[derive(Clone, Debug)]
pub struct Print {
    pub content: String,
}

/// One message of the child process.
#[derive(Debug)]
pub enum Message {
    Complete(Complete),
    Update(Update),
    Progress(Progress),
    Print(Print),
}

/// What a `Message` holds: JSON values by their compact text, objects by
/// their entries.
pub enum MessageView {
    Complete { data: Seq<u8>, error: Seq<u8>, others: Map<Seq<char>, Seq<u8>> },
    Update { data: Seq<u8> },
    Progress { numerator: int, denominator: int },
    Print { content: Seq<char> },
}

impl View for Message {
    type V = MessageView;

    open spec fn view(&self) -> MessageView {
        match *self {
            Message::Complete(c) => MessageView::Complete {
                data: spec_text_or_null(c.data),
                error: spec_text_or_null(c.error),
                others: spec_object_entries(c.others),
            },
            Message::Update(u) => MessageView::Update { data: spec_text_or_null(u.data) },
            Message::Progress(p) => MessageView::Progress {
                numerator: p.numerator as int,
                denominator: p.denominator as int,
            },
            Message::Print(p) => MessageView::Print { content: p.content@ },
        }
    }
}

/// The integer under `key`, if the object has one there that `isize` holds.
pub open spec fn spec_integer_field(entries: Map<Seq<char>, Seq<u8>>, key: Seq<char>) -> Option<
    int,
> {
    if entries.dom().contains(key) {
        match spec_json_integer(entries[key]) {
            Some(n) => if isize::MIN <= n <= isize::MAX {
                Some(n as int)
            } else {
                None
            },
            None => None,
        }
    } else {
        None
    }
}

/// The message that an object is, by its `type`:
/// `complete` with `data`, `error` and any other fields; `update` with
/// `data`; `progress` with the integers `numerator` and `denominator`;
/// `print` with the string `content`. A missing `data` or `error` counts as
/// `null`. Anything else is no message.
pub open spec fn spec_message(entries: Map<Seq<char>, Seq<u8>>) -> Option<MessageView> {
    if !entries.dom().contains("type"@) {
        None
    } else {
        match spec_json_string(entries["type"@]) {
            None => None,
            Some(tag) => if tag == "complete"@ {
                Some(
                    MessageView::Complete {
                        data: spec_field(entries, "data"@),
                        error: spec_field(entries, "error"@),
                        others: entries.remove("type"@).remove("data"@).remove("error"@),
                    },
                )
            } else if tag == "update"@ {
                Some(MessageView::Update { data: spec_field(entries, "data"@) })
            } else if tag == "progress"@ {
                match (
                    spec_integer_field(entries, "numerator"@),
                    spec_integer_field(entries, "denominator"@),
                ) {
                    (Some(numerator), Some(denominator)) => Some(
                        MessageView::Progress { numerator, denominator },
                    ),
                    _ => None,
                }
            } else if tag == "print"@ {
                if entries.dom().contains("content"@) {
                    match spec_json_string(entries["content"@]) {
                        Some(content) => Some(MessageView::Print { content }),
                        None => None,
                    }
                } else {
                    None
                }
            } else {
                None
            },
        }
    }
}

/// The message that a line of the child's output is, if it is one: the line
/// has to be a JSON object, and the object a message.
pub open spec fn spec_parse_line(line: Seq<char>) -> Option<MessageView> {
    match spec_json_object(line) {
        Some(entries) => spec_message(entries),
        None => None,
    }
}

/// The entries of the object that reports a completion: the other fields,
/// with `data` and `error` put back among them unless they are `null`.
pub open spec fn spec_complete_entries(
    data: Seq<u8>,
    error: Seq<u8>,
    others: Map<Seq<char>, Seq<u8>>,
) -> Map<Seq<char>, Seq<u8>> {
    let with_data = if data != spec_null_text() {
        others.insert("data"@, data)
    } else {
        others
    };
    if error != spec_null_text() {
        with_data.insert("error"@, error)
    } else {
        with_data
    }
}

/// Whether `text` is the compact JSON text of `null`.
pub fn is_null_text(text: &Vec<u8>) -> (null: bool)
    ensures
        null == (text@ == spec_null_text()),
{
    let null = text.len() == 4 && text[0] == 110 && text[1] == 117 && text[2] == 108 && text[3]
        == 108;
    assert(null == (text@ =~= spec_null_text()));
    null
}

/// Whether `s` reads `literal`.
fn reads(s: &String, literal: &str) -> (same: bool)
    ensures
        same == (s@ == literal@),
{
    let owned = literal.to_owned();
    *s == owned
}

/// The integer under `key`, taken out of the object, if it is one that
/// `isize` holds.
fn take_integer(object: &mut serde_json::Map<String, serde_json::Value>, key: &str) -> (n: Option<
    isize,
>)
    ensures
        match n {
            Some(n) => spec_integer_field(spec_object_entries(*old(object)), key@) == Some(
                n as int,
            ),
            None => spec_integer_field(spec_object_entries(*old(object)), key@) is None,
        },
        n matches Some(i) ==> spec_object_entries(*old(object))[key@] == spec_utf8(
            spec_signed_decimal(i as int),
        ),
        spec_object_entries(*final(object)) == spec_object_entries(*old(object)).remove(key@),
{
    match object_remove(object, key) {
        Some(value) => match value_as_i64(&value) {
            Some(n) => if n >= isize::MIN as i64 && n <= isize::MAX as i64 {
                Some(n as isize)
            } else {
                None
            },
            None => None,
        },
        None => None,
    }
}

impl Complete {
    /// The body of the completion report: the JSON object of the other
    /// fields, with `data` and `error` put back among them unless they are
    /// `null`.
    pub fn body(self) -> (body: Vec<u8>)
        ensures
            body@ == spec_object_text(
                spec_complete_entries(
                    spec_text_or_null(self.data),
                    spec_text_or_null(self.error),
                    spec_object_entries(self.others),
                ),
            ),
    {
        let Complete { data, error, others } = self;
        let mut merged = others;
        match data {
            Some(value) => {
                let text = value_text(&value);
                if !is_null_text(&text) {
                    object_insert(&mut merged, "data".to_owned(), value);
                }
            },
            None => {},
        }
        match error {
            Some(value) => {
                let text = value_text(&value);
                if !is_null_text(&text) {
                    object_insert(&mut merged, "error".to_owned(), value);
                }
            },
            None => {},
        }
        object_text(&merged)
    }
}

impl Update {
    /// The body of the data report: the JSON text of `data`.
    pub fn body(self) -> (body: Vec<u8>)
        ensures
            body@ == spec_text_or_null(self.data),
    {
        match self.data {
            Some(value) => value_text(&value),
            None => {
                let text = vec![110u8, 117u8, 108u8, 108u8];
                assert(text@ =~= spec_null_text());
                text
            },
        }
    }
}

/// Whether a message that reports progress gives the two numbers as the
/// object has them written: in decimal.
pub open spec fn spec_progress_as_written(
    entries: Map<Seq<char>, Seq<u8>>,
    message: Option<Message>,
) -> bool {
    message matches Some(Message::Progress(p)) ==> {
        &&& entries["numerator"@] == spec_utf8(spec_signed_decimal(p.numerator as int))
        &&& entries["denominator"@] == spec_utf8(spec_signed_decimal(p.denominator as int))
    }
}

impl Message {
    /// The message that a JSON object is, by its `type`. `None` means that
    /// the object is no message: it has no `type` that is a string, its type
    /// is none of the four, or it lacks a field that its type needs.
    pub fn from_object(object: serde_json::Map<String, serde_json::Value>) -> (message: Option<
        Message,
    >)
        ensures
            match message {
                Some(m) => spec_message(spec_object_entries(object)) == Some(m@),
                None => spec_message(spec_object_entries(object)) is None,
            },
            spec_progress_as_written(spec_object_entries(object), message),
    {
        let mut rest = object;
        let tag = match object_remove(&mut rest, "type") {
            Some(value) => match value_as_str(&value) {
                Some(tag) => tag,
                None => {
                    return None;
                },
            },
            None => {
                return None;
            },
        };
        proof {
            lemma_keys_differ();
        }
        if reads(&tag, "complete") {
            let data = object_remove(&mut rest, "data");
            let error = object_remove(&mut rest, "error");
            Some(Message::Complete(Complete { data, error, others: rest }))
        } else if reads(&tag, "update") {
            let data = object_remove(&mut rest, "data");
            Some(Message::Update(Update { data }))
        } else if reads(&tag, "progress") {
            let numerator = take_integer(&mut rest, "numerator");
            let denominator = take_integer(&mut rest, "denominator");
            match (numerator, denominator) {
                (Some(numerator), Some(denominator)) => Some(
                    Message::Progress(Progress { numerator, denominator }),
                ),
                _ => None,
            }
        } else if reads(&tag, "print") {
            match object_remove(&mut rest, "content") {
                Some(value) => match value_as_str(&value) {
                    Some(content) => Some(Message::Print(Print { content })),
                    None => None,
                },
                None => None,
            }
        } else {
            None
        }
    }

    /// Reads one line of the child's output. `None` means that the line is no
    /// message: not a JSON object, or an object that is no message.
    pub fn parse(line: &str) -> (parsed: Option<Message>)
        ensures
            match parsed {
                Some(message) => spec_parse_line(line@) == Some(message@),
                None => spec_parse_line(line@) is None,
            },
            parsed is Some ==> spec_json_object(line@) is Some && spec_progress_as_written(
                spec_json_object(line@).unwrap(),
                parsed,
            ),
    {
        match parse_object(line) {
            Some(object) => Message::from_object(object),
            None => None,
        }
    }
}

/// The keys that a message is read by are all different.
proof fn lemma_keys_differ()
    ensures
        "type"@ != "data"@,
        "type"@ != "error"@,
        "data"@ != "error"@,
        "type"@ != "numerator"@,
        "type"@ != "denominator"@,
        "numerator"@ != "denominator"@,
        "type"@ != "content"@,
{
    reveal_strlit("type");
    reveal_strlit("data");
    reveal_strlit("error");
    reveal_strlit("numerator");
    reveal_strlit("denominator");
    reveal_strlit("content");
    assert("type"@[0] == 't');
    assert("data"@[0] == 'd');
    assert("error"@[0] == 'e');
    assert("numerator"@[0] == 'n');
    assert("denominator"@[0] == 'd');
    assert("content"@[0] == 'c');
}

} // verus!
