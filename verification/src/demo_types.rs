//! Events a user feeds into a demo flow run.
use vstd::prelude::*;

verus! {

/// An input event for the demo runner.
pub enum UserEvent {
    /// An adaptive card was submitted through `action_id` with `fields`
    /// (member name and JSON text of its value, in order).
    CardSubmit { action_id: String, fields: Vec<(String, String)> },
    /// A raw event, by its JSON text.
    Raw(String),
}

/// A hexadecimal digit, in lower case.
pub open spec fn hex_digit(n: int) -> char {
    if n < 10 { (('0' as int) + n) as char } else { (('a' as int) + n - 10) as char }
}

/// How a character stands inside a JSON string: `"` and `\` behind a
/// backslash, the usual short escapes for backspace, form feed, line feed,
/// carriage return and tab, other control characters as `\u00XX` in lower
/// case hexadecimal, anything else as it is.
pub open spec fn escaped_char(c: char) -> Seq<char> {
    if c == '"' {
        seq!['\\', '"']
    } else if c == '\\' {
        seq!['\\', '\\']
    } else if c == '\u{8}' {
        seq!['\\', 'b']
    } else if c == '\u{c}' {
        seq!['\\', 'f']
    } else if c == '\n' {
        seq!['\\', 'n']
    } else if c == '\r' {
        seq!['\\', 'r']
    } else if c == '\t' {
        seq!['\\', 't']
    } else if (c as u32) < 0x20 {
        seq!['\\', 'u', '0', '0', hex_digit((c as int) / 16), hex_digit((c as int) % 16)]
    } else {
        seq![c]
    }
}

/// The characters of `s`, each as it stands inside a JSON string.
pub open spec fn escaped(s: Seq<char>) -> Seq<char>
    decreases s.len(),
{
    if s.len() == 0 { Seq::empty() } else { escaped(s.drop_last()) + escaped_char(s.last()) }
}

/// The JSON text of the string `s`: its escaped characters between quotes.
pub open spec fn json_string_text(s: Seq<char>) -> Seq<char> {
    seq!['"'] + escaped(s) + seq!['"']
}

/// Quotes `s` as a JSON string with `serde_json::to_string`. Claims that the
/// result is `json_string_text` of `s`, as the escape table and
/// `write_char_escape` of `serde_json::ser` show; serialising a `&str`
/// cannot fail.
#[verifier::external_body]
pub(crate) fn json_quote(s: &str) -> (r: String)
    ensures r@ == json_string_text(s@),
{
    serde_json::to_string(s).unwrap_or_default()
}

/// The JSON text of an object with the members of `fields`, in order.
pub open spec fn object_text(fields: Seq<(String, String)>, n: int) -> Seq<char>
    decreases n,
{
    if n <= 0 {
        "{"@
    } else {
        object_text(fields, n - 1) + (if n > 1 { ","@ } else { Seq::empty() })
            + json_string_text(fields[n - 1].0@) + ":"@ + fields[n - 1].1@
    }
}

pub open spec fn event_text(e: UserEvent) -> Seq<char> {
    match e {
        UserEvent::CardSubmit { action_id, fields } => "{\"action_id\":"@ + json_string_text(action_id@)
            + ",\"inputs\":"@ + object_text(fields@, fields@.len() as int) + "}"@ + "}"@,
        UserEvent::Raw(v) => v@,
    }
}

impl UserEvent {
    /// A card submission.
    pub fn card_submit(action_id: String, fields: Vec<(String, String)>) -> (r: Self)
        ensures r == (UserEvent::CardSubmit { action_id, fields }),
    {
        UserEvent::CardSubmit { action_id, fields }
    }

    /// A raw event.
    pub fn raw(value: String) -> (r: Self)
        ensures r == UserEvent::Raw(value),
    {
        UserEvent::Raw(value)
    }

    /// The JSON text handed to the flow: `{"action_id": …, "inputs": {…}}`
    /// for a card submission, the raw event as it is otherwise.
    pub fn into_value(self) -> (r: String)
        ensures r@ == event_text(self),
    {
        match self {
            UserEvent::CardSubmit { action_id, fields } => {
                let mut r = String::new();
                r.append("{\"action_id\":");
                let q = json_quote(action_id.as_str());
                r.append(q.as_str());
                r.append(",\"inputs\":");
                let ghost head = r@;
                r.append("{");
                let mut i: usize = 0;
                while i < fields.len()
                    invariant
                        i <= fields@.len(),
                        r@ == head + object_text(fields@, i as int),
                    decreases fields.len() - i,
                {
                    if i > 0 {
                        r.append(",");
                    }
                    let k = json_quote(fields[i].0.as_str());
                    r.append(k.as_str());
                    r.append(":");
                    r.append(fields[i].1.as_str());
                    i = i + 1;
                    assert(r@ =~= head + object_text(fields@, i as int));
                }
                r.append("}");
                r.append("}");
                r
            },
            UserEvent::Raw(value) => value,
        }
    }
}

} // verus!
