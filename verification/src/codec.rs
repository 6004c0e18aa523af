//! The wire format: one JSON value per line.

use crate::command::Command;
use crate::error::{ErrorCode, ErrorCodeView};
use crate::json::{
    items_view, json_parse, lemma_array_view, lemma_object_view, members_view, parse, Json,
    JsonView,
};
use vstd::prelude::*;
use vstd::string::StrSliceExecFns;
use vstd::string::StringExecFns;

verus! {

/// `String::push` appends one character.
pub assume_specification[ std::string::String::push ](text: &mut std::string::String, c: char)
    ensures
        final(text)@ == old(text)@.push(c),
;

/// The digit of value `n` in base sixteen, in lower case.
pub open spec fn hex_digit(n: int) -> char {
    seq!['0', '1', '2', '3', '4', '5', '6', '7', '8', '9', 'a', 'b', 'c', 'd', 'e', 'f'][n]
}

/// How one character stands inside a JSON string: a quotation mark and a
/// backslash behind a backslash, a control character by its short name or
/// its code point in four hexadecimal digits, any other character as it is.
pub open spec fn escape_char(c: char) -> Seq<char> {
    if c == '"' {
        seq!['\\', '"']
    } else if c == '\\' {
        seq!['\\', '\\']
    } else if c == '\n' {
        seq!['\\', 'n']
    } else if c == '\r' {
        seq!['\\', 'r']
    } else if c == '\t' {
        seq!['\\', 't']
    } else if c == '\u{8}' {
        seq!['\\', 'b']
    } else if c == '\u{c}' {
        seq!['\\', 'f']
    } else if ' ' > c {
        seq!['\\', 'u', '0', '0', hex_digit(c as int / 16), hex_digit(c as int % 16)]
    } else {
        seq![c]
    }
}

/// The characters of `text`, each escaped, in order.
pub open spec fn escape(text: Seq<char>) -> Seq<char>
    decreases text.len(),
{
    if text.len() == 0 {
        Seq::empty()
    } else {
        escape(text.drop_last()) + escape_char(text.last())
    }
}

/// `text` as a JSON string: escaped, between quotation marks.
pub open spec fn quoted(text: Seq<char>) -> Seq<char> {
    seq!['"'] + escape(text) + seq!['"']
}

/// The arguments of a command as they follow its name in the array: each
/// behind a comma and a space.
pub open spec fn arguments(args: Seq<Seq<char>>) -> Seq<char>
    decreases args.len(),
{
    if args.len() == 0 {
        Seq::empty()
    } else {
        arguments(args.drop_last()) + ", "@ + quoted(args.last())
    }
}

/// The line that carries a command: an object with the one member
/// `command`, an array of the name and the arguments as strings, and a
/// newline.
pub open spec fn command_line(name: Seq<char>, args: Seq<Seq<char>>) -> Seq<char> {
    "{\"command\": ["@ + quoted(name) + arguments(args) + "]}\n"@
}

/// The hexadecimal digit of a value below sixteen.
fn hex_char(n: u32) -> (c: char)
    requires
        n < 16,
    ensures
        c == hex_digit(n as int),
{
    match n {
        0 => '0',
        1 => '1',
        2 => '2',
        3 => '3',
        4 => '4',
        5 => '5',
        6 => '6',
        7 => '7',
        8 => '8',
        9 => '9',
        10 => 'a',
        11 => 'b',
        12 => 'c',
        13 => 'd',
        14 => 'e',
        _ => 'f',
    }
}

/// Appends one character in its escaped form.
fn push_escaped(out: &mut String, c: char)
    ensures
        final(out)@ == old(out)@ + escape_char(c),
{
    if c == '"' {
        out.push('\\');
        out.push('"');
    } else if c == '\\' {
        out.push('\\');
        out.push('\\');
    } else if c == '\n' {
        out.push('\\');
        out.push('n');
    } else if c == '\r' {
        out.push('\\');
        out.push('r');
    } else if c == '\t' {
        out.push('\\');
        out.push('t');
    } else if c == '\u{8}' {
        out.push('\\');
        out.push('b');
    } else if c == '\u{c}' {
        out.push('\\');
        out.push('f');
    } else if ' ' > c {
        let code = c as u32;
        out.push('\\');
        out.push('u');
        out.push('0');
        out.push('0');
        out.push(hex_char(code / 16));
        out.push(hex_char(code % 16));
    } else {
        out.push(c);
    }
    assert(out@ =~= old(out)@ + escape_char(c));
}

/// Appends `text` as a JSON string.
fn push_quoted(out: &mut String, text: &str)
    ensures
        final(out)@ == old(out)@ + quoted(text@),
{
    out.push('"');
    let chars = text.chars();
    for c in it: chars
        invariant
            it.seq() == text@,
            out@ == old(out)@ + seq!['"'] + escape(text@.take(it.index())),
    {
        proof {
            let i = it.index();
            assert(text@.take(i + 1).drop_last() == text@.take(i));
            assert(text@.take(i + 1).last() == c);
        }
        push_escaped(out, c);
    }
    out.push('"');
    proof {
        assert(text@.take(text@.len() as int) == text@);
        assert(out@ =~= old(out)@ + quoted(text@));
    }
}

/// Writes a command as the line to send.
pub fn encode(command: &Command) -> (line: String)
    ensures
        line@ == command_line(command.name_spec(), command.args_spec()),
{
    let mut line = String::from_str("{\"command\": [");
    push_quoted(&mut line, command.name());
    let args = command.args();
    let ghost texts = command.args_spec();
    let mut i: usize = 0;
    while i < args.len()
        invariant
            i <= args.len(),
            texts == crate::command::slice_texts(args@),
            line@ == "{\"command\": ["@ + quoted(command.name_spec()) + arguments(
                texts.take(i as int),
            ),
        decreases args.len() - i,
    {
        line.append(", ");
        push_quoted(&mut line, args[i]);
        proof {
            assert(texts.take(i + 1).drop_last() == texts.take(i as int));
            assert(texts.take(i + 1).last() == args@[i as int]@);
        }
        i += 1;
    }
    line.append("]}\n");
    proof {
        assert(texts.take(args.len() as int) == texts);
    }
    line
}

/// A document as JSON text, without any white space: `null`, `true` and
/// `false` by name, a number as its literal, a string quoted, an array
/// between square brackets and an object between braces.
pub open spec fn json_text(value: JsonView) -> Seq<char>
    decreases value, 0nat,
{
    match value {
        JsonView::Null => "null"@,
        JsonView::Bool(b) => if b {
            "true"@
        } else {
            "false"@
        },
        JsonView::Number(literal) => literal,
        JsonView::String(text) => quoted(text),
        JsonView::Array(items) => seq!['['] + items_text(items, items.len()) + seq![']'],
        JsonView::Object(members) => seq!['{'] + members_text(members, members.len()) + seq!['}'],
    }
}

/// The first `n` items of an array as JSON text, with a comma between each
/// two.
pub open spec fn items_text(items: Seq<JsonView>, n: nat) -> Seq<char>
    decreases items, n,
{
    if n == 0 || n > items.len() {
        Seq::empty()
    } else if n == 1 {
        json_text(items[0])
    } else {
        items_text(items, (n - 1) as nat) + seq![','] + json_text(items[n - 1])
    }
}

/// The first `n` members of an object as JSON text, each as its quoted key,
/// a colon and its value, with a comma between each two.
pub open spec fn members_text(members: Seq<(Seq<char>, JsonView)>, n: nat) -> Seq<char>
    decreases members, n,
{
    if n == 0 || n > members.len() {
        Seq::empty()
    } else if n == 1 {
        quoted(members[0].0) + seq![':'] + json_text(members[0].1)
    } else {
        members_text(members, (n - 1) as nat) + seq![','] + quoted(members[n - 1].0) + seq![':']
            + json_text(members[n - 1].1)
    }
}

/// Appends a document as JSON text.
fn push_json(out: &mut String, value: &Json)
    ensures
        final(out)@ == old(out)@ + json_text(value@),
    decreases value, 0nat,
{
    match value {
        Json::Null => {
            out.append("null");
        },
        Json::Bool(b) => {
            if *b {
                out.append("true");
            } else {
                out.append("false");
            }
        },
        Json::Number(literal) => {
            out.append(literal.as_str());
        },
        Json::String(text) => {
            push_quoted(out, text.as_str());
        },
        Json::Array(items) => {
            proof {
                lemma_array_view(*items);
            }
            push_array(out, items);
        },
        Json::Object(members) => {
            proof {
                lemma_object_view(*members);
            }
            push_object(out, members);
        },
    }
}

/// Appends a list of documents as a JSON array.
fn push_array(out: &mut String, items: &Vec<Json>)
    ensures
        final(out)@ == old(out)@ + json_text(JsonView::Array(items_view(items@))),
    decreases items, 1nat,
{
    let ghost start = out@;
    let ghost all = items_view(items@);
    out.push('[');
    let mut i: usize = 0;
    while i < items.len()
        invariant
            all == items_view(items@),
            i <= items.len(),
            out@ == start + seq!['['] + items_text(all, i as nat),
        decreases items.len() - i,
    {
        if i > 0 {
            out.push(',');
        }
        push_json(out, &items[i]);
        i += 1;
        assert(out@ =~= start + seq!['['] + items_text(all, i as nat));
    }
    out.push(']');
    assert(out@ =~= start + json_text(JsonView::Array(all)));
}

/// Appends a list of members as a JSON object.
fn push_object(out: &mut String, members: &Vec<(String, Json)>)
    ensures
        final(out)@ == old(out)@ + json_text(JsonView::Object(members_view(members@))),
    decreases members, 1nat,
{
    let ghost start = out@;
    let ghost all = members_view(members@);
    out.push('{');
    let mut i: usize = 0;
    while i < members.len()
        invariant
            all == members_view(members@),
            i <= members.len(),
            out@ == start + seq!['{'] + members_text(all, i as nat),
        decreases members.len() - i,
    {
        if i > 0 {
            out.push(',');
        }
        push_quoted(out, members[i].0.as_str());
        out.push(':');
        proof {
            assert(decreases_to!(members => members[i as int]));
            assert(decreases_to!(members[i as int] => members[i as int].1));
        }
        push_json(out, &members[i].1);
        i += 1;
        assert(out@ =~= start + seq!['{'] + members_text(all, i as nat));
    }
    out.push('}');
    assert(out@ =~= start + json_text(JsonView::Object(all)));
}

/// Writes a list of documents as a JSON array.
pub fn array_text(items: &Vec<Json>) -> (text: String)
    ensures
        text@ == json_text(JsonView::Array(items_view(items@))),
{
    let mut text = String::new();
    push_array(&mut text, items);
    text
}

/// Writes a list of members as a JSON object.
pub fn object_text(members: &Vec<(String, Json)>) -> (text: String)
    ensures
        text@ == json_text(JsonView::Object(members_view(members@))),
{
    let mut text = String::new();
    push_object(&mut text, members);
    text
}

/// Writes a document as JSON text.
pub fn to_text(value: &Json) -> (text: String)
    ensures
        text@ == json_text(value@),
{
    let mut text = String::new();
    push_json(&mut text, value);
    text
}

/// A line as it is read from the stream, without the newline that ends it.
pub open spec fn line_content(raw: Seq<char>) -> Seq<char> {
    if raw.len() > 0 && raw.last() == '\n' {
        raw.drop_last()
    } else {
        raw
    }
}

/// Takes the terminator off a line that was read up to and including it.
pub fn strip_terminator(raw: &str) -> (line: &str)
    ensures
        line@ == line_content(raw@),
{
    let len = raw.unicode_len();
    if len > 0 && raw.get_char(len - 1) == '\n' {
        raw.substring_char(0, len - 1)
    } else {
        raw
    }
}

/// An incoming line, decoded and told apart by what it answers to.
#[derive(Debug, PartialEq, Eq)]
pub enum RawMessage {
    /// The answer to a command: an object with a member `error`.
    Reply(Json),
    /// A notification that the player sent on its own: an object with a
    /// member `event` and none called `error`.
    Event(Json),
}

/// The mathematical value of a [`RawMessage`].
pub enum RawMessageView {
    Reply(JsonView),
    Event(JsonView),
}

impl View for RawMessage {
    type V = RawMessageView;

    open spec fn view(&self) -> RawMessageView {
        match self {
            RawMessage::Reply(value) => RawMessageView::Reply(value@),
            RawMessage::Event(value) => RawMessageView::Event(value@),
        }
    }
}

/// A decoding outcome with both sides taken by their views.
pub open spec fn decoded_view(decoded: Result<RawMessage, ErrorCode>) -> Result<
    RawMessageView,
    ErrorCodeView,
> {
    match decoded {
        Ok(message) => Ok(message@),
        Err(error) => Err(error@),
    }
}

/// A parsing outcome with both sides taken by their views.
pub open spec fn parsed_view(parsed: Result<Json, String>) -> Result<JsonView, Seq<char>> {
    match parsed {
        Ok(value) => Ok(value@),
        Err(message) => Err(message@),
    }
}

/// What a document is: a reply if it is an object with a member `error`,
/// else an event if it is an object with a member `event`, else nothing that
/// the protocol knows.
pub open spec fn classify_spec(value: JsonView) -> Result<RawMessageView, ErrorCodeView> {
    if value.has("error"@) {
        Ok(RawMessageView::Reply(value))
    } else if value.has("event"@) {
        Ok(RawMessageView::Event(value))
    } else {
        Err(ErrorCodeView::UnexpectedResult)
    }
}

/// What a line is, given what the parser made of it: a text that is no JSON
/// is a parse error with the parser's message, a document is classified.
pub open spec fn decode_spec(parsed: Result<JsonView, Seq<char>>) -> Result<
    RawMessageView,
    ErrorCodeView,
> {
    match parsed {
        Ok(value) => classify_spec(value),
        Err(message) => Err(ErrorCodeView::JsonParseError(message)),
    }
}

/// Tells a reply from an event.
pub fn classify(value: Json) -> (message: Result<RawMessage, ErrorCode>)
    ensures
        decoded_view(message) == classify_spec(value@),
{
    if value.get("error").is_some() {
        Ok(RawMessage::Reply(value))
    } else if value.get("event").is_some() {
        Ok(RawMessage::Event(value))
    } else {
        Err(ErrorCode::UnexpectedResult)
    }
}

/// Decodes a line of which the parser's outcome is at hand.
pub fn decode_parsed(parsed: Result<Json, String>) -> (message: Result<RawMessage, ErrorCode>)
    ensures
        decoded_view(message) == decode_spec(parsed_view(parsed)),
{
    match parsed {
        Ok(value) => classify(value),
        Err(text) => Err(ErrorCode::JsonParseError(text)),
    }
}

/// Decodes one incoming line.
pub fn decode(line: &str) -> (message: Result<RawMessage, ErrorCode>)
    ensures
        decoded_view(message) == decode_spec(json_parse(line@)),
{
    decode_parsed(parse(line))
}

} // verus!
