//! What holds of the wire format and of the client as a whole.

use crate::client::{event_step, reply_step, State, Step};
use crate::codec::{
    arguments, command_line, escape, escape_char, hex_digit, quoted, RawMessageView,
};
use crate::command::Command;
use crate::convert::FromValue;
use crate::error::ErrorCodeView;
use crate::event::Event;
use vstd::prelude::*;

verus! {

/// The value of a hexadecimal digit.
pub open spec fn hex_value(c: char) -> Option<int> {
    if '0' <= c && c <= '9' {
        Some(c as int - '0' as int)
    } else if 'a' <= c && c <= 'f' {
        Some(c as int - 'a' as int + 10)
    } else {
        None
    }
}

/// Reads the escape whose backslash stands at `at`: the character that it
/// stands for and the index behind it.
pub open spec fn read_escape(text: Seq<char>, at: int) -> Option<(char, int)> {
    if at + 1 >= text.len() {
        None
    } else if text[at + 1] == '"' {
        Some(('"', at + 2))
    } else if text[at + 1] == '\\' {
        Some(('\\', at + 2))
    } else if text[at + 1] == 'n' {
        Some(('\n', at + 2))
    } else if text[at + 1] == 'r' {
        Some(('\r', at + 2))
    } else if text[at + 1] == 't' {
        Some(('\t', at + 2))
    } else if text[at + 1] == 'b' {
        Some(('\u{8}', at + 2))
    } else if text[at + 1] == 'f' {
        Some(('\u{c}', at + 2))
    } else if text[at + 1] == 'u' && at + 5 < text.len() && text[at + 2] == '0' && text[at + 3]
        == '0' {
        match (hex_value(text[at + 4]), hex_value(text[at + 5])) {
            (Some(high), Some(low)) => Some((((16 * high + low) as u8) as char, at + 6)),
            _ => None,
        }
    } else {
        None
    }
}

/// Reads the inside of a JSON string from `at` up to its closing quotation
/// mark: the characters that it spells and the index behind the mark.
pub open spec fn read_chars(text: Seq<char>, at: int) -> Option<(Seq<char>, int)>
    decreases text.len() - at,
{
    if at < 0 || at >= text.len() {
        None
    } else if text[at] == '"' {
        Some((Seq::empty(), at + 1))
    } else if text[at] == '\\' {
        match read_escape(text, at) {
            Some((c, next)) => if next <= at {
                None
            } else {
                match read_chars(text, next) {
                    Some((rest, end)) => Some((seq![c] + rest, end)),
                    None => None,
                }
            },
            None => None,
        }
    } else if ' ' > text[at] {
        None
    } else {
        match read_chars(text, at + 1) {
            Some((rest, end)) => Some((seq![text[at]] + rest, end)),
            None => None,
        }
    }
}

/// Reads the arguments of a command from `at` to the end of the line.
pub open spec fn read_arguments(text: Seq<char>, at: int) -> Option<Seq<Seq<char>>>
    decreases text.len() - at,
{
    if at < 0 || at > text.len() {
        None
    } else if text.subrange(at, text.len() as int) == "]}\n"@ {
        Some(Seq::empty())
    } else if at + 3 <= text.len() && text.subrange(at, at + 3) == ", \""@ {
        match read_chars(text, at + 3) {
            Some((arg, next)) => if next <= at || next > text.len() {
                None
            } else {
                match read_arguments(text, next) {
                    Some(rest) => Some(seq![arg] + rest),
                    None => None,
                }
            },
            None => None,
        }
    } else {
        None
    }
}

/// Reads a command line back: the name and the arguments that it carries,
/// or nothing where the text is not of that form.
pub open spec fn read_command(line: Seq<char>) -> Option<(Seq<char>, Seq<Seq<char>>)> {
    let head = "{\"command\": [\""@;
    if head.len() <= line.len() && line.subrange(0, head.len() as int) == head {
        match read_chars(line, head.len() as int) {
            Some((name, next)) => match read_arguments(line, next) {
                Some(args) => Some((name, args)),
                None => None,
            },
            None => None,
        }
    } else {
        None
    }
}

/// An escaped text starts with the escape of its first character.
proof fn lemma_escape_front(text: Seq<char>)
    requires
        text.len() > 0,
    ensures
        escape(text) == escape_char(text[0]) + escape(text.drop_first()),
    decreases text.len(),
{
    if text.len() == 1 {
        assert(text.drop_last() =~= Seq::<char>::empty());
        assert(text.drop_first() =~= Seq::<char>::empty());
        assert(escape(text) =~= escape_char(text[0]) + escape(text.drop_first()));
    } else {
        lemma_escape_front(text.drop_last());
        assert(text.drop_last().drop_first() =~= text.drop_first().drop_last());
        assert(text.drop_first().last() == text.last());
        assert(text.drop_last()[0] == text[0]);
        assert(escape(text) =~= escape_char(text[0]) + escape(text.drop_first()));
    }
}

/// A digit written in base sixteen reads back as its value.
proof fn lemma_hex_round_trip(n: int)
    requires
        0 <= n < 16,
    ensures
        hex_value(hex_digit(n)) == Some(n),
{
}

/// The reader undoes the escape of one character.
proof fn lemma_read_escape_char(text: Seq<char>, at: int, c: char)
    requires
        0 <= at,
        at + escape_char(c).len() <= text.len(),
        forall|k: int| 0 <= k < escape_char(c).len() ==> text[at + k] == escape_char(c)[k],
        escape_char(c).len() > 1,
    ensures
        text[at] == '\\',
        read_escape(text, at) == Some((c, at + escape_char(c).len())),
{
    let e = escape_char(c);
    assert(text[at] == e[0]);
    assert(text[at + 1] == e[1]);
    if e.len() == 6 {
        let code = c as int;
        assert(text[at + 2] == e[2]);
        assert(text[at + 3] == e[3]);
        assert(text[at + 4] == e[4]);
        assert(text[at + 5] == e[5]);
        lemma_hex_round_trip(code / 16);
        lemma_hex_round_trip(code % 16);
        assert(16 * (code / 16) + code % 16 == code);
        assert(((code as u8) as char) == c);
    }
}

/// The reader undoes the writer on one string: behind any text, an escaped
/// string up to its closing quotation mark reads back as the string.
proof fn lemma_read_escaped(before: Seq<char>, content: Seq<char>, after: Seq<char>)
    ensures
        read_chars(before + escape(content) + seq!['"'] + after, before.len() as int) == Some(
            (content, (before.len() + escape(content).len() + 1) as int),
        ),
    decreases content.len(),
{
    let text = before + escape(content) + seq!['"'] + after;
    let at = before.len() as int;
    if content.len() == 0 {
        assert(escape(content) =~= Seq::<char>::empty());
        assert(text[at] == '"');
        assert(content =~= Seq::<char>::empty());
    } else {
        let c = content[0];
        let rest = content.drop_first();
        let e = escape_char(c);
        lemma_escape_front(content);
        assert(text =~= (before + e) + escape(rest) + seq!['"'] + after);
        lemma_read_escaped(before + e, rest, after);
        assert(forall|k: int| 0 <= k < e.len() ==> text[at + k] == e[k]);
        assert(seq![c] + rest =~= content);
        if e.len() > 1 {
            lemma_read_escape_char(text, at, c);
        } else {
            assert(text[at] == e[0]);
        }
    }
}

/// A list of arguments starts with its first argument.
proof fn lemma_arguments_front(args: Seq<Seq<char>>)
    requires
        args.len() > 0,
    ensures
        arguments(args) == ", "@ + quoted(args[0]) + arguments(args.drop_first()),
    decreases args.len(),
{
    if args.len() == 1 {
        assert(args.drop_last() =~= Seq::<Seq<char>>::empty());
        assert(args.drop_first() =~= Seq::<Seq<char>>::empty());
        assert(arguments(args) =~= ", "@ + quoted(args[0]) + arguments(args.drop_first()));
    } else {
        lemma_arguments_front(args.drop_last());
        assert(args.drop_last().drop_first() =~= args.drop_first().drop_last());
        assert(args.drop_first().last() == args.last());
        assert(args.drop_last()[0] == args[0]);
        assert(arguments(args) =~= ", "@ + quoted(args[0]) + arguments(args.drop_first()));
    }
}

/// The reader undoes the writer on the arguments: behind any text, a list
/// of arguments up to the end of the line reads back as the list.
proof fn lemma_read_written_arguments(before: Seq<char>, args: Seq<Seq<char>>)
    ensures
        read_arguments(before + arguments(args) + "]}\n"@, before.len() as int) == Some(args),
    decreases args.len(),
{
    reveal_strlit("]}\n");
    reveal_strlit(", \"");
    reveal_strlit(", ");
    let text = before + arguments(args) + "]}\n"@;
    let at = before.len() as int;
    if args.len() == 0 {
        assert(arguments(args) =~= Seq::<char>::empty());
        assert(text.subrange(at, text.len() as int) =~= "]}\n"@);
        assert(args =~= Seq::<Seq<char>>::empty());
    } else {
        let first = args[0];
        let rest = args.drop_first();
        lemma_arguments_front(args);
        let opening = before + ", \""@;
        assert(text =~= opening + escape(first) + seq!['"'] + (arguments(rest) + "]}\n"@));
        lemma_read_escaped(opening, first, arguments(rest) + "]}\n"@);
        let next = opening.len() + escape(first).len() + 1;
        assert(text =~= (before + ", "@ + quoted(first)) + arguments(rest) + "]}\n"@);
        lemma_read_written_arguments(before + ", "@ + quoted(first), rest);
        assert((before + ", "@ + quoted(first)).len() == next);
        assert(text.subrange(at, text.len() as int)[0] == ',');
        assert(text.subrange(at, at + 3) =~= ", \""@);
        assert(seq![first] + rest =~= args);
    }
}

/// Reading back a command line recovers the name and every argument,
/// character for character, whatever they hold: quotation marks,
/// backslashes and control characters included.
pub proof fn lemma_command_line_round_trip(name: Seq<char>, args: Seq<Seq<char>>)
    ensures
        read_command(command_line(name, args)) == Some((name, args)),
{
    reveal_strlit("{\"command\": [\"");
    reveal_strlit("{\"command\": [");
    reveal_strlit("]}\n");
    let line = command_line(name, args);
    let head = "{\"command\": [\""@;
    assert(head =~= "{\"command\": ["@ + seq!['"']);
    assert(line =~= head + escape(name) + seq!['"'] + (arguments(args) + "]}\n"@));
    lemma_read_escaped(head, name, arguments(args) + "]}\n"@);
    assert(line =~= ("{\"command\": ["@ + quoted(name)) + arguments(args) + "]}\n"@);
    lemma_read_written_arguments("{\"command\": ["@ + quoted(name), args);
    assert(line.subrange(0, head.len() as int) =~= head);
}

/// Whether a text is free of newlines.
pub open spec fn has_no_newline(text: Seq<char>) -> bool {
    forall|i: int| 0 <= i < text.len() ==> #[trigger] text[i] != '\n'
}

/// No escaped character holds a newline.
proof fn lemma_escape_char_has_no_newline(c: char)
    ensures
        has_no_newline(escape_char(c)),
{
    if ' ' > c {
        let code = c as int;
        assert(0 <= code / 16 < 16);
        assert(0 <= code % 16 < 16);
    }
}

/// No escaped text holds a newline.
proof fn lemma_escape_has_no_newline(text: Seq<char>)
    ensures
        has_no_newline(escape(text)),
    decreases text.len(),
{
    if text.len() > 0 {
        lemma_escape_has_no_newline(text.drop_last());
        let c = text.last();
        lemma_escape_char_has_no_newline(c);
    }
}

/// No list of arguments holds a newline.
proof fn lemma_arguments_have_no_newline(args: Seq<Seq<char>>)
    ensures
        has_no_newline(arguments(args)),
    decreases args.len(),
{
    reveal_strlit(", ");
    if args.len() > 0 {
        lemma_arguments_have_no_newline(args.drop_last());
        lemma_escape_has_no_newline(args.last());
    }
}

/// A command takes exactly one line, whatever its name and arguments hold:
/// the line ends in a newline and has no other.
pub proof fn lemma_command_line_is_one_line(name: Seq<char>, args: Seq<Seq<char>>)
    ensures
        command_line(name, args).len() > 0,
        command_line(name, args).last() == '\n',
        has_no_newline(command_line(name, args).drop_last()),
{
    reveal_strlit("{\"command\": [");
    reveal_strlit("]}\n");
    lemma_escape_has_no_newline(name);
    lemma_arguments_have_no_newline(args);
    let front = "{\"command\": ["@ + quoted(name) + arguments(args);
    assert(has_no_newline(front));
    assert(command_line(name, args).drop_last() =~= front + seq![']', '}']);
}

/// Two command lines are the same only if they carry the same name and the
/// same arguments: nothing of a command is lost on the wire.
pub proof fn lemma_command_line_injective(
    name: Seq<char>,
    args: Seq<Seq<char>>,
    other_name: Seq<char>,
    other_args: Seq<Seq<char>>,
)
    requires
        command_line(name, args) == command_line(other_name, other_args),
    ensures
        name == other_name,
        args == other_args,
{
    lemma_command_line_round_trip(name, args);
    lemma_command_line_round_trip(other_name, other_args);
}

/// The line that `encode` writes for a command reads back as the name and
/// the arguments of that command.
pub proof fn lemma_encode_round_trip(command: Command)
    ensures
        read_command(command_line(command.name_spec(), command.args_spec())) == Some(
            (command.name_spec(), command.args_spec()),
        ),
{
    lemma_command_line_round_trip(command.name_spec(), command.args_spec());
}

/// Disconnecting is idempotent: whatever the state, a second disconnect
/// finds the connection closed, asks for no shutdown and changes nothing.
/// The same holds where a transport failure came first.
pub proof fn lemma_disconnect_idempotent(state: State)
    ensures
        state.after_disconnect() is Closed,
        !state.after_disconnect().needs_shutdown(),
        state.after_disconnect().after_disconnect() == state.after_disconnect(),
        state.after_failure().after_disconnect() is Closed,
        state.after_disconnect().after_failure() is Closed,
{
}

/// While a command waits for its reply, no line is taken for an event: an
/// event line is dropped and the command goes on waiting, and only a reply
/// or a line that cannot be decoded ends the call.
pub proof fn lemma_command_takes_no_event<T: FromValue>(
    message: Result<RawMessageView, ErrorCodeView>,
    step: Step<T>,
    next: State,
)
    requires
        reply_step(State::AwaitingReply, message, step, next),
    ensures
        (message matches Ok(RawMessageView::Event(_))) ==> step is Skip && next is AwaitingReply,
        step is Done ==> !(message matches Ok(RawMessageView::Event(_))) && next is Ready,
        !(step is Send),
{
}

/// While a listener waits for an event, no reply is taken for one: a reply
/// line ends the call with `UnexpectedResult`, and the call never ends with
/// an event unless an event line came in.
pub proof fn lemma_listener_takes_no_reply(
    message: Result<RawMessageView, ErrorCodeView>,
    step: Step<Event>,
    next: State,
)
    requires
        event_step(State::AwaitingEvent, message, step, next),
    ensures
        (message matches Ok(RawMessageView::Reply(_))) ==> (step matches Step::Done(Err(error))
            && error@ == ErrorCodeView::UnexpectedResult),
        (step matches Step::Done(Ok(_))) ==> (message matches Ok(RawMessageView::Event(_))),
        step is Send ==> (message matches Ok(RawMessageView::Event(_))) && next
            is AwaitingPosition,
{
}

/// A line that is handed to a call of the other role, or to no call at all,
/// is refused and leaves the state as it was: a command takes lines only
/// while its reply is awaited, a listener only while an event or its
/// position is.
pub proof fn lemma_lines_go_to_the_call_in_flight<T: FromValue>(
    state: State,
    message: Result<RawMessageView, ErrorCodeView>,
    reply: Step<T>,
    after_reply: State,
    event: Step<Event>,
    after_event: State,
)
    requires
        reply_step(state, message, reply, after_reply),
        event_step(state, message, event, after_event),
    ensures
        !(state is AwaitingReply) ==> after_reply == state && (reply matches Step::Done(
            Err(error),
        ) && error@ == ErrorCodeView::UnexpectedResult),
        !(state is AwaitingEvent || state is AwaitingPosition) ==> after_event == state && (
        event matches Step::Done(Err(error)) && error@ == ErrorCodeView::UnexpectedResult),
{
}

/// Whether a message is an event.
pub open spec fn is_event(message: Result<RawMessageView, ErrorCodeView>) -> bool {
    message matches Ok(RawMessageView::Event(_))
}

/// Whether `steps` and `states` are what a command goes through that has
/// just been sent and is handed `messages`, one after the other.
pub open spec fn is_command_run<T: FromValue>(
    messages: Seq<Result<RawMessageView, ErrorCodeView>>,
    steps: Seq<Step<T>>,
    states: Seq<State>,
) -> bool {
    &&& steps.len() == messages.len()
    &&& states.len() == messages.len() + 1
    &&& states[0] is AwaitingReply
    &&& forall|i: int|
        0 <= i < messages.len() ==> reply_step(
            #[trigger] states[i],
            messages[i],
            steps[i],
            states[i + 1],
        )
}

/// In a run of a command, the reply is still awaited as long as only events
/// have come in.
proof fn lemma_command_waits<T: FromValue>(
    messages: Seq<Result<RawMessageView, ErrorCodeView>>,
    steps: Seq<Step<T>>,
    states: Seq<State>,
    n: int,
)
    requires
        is_command_run(messages, steps, states),
        0 <= n <= messages.len(),
        forall|i: int| 0 <= i < n ==> is_event(#[trigger] messages[i]),
    ensures
        states[n] is AwaitingReply,
        forall|i: int| 0 <= i < n ==> #[trigger] steps[i] is Skip,
    decreases n,
{
    if n > 0 {
        lemma_command_waits(messages, steps, states, n - 1);
        assert(reply_step(states[n - 1], messages[n - 1], steps[n - 1], states[n]));
        assert(is_event(messages[n - 1]));
    }
}

/// In a run of a command, once the call has ended every further line is
/// refused.
proof fn lemma_command_is_over<T: FromValue>(
    messages: Seq<Result<RawMessageView, ErrorCodeView>>,
    steps: Seq<Step<T>>,
    states: Seq<State>,
    k: int,
    n: int,
)
    requires
        is_command_run(messages, steps, states),
        0 <= k < n <= messages.len(),
        states[k + 1] is Ready,
    ensures
        states[n] is Ready,
        forall|i: int|
            k < i < n ==> (#[trigger] steps[i] matches Step::Done(Err(error)) && error@
                == ErrorCodeView::UnexpectedResult),
    decreases n - k,
{
    if n > k + 1 {
        lemma_command_is_over(messages, steps, states, k, n - 1);
        assert(reply_step(states[n - 1], messages[n - 1], steps[n - 1], states[n]));
    }
}

/// The first line that is no event ends the command, and it alone decides
/// the result: every event before it is dropped one by one while the command
/// goes on waiting, and no line after it is taken for the command.
pub proof fn lemma_first_reply_ends_the_command<T: FromValue>(
    messages: Seq<Result<RawMessageView, ErrorCodeView>>,
    steps: Seq<Step<T>>,
    states: Seq<State>,
    k: int,
)
    requires
        is_command_run(messages, steps, states),
        0 <= k < messages.len(),
        forall|i: int| 0 <= i < k ==> is_event(#[trigger] messages[i]),
        !is_event(messages[k]),
    ensures
        forall|i: int| 0 <= i < k ==> #[trigger] steps[i] is Skip,
        reply_step(State::AwaitingReply, messages[k], steps[k], State::Ready),
        steps[k] is Done,
        forall|i: int|
            k < i < messages.len() ==> (#[trigger] steps[i] matches Step::Done(Err(error))
                && error@ == ErrorCodeView::UnexpectedResult),
{
    lemma_command_waits(messages, steps, states, k);
    assert(reply_step(states[k], messages[k], steps[k], states[k + 1]));
    lemma_command_is_over(messages, steps, states, k, messages.len() as int);
}

} // verus!
