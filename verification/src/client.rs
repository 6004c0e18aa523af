//! The client as a state machine: it is told what came in and says what to
//! do next. Whoever owns the stream writes and reads for it.

use crate::codec::{
    command_line, decode_parsed, decode_spec, encode, parsed_view, RawMessage, RawMessageView,
};
use crate::command::Command;
use crate::convert::FromValue;
use crate::error::{ErrorCode, ErrorCodeView};
use crate::event::{Event, EventKind};
use crate::json::{json_parse, parse, Json, JsonView};
use crate::number::{is_number, Number};
use vstd::prelude::*;
use vstd::string::StringExecFns;

verus! {

/// What a reply says about its command.
pub enum ReplyStatus {
    /// The command succeeded; the payload is the member `data`, or null
    /// where the reply has none.
    Success(JsonView),
    /// The player refused the command and names the reason.
    Failure(Seq<char>),
    /// The member `error` is missing or is no string.
    Malformed,
}

/// Reads the member `error` of a reply: `success` is success, any other
/// string is the player's own error, anything else breaks the protocol.
pub open spec fn reply_status(reply: JsonView) -> ReplyStatus {
    match reply.field("error"@) {
        Some(JsonView::String(status)) => if status == "success"@ {
            ReplyStatus::Success(
                match reply.field("data"@) {
                    Some(payload) => payload,
                    None => JsonView::Null,
                },
            )
        } else {
            ReplyStatus::Failure(status)
        },
        _ => ReplyStatus::Malformed,
    }
}

/// Whether `outcome` is what `reply` gives to a caller who expects a `T`.
pub open spec fn reply_outcome<T: FromValue>(
    reply: JsonView,
    outcome: Result<T, ErrorCode>,
) -> bool {
    match reply_status(reply) {
        ReplyStatus::Success(payload) => match outcome {
            Ok(result) => T::accepts(payload) && result.holds(payload),
            Err(error) => !T::accepts(payload) && error@ == T::mismatch(),
        },
        ReplyStatus::Failure(status) => outcome matches Err(error) && error@
            == ErrorCodeView::MpvError(status),
        ReplyStatus::Malformed => outcome matches Err(error) && error@
            == ErrorCodeView::UnexpectedResult,
    }
}

/// Whether `outcome` is the event of kind `kind` that `reply`, the answer to
/// the position query, gives rise to.
pub open spec fn position_outcome(
    kind: EventKind,
    reply: JsonView,
    outcome: Result<Event, ErrorCode>,
) -> bool {
    match reply_status(reply) {
        ReplyStatus::Success(payload) => match outcome {
            Ok(event) => payload matches JsonView::Number(literal) && is_number(literal) && event@
                == kind.at_spec(literal),
            Err(error) => !Number::accepts(payload) && error@
                == ErrorCodeView::ValueDoesNotContainF64,
        },
        ReplyStatus::Failure(status) => outcome matches Err(error) && error@
            == ErrorCodeView::MpvError(status),
        ReplyStatus::Malformed => outcome matches Err(error) && error@
            == ErrorCodeView::UnexpectedResult,
    }
}

/// Turns a reply into the result of its command.
pub fn reply_result<T: FromValue>(reply: Json) -> (outcome: Result<T, ErrorCode>)
    ensures
        reply_outcome(reply@, outcome),
{
    let status: Option<String> = match reply.get("error") {
        Some(Json::String(text)) => Some(text.clone()),
        _ => None,
    };
    match status {
        Some(text) => {
            if text == String::from_str("success") {
                let payload = match reply.take("data") {
                    Some(value) => value,
                    None => Json::Null,
                };
                T::get_value(payload)
            } else {
                Err(ErrorCode::MpvError(text))
            }
        },
        None => Err(ErrorCode::UnexpectedResult),
    }
}

/// Turns the reply to the position query into the event that was waiting
/// for it.
pub fn position_result(kind: EventKind, reply: Json) -> (outcome: Result<Event, ErrorCode>)
    ensures
        position_outcome(kind, reply@, outcome),
{
    match reply_result::<Number>(reply) {
        Ok(position) => Ok(kind.at(position)),
        Err(error) => Err(error),
    }
}

/// Where the client stands between two lines.
#[derive(Debug, Clone, Copy, PartialEq, Eq, Structural)]
pub enum State {
    /// Connected, with no call in flight.
    Ready,
    /// A command has gone out; the next reply is its reply.
    AwaitingReply,
    /// A listener waits for the next event.
    AwaitingEvent,
    /// An event of this kind has come in and the position query has gone
    /// out; the next reply is the position.
    AwaitingPosition(EventKind),
    /// The transport has failed; nothing more can be sent or received.
    Failed,
    /// The connection has been shut down.
    Closed,
}

impl State {
    /// Whether a call is in flight: some line is awaited.
    pub open spec fn is_busy(self) -> bool {
        self is AwaitingReply || self is AwaitingEvent || self is AwaitingPosition
    }

    /// The error with which a new call is turned away in this state: a call
    /// in flight must end first, and a connection that is gone stays gone.
    pub open spec fn refusal(self) -> ErrorCodeView {
        if self.is_busy() {
            ErrorCodeView::UnexpectedResult
        } else {
            ErrorCodeView::ConnectError("connection closed"@)
        }
    }

    /// The state after a transport failure: the connection is lost, and
    /// one that was shut down stays shut down.
    pub open spec fn after_failure(self) -> State {
        if self is Closed {
            State::Closed
        } else {
            State::Failed
        }
    }

    /// Whether disconnecting in this state has to shut the stream down:
    /// always, unless that has been done.
    pub open spec fn needs_shutdown(self) -> bool {
        !(self is Closed)
    }

    /// The state after disconnecting.
    pub open spec fn after_disconnect(self) -> State {
        State::Closed
    }
}

/// What the owner of the stream has to do next.
#[derive(Debug, PartialEq, Eq)]
pub enum Step<T> {
    /// Write this line, flush, then read a line and hand it in.
    Send(String),
    /// The line was not for this call and is dropped: read the next one and
    /// hand it in.
    Skip,
    /// The call has ended with this result.
    Done(Result<T, ErrorCode>),
}

/// The step of a command that waits for its reply: what becomes of the call
/// and of the state when a line comes in.
///
/// The first reply ends the call and decides its result. An event that comes
/// first is dropped. A line that is no message of the protocol ends the
/// call with the decoding error. In every case the connection stays usable.
pub open spec fn reply_step<T: FromValue>(
    state: State,
    message: Result<RawMessageView, ErrorCodeView>,
    step: Step<T>,
    next: State,
) -> bool {
    if state is AwaitingReply {
        match message {
            Err(problem) => step matches Step::Done(Err(error)) && error@ == problem && next
                is Ready,
            Ok(RawMessageView::Event(_)) => step is Skip && next == state,
            Ok(RawMessageView::Reply(reply)) => step matches Step::Done(outcome) && reply_outcome(
                reply,
                outcome,
            ) && next is Ready,
        }
    } else {
        step matches Step::Done(Err(error)) && error@ == ErrorCodeView::UnexpectedResult && next
            == state
    }
}

/// The line that asks the player for the playback position.
pub open spec fn position_query() -> Seq<char> {
    command_line("get_property"@, seq!["time-pos"@])
}

/// The step of a listener: what becomes of the call and of the state when a
/// line comes in.
///
/// While an event is awaited, a reply is cross-talk and ends the call with
/// `UnexpectedResult`; an event named `seek`, `pause` or `unpause` sends the
/// position query; any other event ends the call as `Unimplemented`; one
/// whose name is no string ends it with `JsonContainsUnexptectedType`. While
/// the position is awaited, the first reply ends the call with the event at
/// that position, and events that come first are dropped.
pub open spec fn event_step(
    state: State,
    message: Result<RawMessageView, ErrorCodeView>,
    step: Step<Event>,
    next: State,
) -> bool {
    match state {
        State::AwaitingEvent => match message {
            Err(problem) => step matches Step::Done(Err(error)) && error@ == problem && next
                is Ready,
            Ok(RawMessageView::Reply(_)) => step matches Step::Done(Err(error)) && error@
                == ErrorCodeView::UnexpectedResult && next is Ready,
            Ok(RawMessageView::Event(event)) => match event.field("event"@) {
                Some(JsonView::String(name)) => if EventKind::of_name(name) is Unimplemented {
                    step matches Step::Done(Ok(Event::Unimplemented)) && next is Ready
                } else {
                    step matches Step::Send(line) && line@ == position_query() && next
                        == State::AwaitingPosition(EventKind::of_name(name))
                },
                _ => step matches Step::Done(Err(error)) && error@
                    == ErrorCodeView::JsonContainsUnexptectedType && next is Ready,
            },
        },
        State::AwaitingPosition(kind) => match message {
            Err(problem) => step matches Step::Done(Err(error)) && error@ == problem && next
                is Ready,
            Ok(RawMessageView::Event(_)) => step is Skip && next == state,
            Ok(RawMessageView::Reply(reply)) => step matches Step::Done(outcome)
                && position_outcome(kind, reply, outcome) && next is Ready,
        },
        _ => step matches Step::Done(Err(error)) && error@ == ErrorCodeView::UnexpectedResult
            && next == state,
    }
}

/// One connection to the player, without the stream: its name and where
/// the conversation stands.
#[derive(Debug)]
pub struct Mpv {
    name: String,
    state: State,
}

/// The mathematical value of an [`Mpv`].
pub struct MpvView {
    pub name: Seq<char>,
    pub state: State,
}

impl View for Mpv {
    type V = MpvView;

    closed spec fn view(&self) -> MpvView {
        MpvView { name: self.name@, state: self.state }
    }
}

impl Mpv {
    /// Makes a client of the outcome of opening the stream at `socket`: on
    /// success a client that is ready, together with the stream that it is
    /// to be used with; on failure the transport's message as a
    /// `ConnectError`.
    pub fn connect<S>(socket: &str, opened: Result<S, String>) -> (client: Result<
        (Mpv, S),
        ErrorCode,
    >)
        ensures
            match opened {
                Ok(stream) => client matches Ok(pair) && pair.0@.name == socket@ && pair.0@.state
                    is Ready && pair.1 == stream,
                Err(message) => client matches Err(error) && error@ == ErrorCodeView::ConnectError(
                    message@,
                ),
            },
    {
        match opened {
            Ok(stream) => Ok((Mpv { name: String::from_str(socket), state: State::Ready }, stream)),
            Err(message) => Err(ErrorCode::ConnectError(message)),
        }
    }

    /// The path of the socket that the client was connected to.
    pub fn name(&self) -> (name: &str)
        ensures
            name@ == self@.name,
    {
        self.name.as_str()
    }

    /// Where the conversation stands.
    pub fn state(&self) -> (state: State)
        ensures
            state == self@.state,
    {
        self.state
    }

    /// The error that turns a new call away.
    fn refuse(&self) -> (error: ErrorCode)
        requires
            !(self@.state is Ready),
        ensures
            error@ == self@.state.refusal(),
    {
        match self.state {
            State::Failed | State::Closed => ErrorCode::ConnectError(
                String::from_str("connection closed"),
            ),
            _ => ErrorCode::UnexpectedResult,
        }
    }

    /// Starts a command: gives the line to send and waits for the reply.
    ///
    /// A seek to a position below zero is turned away as `UnexpectedValue`.
    /// While another call is in flight, or once the connection is gone,
    /// nothing is sent.
    pub fn run_command(&mut self, command: &Command) -> (line: Result<String, ErrorCode>)
        ensures
            final(self)@.name == old(self)@.name,
            match line {
                Ok(text) => old(self)@.state is Ready && command.is_valid_spec() && text@
                    == command_line(command.name_spec(), command.args_spec()) && final(self)@.state
                    is AwaitingReply,
                Err(error) => final(self)@.state == old(self)@.state && if !(old(self)@.state
                    is Ready) {
                    error@ == old(self)@.state.refusal()
                } else {
                    !command.is_valid_spec() && error@ == ErrorCodeView::UnexpectedValue
                },
            },
    {
        match self.state {
            State::Ready => {
                if command.is_valid() {
                    self.state = State::AwaitingReply;
                    Ok(encode(command))
                } else {
                    Err(ErrorCode::UnexpectedValue)
                }
            },
            _ => Err(self.refuse()),
        }
    }

    /// Starts the command that pauses playback.
    pub fn pause(&mut self) -> (line: Result<String, ErrorCode>)
        ensures
            final(self)@.name == old(self)@.name,
            match line {
                Ok(text) => old(self)@.state is Ready && text@ == command_line(
                    Command::Pause.name_spec(),
                    Command::Pause.args_spec(),
                ) && final(self)@.state is AwaitingReply,
                Err(error) => !(old(self)@.state is Ready) && final(self)@.state == old(
                    self,
                )@.state && error@ == old(self)@.state.refusal(),
            },
    {
        self.run_command(&Command::Pause)
    }

    /// Starts the command that resumes playback.
    pub fn play(&mut self) -> (line: Result<String, ErrorCode>)
        ensures
            final(self)@.name == old(self)@.name,
            match line {
                Ok(text) => old(self)@.state is Ready && text@ == command_line(
                    Command::Play.name_spec(),
                    Command::Play.args_spec(),
                ) && final(self)@.state is AwaitingReply,
                Err(error) => !(old(self)@.state is Ready) && final(self)@.state == old(
                    self,
                )@.state && error@ == old(self)@.state.refusal(),
            },
    {
        self.run_command(&Command::Play)
    }

    /// Starts the command that jumps to `position`, in seconds from the
    /// start. Every position that is not below zero is sent, zero with a
    /// minus sign too.
    pub fn seek(&mut self, position: Number) -> (line: Result<String, ErrorCode>)
        ensures
            final(self)@.name == old(self)@.name,
            match line {
                Ok(text) => {
                    &&& old(self)@.state is Ready
                    &&& Command::Seek(position).is_valid_spec()
                    &&& text@ == command_line("seek"@, seq![position@, "absolute"@])
                    &&& final(self)@.state is AwaitingReply
                },
                Err(error) => final(self)@.state == old(self)@.state && if !(old(self)@.state
                    is Ready) {
                    error@ == old(self)@.state.refusal()
                } else {
                    !Command::Seek(position).is_valid_spec() && error@
                        == ErrorCodeView::UnexpectedValue
                },
            },
    {
        self.run_command(&Command::Seek(position))
    }

    /// Takes the next line for the command in flight, given what the parser
    /// made of it.
    pub fn reply_parsed<T: FromValue>(&mut self, parsed: Result<Json, String>) -> (step: Step<T>)
        ensures
            final(self)@.name == old(self)@.name,
            reply_step(
                old(self)@.state,
                decode_spec(parsed_view(parsed)),
                step,
                final(self)@.state,
            ),
    {
        match self.state {
            State::AwaitingReply => match decode_parsed(parsed) {
                Err(error) => {
                    self.state = State::Ready;
                    Step::Done(Err(error))
                },
                Ok(RawMessage::Event(_)) => Step::Skip,
                Ok(RawMessage::Reply(reply)) => {
                    self.state = State::Ready;
                    Step::Done(reply_result::<T>(reply))
                },
            },
            _ => Step::Done(Err(ErrorCode::UnexpectedResult)),
        }
    }

    /// Takes the next line for the command in flight.
    pub fn reply<T: FromValue>(&mut self, line: &str) -> (step: Step<T>)
        ensures
            final(self)@.name == old(self)@.name,
            reply_step(old(self)@.state, decode_spec(json_parse(line@)), step, final(self)@.state),
    {
        self.reply_parsed(parse(line))
    }

    /// Starts to listen: the next line is awaited as an event.
    pub fn listen(&mut self) -> (started: Result<(), ErrorCode>)
        ensures
            final(self)@.name == old(self)@.name,
            match started {
                Ok(_) => old(self)@.state is Ready && final(self)@.state is AwaitingEvent,
                Err(error) => !(old(self)@.state is Ready) && final(self)@.state == old(
                    self,
                )@.state && error@ == old(self)@.state.refusal(),
            },
    {
        match self.state {
            State::Ready => {
                self.state = State::AwaitingEvent;
                Ok(())
            },
            _ => Err(self.refuse()),
        }
    }

    /// Takes the next line for the listener, given what the parser made of
    /// it.
    pub fn event_parsed(&mut self, parsed: Result<Json, String>) -> (step: Step<Event>)
        ensures
            final(self)@.name == old(self)@.name,
            event_step(
                old(self)@.state,
                decode_spec(parsed_view(parsed)),
                step,
                final(self)@.state,
            ),
    {
        match self.state {
            State::AwaitingEvent => {
                self.state = State::Ready;
                match decode_parsed(parsed) {
                    Err(error) => Step::Done(Err(error)),
                    Ok(RawMessage::Reply(_)) => Step::Done(Err(ErrorCode::UnexpectedResult)),
                    Ok(RawMessage::Event(event)) => match event.get("event") {
                        Some(Json::String(name)) => {
                            let kind = EventKind::from_name(name);
                            match kind {
                                EventKind::Unimplemented => Step::Done(Ok(Event::Unimplemented)),
                                _ => {
                                    self.state = State::AwaitingPosition(kind);
                                    Step::Send(
                                        encode(
                                            &Command::GetProperty(String::from_str("time-pos")),
                                        ),
                                    )
                                },
                            }
                        },
                        _ => Step::Done(Err(ErrorCode::JsonContainsUnexptectedType)),
                    },
                }
            },
            State::AwaitingPosition(kind) => match decode_parsed(parsed) {
                Err(error) => {
                    self.state = State::Ready;
                    Step::Done(Err(error))
                },
                Ok(RawMessage::Event(_)) => Step::Skip,
                Ok(RawMessage::Reply(reply)) => {
                    self.state = State::Ready;
                    Step::Done(position_result(kind, reply))
                },
            },
            _ => Step::Done(Err(ErrorCode::UnexpectedResult)),
        }
    }

    /// Takes the next line for the listener.
    pub fn event(&mut self, line: &str) -> (step: Step<Event>)
        ensures
            final(self)@.name == old(self)@.name,
            event_step(old(self)@.state, decode_spec(json_parse(line@)), step, final(self)@.state),
    {
        self.event_parsed(parse(line))
    }

    /// Records that the transport failed with `message`. The call in flight
    /// ends with the error that is returned, and the connection is lost:
    /// nothing is retried.
    pub fn fail(&mut self, message: &str) -> (error: ErrorCode)
        ensures
            final(self)@.name == old(self)@.name,
            error@ == ErrorCodeView::ConnectError(message@),
            final(self)@.state == old(self)@.state.after_failure(),
    {
        match self.state {
            State::Closed => {},
            _ => {
                self.state = State::Failed;
            },
        }
        ErrorCode::ConnectError(String::from_str(message))
    }

    /// Closes the connection. Says whether the stream has to be shut down
    /// and drained now: yes the first time, never again after that.
    pub fn disconnect(&mut self) -> (shut_down: bool)
        ensures
            final(self)@.name == old(self)@.name,
            final(self)@.state == old(self)@.state.after_disconnect(),
            shut_down == old(self)@.state.needs_shutdown(),
    {
        let shut_down = match self.state {
            State::Closed => false,
            _ => true,
        };
        self.state = State::Closed;
        shut_down
    }
}

} // verus!
