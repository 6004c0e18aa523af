//! The notifications that the player sends on its own.

use crate::number::Number;
use vstd::prelude::*;
use vstd::string::StringExecFns;

verus! {

/// A change of state in the player. The three playback events carry the
/// position, in seconds, at which playback stood when they were handled.
#[derive(Debug, PartialEq, Eq)]
pub enum Event {
    Pause(Number),
    Play(Number),
    Seek(Number),
    /// Any event that this client gives no meaning to.
    Unimplemented,
}

/// The mathematical value of an [`Event`]: each position as its literal.
pub enum EventView {
    Pause(Seq<char>),
    Play(Seq<char>),
    Seek(Seq<char>),
    Unimplemented,
}

impl View for Event {
    type V = EventView;

    open spec fn view(&self) -> EventView {
        match self {
            Event::Pause(position) => EventView::Pause(position@),
            Event::Play(position) => EventView::Play(position@),
            Event::Seek(position) => EventView::Seek(position@),
            Event::Unimplemented => EventView::Unimplemented,
        }
    }
}

/// What an event is about, before its position is known.
#[derive(Debug, Clone, Copy, PartialEq, Eq, Structural)]
pub enum EventKind {
    Pause,
    Play,
    Seek,
    Unimplemented,
}

impl EventKind {
    /// The kind that the player means by `name`: `seek`, `pause`, and
    /// `unpause` for play; every other name is not implemented.
    pub open spec fn of_name(name: Seq<char>) -> EventKind {
        if name == "seek"@ {
            EventKind::Seek
        } else if name == "pause"@ {
            EventKind::Pause
        } else if name == "unpause"@ {
            EventKind::Play
        } else {
            EventKind::Unimplemented
        }
    }

    /// The event of this kind at `position`.
    pub open spec fn at_spec(self, position: Seq<char>) -> EventView {
        match self {
            EventKind::Pause => EventView::Pause(position),
            EventKind::Play => EventView::Play(position),
            EventKind::Seek => EventView::Seek(position),
            EventKind::Unimplemented => EventView::Unimplemented,
        }
    }

    /// Reads the kind of an event off its name.
    pub fn from_name(name: &String) -> (kind: EventKind)
        ensures
            kind == EventKind::of_name(name@),
    {
        if *name == String::from_str("seek") {
            EventKind::Seek
        } else if *name == String::from_str("pause") {
            EventKind::Pause
        } else if *name == String::from_str("unpause") {
            EventKind::Play
        } else {
            EventKind::Unimplemented
        }
    }

    /// Makes the event of this kind at `position`. An event that is not
    /// implemented has no position and drops it.
    pub fn at(self, position: Number) -> (event: Event)
        ensures
            event@ == self.at_spec(position@),
    {
        match self {
            EventKind::Pause => Event::Pause(position),
            EventKind::Play => Event::Play(position),
            EventKind::Seek => Event::Seek(position),
            EventKind::Unimplemented => Event::Unimplemented,
        }
    }
}

} // verus!
