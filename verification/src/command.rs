//! The commands that the client can send.

use crate::number::Number;
use vstd::prelude::*;

verus! {

/// One command for the player: a name and a list of arguments, all strings
/// on the wire.
#[derive(Debug, PartialEq, Eq)]
pub enum Command {
    /// Pause playback.
    Pause,
    /// Resume playback.
    Play,
    /// Jump to a position, in seconds from the start.
    Seek(Number),
    /// Ask for the value of a property.
    GetProperty(String),
    /// Any other command, by name.
    Named { name: String, args: Vec<String> },
}

/// The three playback commands under the names of the blocking client.
#[allow(non_camel_case_types)]
#[derive(Debug, PartialEq, Eq)]
pub enum MpvCommand {
    Pause,
    play,
    Seek(Number),
}

/// The views of a list of strings.
pub open spec fn texts(list: Seq<String>) -> Seq<Seq<char>> {
    Seq::new(list.len(), |i: int| list[i]@)
}

/// The views of a list of string slices.
pub open spec fn slice_texts(list: Seq<&str>) -> Seq<Seq<char>> {
    Seq::new(list.len(), |i: int| list[i]@)
}

impl Command {
    /// The name under which the command goes out.
    pub open spec fn name_spec(&self) -> Seq<char> {
        match self {
            Command::Pause => "set"@,
            Command::Play => "set"@,
            Command::Seek(_) => "seek"@,
            Command::GetProperty(_) => "get_property"@,
            Command::Named { name, args } => name@,
        }
    }

    /// The arguments with which the command goes out.
    pub open spec fn args_spec(&self) -> Seq<Seq<char>> {
        match self {
            Command::Pause => seq!["pause"@, "yes"@],
            Command::Play => seq!["pause"@, "no"@],
            Command::Seek(position) => seq![position@, "absolute"@],
            Command::GetProperty(property) => seq![property@],
            Command::Named { name, args } => texts(args@),
        }
    }

    /// Whether the command is one that may be sent: a seek needs a position
    /// that is not below zero. Zero with a minus sign is zero.
    pub open spec fn is_valid_spec(&self) -> bool {
        match self {
            Command::Seek(position) => !position.is_below_zero_spec(),
            _ => true,
        }
    }

    /// Whether the command may be sent.
    #[verifier::when_used_as_spec(is_valid_spec)]
    pub fn is_valid(&self) -> (valid: bool)
        ensures
            valid == self.is_valid_spec(),
    {
        match self {
            Command::Seek(position) => !position.is_below_zero(),
            _ => true,
        }
    }

    /// The name of the command.
    pub fn name(&self) -> (name: &str)
        ensures
            name@ == self.name_spec(),
    {
        match self {
            Command::Pause => "set",
            Command::Play => "set",
            Command::Seek(_) => "seek",
            Command::GetProperty(_) => "get_property",
            Command::Named { name, args } => name.as_str(),
        }
    }

    /// The arguments of the command, in order.
    pub fn args(&self) -> (args: Vec<&str>)
        ensures
            slice_texts(args@) == self.args_spec(),
    {
        let mut list: Vec<&str> = Vec::new();
        match self {
            Command::Pause => {
                list.push("pause");
                list.push("yes");
            },
            Command::Play => {
                list.push("pause");
                list.push("no");
            },
            Command::Seek(position) => {
                list.push(position.literal());
                list.push("absolute");
            },
            Command::GetProperty(property) => {
                list.push(property.as_str());
            },
            Command::Named { name, args } => {
                let mut i: usize = 0;
                while i < args.len()
                    invariant
                        i <= args.len(),
                        list@.len() == i,
                        forall|j: int| 0 <= j < i ==> list@[j]@ == args@[j]@,
                    decreases args.len() - i,
                {
                    list.push(args[i].as_str());
                    i += 1;
                }
                assert(slice_texts(list@) =~= texts(args@));
            },
        }
        list
    }
}

impl MpvCommand {
    /// The same command in the general form.
    pub fn command(self) -> (command: Command)
        ensures
            command == match self {
                MpvCommand::Pause => Command::Pause,
                MpvCommand::play => Command::Play,
                MpvCommand::Seek(position) => Command::Seek(position),
            },
    {
        match self {
            MpvCommand::Pause => Command::Pause,
            MpvCommand::play => Command::Play,
            MpvCommand::Seek(position) => Command::Seek(position),
        }
    }
}

} // verus!
