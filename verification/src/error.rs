//! The error taxonomy shared by every part of the client.

use vstd::prelude::*;

verus! {

/// Everything that can go wrong while talking to the player.
///
/// Three families: transport failures (`ConnectError`), protocol failures
/// (`JsonParseError`, `UnexpectedResult`, `UnexpectedValue` and the
/// `ValueDoesNotContain…` mismatches) and failures that the player itself
/// reports by name (`MpvError`).
#[derive(Debug, PartialEq, Eq)]
pub enum ErrorCode {
    MpvError(String),
    JsonParseError(String),
    ConnectError(String),
    JsonContainsUnexptectedType,
    UnexpectedResult,
    UnexpectedValue,
    UnsupportedType,
    ValueDoesNotContainBool,
    ValueDoesNotContainF64,
    ValueDoesNotContainHashMap,
    ValueDoesNotContainPlaylist,
    ValueDoesNotContainString,
    ValueDoesNotContainUsize,
}

/// The one error type of the crate, under its second name.
pub type Error = ErrorCode;

/// The mathematical value of an [`ErrorCode`]: the same variants, with each
/// message as a sequence of characters.
pub enum ErrorCodeView {
    MpvError(Seq<char>),
    JsonParseError(Seq<char>),
    ConnectError(Seq<char>),
    JsonContainsUnexptectedType,
    UnexpectedResult,
    UnexpectedValue,
    UnsupportedType,
    ValueDoesNotContainBool,
    ValueDoesNotContainF64,
    ValueDoesNotContainHashMap,
    ValueDoesNotContainPlaylist,
    ValueDoesNotContainString,
    ValueDoesNotContainUsize,
}

impl View for ErrorCode {
    type V = ErrorCodeView;

    open spec fn view(&self) -> ErrorCodeView {
        match self {
            ErrorCode::MpvError(message) => ErrorCodeView::MpvError(message@),
            ErrorCode::JsonParseError(message) => ErrorCodeView::JsonParseError(message@),
            ErrorCode::ConnectError(message) => ErrorCodeView::ConnectError(message@),
            ErrorCode::JsonContainsUnexptectedType => ErrorCodeView::JsonContainsUnexptectedType,
            ErrorCode::UnexpectedResult => ErrorCodeView::UnexpectedResult,
            ErrorCode::UnexpectedValue => ErrorCodeView::UnexpectedValue,
            ErrorCode::UnsupportedType => ErrorCodeView::UnsupportedType,
            ErrorCode::ValueDoesNotContainBool => ErrorCodeView::ValueDoesNotContainBool,
            ErrorCode::ValueDoesNotContainF64 => ErrorCodeView::ValueDoesNotContainF64,
            ErrorCode::ValueDoesNotContainHashMap => ErrorCodeView::ValueDoesNotContainHashMap,
            ErrorCode::ValueDoesNotContainPlaylist => ErrorCodeView::ValueDoesNotContainPlaylist,
            ErrorCode::ValueDoesNotContainString => ErrorCodeView::ValueDoesNotContainString,
            ErrorCode::ValueDoesNotContainUsize => ErrorCodeView::ValueDoesNotContainUsize,
        }
    }
}

impl ErrorCode {
    /// Whether the connection can still be used after this error. Only a
    /// transport failure ends it; protocol and player errors leave the stream
    /// aligned on a line boundary.
    pub open spec fn is_fatal_spec(&self) -> bool {
        self is ConnectError
    }

    /// Whether the connection is lost once this error has been returned.
    #[verifier::when_used_as_spec(is_fatal_spec)]
    pub fn is_fatal(&self) -> (fatal: bool)
        ensures
            fatal == self.is_fatal_spec(),
    {
        match self {
            ErrorCode::ConnectError(_) => true,
            _ => false,
        }
    }
}

} // verus!
