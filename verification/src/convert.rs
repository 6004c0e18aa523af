//! From the generic value of a reply to the type that the caller asked for,
//! and from a value of such a type to its text.

use crate::codec::{array_text, json_text, object_text};
use crate::error::{ErrorCode, ErrorCodeView};
use crate::json::{
    items_view, lemma_array_view, lemma_object_view, members_view, Json, JsonView,
};
use crate::number::{
    decimal_text, decimal_value, is_natural, is_number, natural_text, parse_natural, Number,
};
use vstd::prelude::*;
use vstd::string::StringExecFns;

verus! {

/// A type that the payload of a reply can be read as, and that can be
/// written as text.
///
/// The conversion succeeds exactly when the value has the one JSON type that
/// stands for `Self`. Nothing is coerced: a string that spells a number is no
/// number.
pub trait FromValue: Sized {
    /// Whether `value` has the JSON type that converts to `Self`.
    spec fn accepts(value: JsonView) -> bool;

    /// Whether `self` is what `value` converts to.
    spec fn holds(&self, value: JsonView) -> bool;

    /// The error that says that a value has another type.
    spec fn mismatch() -> ErrorCodeView;

    /// The text that stands for `self`.
    spec fn text(&self) -> Seq<char>;

    /// Reads `value` as a `Self`.
    fn get_value(value: Json) -> (converted: Result<Self, ErrorCode>)
        ensures
            match converted {
                Ok(result) => Self::accepts(value@) && result.holds(value@),
                Err(error) => !Self::accepts(value@) && error@ == Self::mismatch(),
            },
    ;

    /// Writes `self` as text.
    fn as_string(&self) -> (text: String)
        ensures
            text@ == self.text(),
    ;
}

impl FromValue for bool {
    open spec fn accepts(value: JsonView) -> bool {
        value is Bool
    }

    open spec fn holds(&self, value: JsonView) -> bool {
        value == JsonView::Bool(*self)
    }

    open spec fn mismatch() -> ErrorCodeView {
        ErrorCodeView::ValueDoesNotContainBool
    }

    fn get_value(value: Json) -> (converted: Result<bool, ErrorCode>) {
        match value {
            Json::Bool(b) => Ok(b),
            _ => Err(ErrorCode::ValueDoesNotContainBool),
        }
    }

    /// `true` or `false`.
    open spec fn text(&self) -> Seq<char> {
        if *self {
            "true"@
        } else {
            "false"@
        }
    }

    fn as_string(&self) -> (text: String) {
        if *self {
            String::from_str("true")
        } else {
            String::from_str("false")
        }
    }
}

impl FromValue for String {
    open spec fn accepts(value: JsonView) -> bool {
        value is String
    }

    open spec fn holds(&self, value: JsonView) -> bool {
        value == JsonView::String(self@)
    }

    open spec fn mismatch() -> ErrorCodeView {
        ErrorCodeView::ValueDoesNotContainString
    }

    fn get_value(value: Json) -> (converted: Result<String, ErrorCode>) {
        match value {
            Json::String(text) => Ok(text),
            _ => Err(ErrorCode::ValueDoesNotContainString),
        }
    }

    /// The string itself, without quotation marks.
    open spec fn text(&self) -> Seq<char> {
        self@
    }

    fn as_string(&self) -> (text: String) {
        self.clone()
    }
}

/// A number: the floating-point result of a query, as its literal.
impl FromValue for Number {
    open spec fn accepts(value: JsonView) -> bool {
        value matches JsonView::Number(literal) && is_number(literal)
    }

    open spec fn holds(&self, value: JsonView) -> bool {
        value == JsonView::Number(self@)
    }

    open spec fn mismatch() -> ErrorCodeView {
        ErrorCodeView::ValueDoesNotContainF64
    }

    fn get_value(value: Json) -> (converted: Result<Number, ErrorCode>) {
        match value {
            Json::Number(literal) => match Number::new(literal.as_str()) {
                Some(number) => Ok(number),
                None => Err(ErrorCode::ValueDoesNotContainF64),
            },
            _ => Err(ErrorCode::ValueDoesNotContainF64),
        }
    }

    /// The literal.
    open spec fn text(&self) -> Seq<char> {
        self@
    }

    fn as_string(&self) -> (text: String) {
        String::from_str(self.literal())
    }
}

/// A count or an index: a number written as a natural number that fits the
/// machine word.
impl FromValue for usize {
    open spec fn accepts(value: JsonView) -> bool {
        value matches JsonView::Number(literal) && is_natural(literal) && decimal_value(literal)
            <= usize::MAX
    }

    open spec fn holds(&self, value: JsonView) -> bool {
        value matches JsonView::Number(literal) && *self == decimal_value(literal)
    }

    open spec fn mismatch() -> ErrorCodeView {
        ErrorCodeView::ValueDoesNotContainUsize
    }

    fn get_value(value: Json) -> (converted: Result<usize, ErrorCode>) {
        match value {
            Json::Number(literal) => match parse_natural(literal.as_str()) {
                Some(number) => Ok(number),
                None => Err(ErrorCode::ValueDoesNotContainUsize),
            },
            _ => Err(ErrorCode::ValueDoesNotContainUsize),
        }
    }

    /// The number in decimal digits.
    open spec fn text(&self) -> Seq<char> {
        decimal_text(*self as nat)
    }

    fn as_string(&self) -> (text: String) {
        natural_text(*self)
    }
}

/// An ordered list: the items of an array.
impl FromValue for Vec<Json> {
    open spec fn accepts(value: JsonView) -> bool {
        value is Array
    }

    open spec fn holds(&self, value: JsonView) -> bool {
        value == JsonView::Array(items_view(self@))
    }

    open spec fn mismatch() -> ErrorCodeView {
        ErrorCodeView::ValueDoesNotContainPlaylist
    }

    fn get_value(value: Json) -> (converted: Result<Vec<Json>, ErrorCode>) {
        match value {
            Json::Array(items) => {
                proof {
                    lemma_array_view(items);
                }
                Ok(items)
            },
            _ => Err(ErrorCode::ValueDoesNotContainPlaylist),
        }
    }

    /// The list as a JSON array.
    open spec fn text(&self) -> Seq<char> {
        json_text(JsonView::Array(items_view(self@)))
    }

    fn as_string(&self) -> (text: String) {
        array_text(self)
    }
}

/// A mapping keyed by strings: the members of an object.
impl FromValue for Vec<(String, Json)> {
    open spec fn accepts(value: JsonView) -> bool {
        value is Object
    }

    open spec fn holds(&self, value: JsonView) -> bool {
        value == JsonView::Object(members_view(self@))
    }

    open spec fn mismatch() -> ErrorCodeView {
        ErrorCodeView::ValueDoesNotContainHashMap
    }

    fn get_value(value: Json) -> (converted: Result<Vec<(String, Json)>, ErrorCode>) {
        match value {
            Json::Object(members) => {
                proof {
                    lemma_object_view(members);
                }
                Ok(members)
            },
            _ => Err(ErrorCode::ValueDoesNotContainHashMap),
        }
    }

    /// The mapping as a JSON object.
    open spec fn text(&self) -> Seq<char> {
        json_text(JsonView::Object(members_view(self@)))
    }

    fn as_string(&self) -> (text: String) {
        object_text(self)
    }
}

/// Nothing: the result of a command that only succeeds or fails. Every
/// payload is accepted and dropped.
impl FromValue for () {
    open spec fn accepts(value: JsonView) -> bool {
        true
    }

    open spec fn holds(&self, value: JsonView) -> bool {
        true
    }

    open spec fn mismatch() -> ErrorCodeView {
        ErrorCodeView::UnexpectedResult
    }

    fn get_value(value: Json) -> (converted: Result<(), ErrorCode>) {
        Ok(())
    }

    /// Nothing: the empty text.
    open spec fn text(&self) -> Seq<char> {
        Seq::empty()
    }

    fn as_string(&self) -> (text: String) {
        String::new()
    }
}

} // verus!
