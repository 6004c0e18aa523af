//! Numbers as they stand on the wire: decimal literals, carried and never
//! computed with.

use vstd::prelude::*;
use vstd::string::StrSliceExecFns;
use vstd::string::StringExecFns;

verus! {

/// Whether `c` is one of the ten decimal digits.
pub open spec fn is_digit(c: char) -> bool {
    '0' <= c && c <= '9'
}

/// The index just past the run of digits that starts at `from`; `from` itself
/// where no digit stands there.
pub open spec fn digits_end(text: Seq<char>, from: int) -> int
    decreases text.len() - from,
{
    if 0 <= from < text.len() && is_digit(text[from]) {
        digits_end(text, from + 1)
    } else {
        from
    }
}

/// Where the integer part of a literal starts: after the minus sign, if there
/// is one.
pub open spec fn int_start(text: Seq<char>) -> int {
    if text.len() > 0 && text[0] == '-' {
        1
    } else {
        0
    }
}

/// Whether a fraction starts at `at`: a point.
pub open spec fn has_fraction(text: Seq<char>, at: int) -> bool {
    0 <= at < text.len() && text[at] == '.'
}

/// Whether an exponent starts at `at`: the letter `e` in either case.
pub open spec fn has_exponent(text: Seq<char>, at: int) -> bool {
    0 <= at < text.len() && (text[at] == 'e' || text[at] == 'E')
}

/// Where the digits of an exponent start whose letter stands at `at`: after
/// the letter and one optional sign.
pub open spec fn exponent_digits(text: Seq<char>, at: int) -> int {
    if at + 1 < text.len() && (text[at + 1] == '+' || text[at + 1] == '-') {
        at + 2
    } else {
        at + 1
    }
}

/// Whether `text` is a JSON number literal: an optional minus sign; an
/// integer part, which is `0` or starts with another digit; an optional
/// fraction of a point and at least one digit; an optional exponent of `e` or
/// `E`, an optional sign and at least one digit; and nothing else.
pub open spec fn is_number(text: Seq<char>) -> bool {
    let start = int_start(text);
    let int_end = digits_end(text, start);
    let frac_end = if has_fraction(text, int_end) {
        digits_end(text, int_end + 1)
    } else {
        int_end
    };
    let end = if has_exponent(text, frac_end) {
        digits_end(text, exponent_digits(text, frac_end))
    } else {
        frac_end
    };
    &&& start < int_end
    &&& text[start] == '0' ==> int_end == start + 1
    &&& has_fraction(text, int_end) ==> int_end + 1 < frac_end
    &&& has_exponent(text, frac_end) ==> exponent_digits(text, frac_end) < end
    &&& end == text.len()
}

/// Whether `c` is a digit other than zero.
pub open spec fn is_nonzero_digit(c: char) -> bool {
    '1' <= c && c <= '9'
}

/// Whether `c` is the letter that starts an exponent.
pub open spec fn is_exponent_mark(c: char) -> bool {
    c == 'e' || c == 'E'
}

/// Whether the index `at` lies in the integer part or the fraction of a
/// literal: no exponent starts at or before it.
pub open spec fn stands_in_mantissa(text: Seq<char>, at: int) -> bool {
    forall|j: int| 0 <= j <= at && j < text.len() ==> !is_exponent_mark(#[trigger] text[j])
}

/// Whether a literal is other than zero: a digit other than `0` stands in
/// its integer part or its fraction. The exponent does not count.
pub open spec fn has_nonzero_digit(text: Seq<char>) -> bool {
    exists|i: int|
        0 <= i < text.len() && is_nonzero_digit(#[trigger] text[i]) && stands_in_mantissa(text, i)
}

/// The number that a run of decimal digits spells.
pub open spec fn decimal_value(digits: Seq<char>) -> nat
    decreases digits.len(),
{
    if digits.len() == 0 {
        0
    } else {
        (10 * decimal_value(digits.drop_last()) + (digits.last() as int - '0' as int)) as nat
    }
}

/// Whether `text` is the literal of a natural number: digits only, with no
/// zero in front of another digit.
pub open spec fn is_natural(text: Seq<char>) -> bool {
    &&& text.len() > 0
    &&& forall|i: int| 0 <= i < text.len() ==> is_digit(#[trigger] text[i])
    &&& text[0] == '0' ==> text.len() == 1
}

/// A longer run of digits spells no smaller a number than what it starts
/// with.
pub proof fn lemma_decimal_value_grows(digits: Seq<char>, n: int)
    requires
        0 <= n <= digits.len(),
        forall|i: int| 0 <= i < digits.len() ==> is_digit(#[trigger] digits[i]),
    ensures
        decimal_value(digits.take(n)) <= decimal_value(digits),
    decreases digits.len() - n,
{
    if n == digits.len() {
        assert(digits.take(n) =~= digits);
    } else {
        lemma_decimal_value_grows(digits, n + 1);
        assert(digits.take(n + 1).drop_last() =~= digits.take(n));
        assert(is_digit(digits[n]));
        assert(digits.take(n + 1).last() == digits[n]);
    }
}

/// The decimal digit of a value below ten.
pub open spec fn digit_of(n: nat) -> char {
    seq!['0', '1', '2', '3', '4', '5', '6', '7', '8', '9'][n as int]
}

/// A natural number written in decimal digits, with no zero in front.
pub open spec fn decimal_text(n: nat) -> Seq<char>
    decreases n,
{
    if n < 10 {
        seq![digit_of(n)]
    } else {
        decimal_text(n / 10).push(digit_of(n % 10))
    }
}

/// What is written as a natural number reads back as the same number.
pub proof fn lemma_decimal_text_round_trip(n: nat)
    ensures
        is_natural(decimal_text(n)),
        decimal_value(decimal_text(n)) == n,
        n > 0 ==> decimal_text(n)[0] != '0',
    decreases n,
{
    if n < 10 {
        assert(decimal_text(n).drop_last() =~= Seq::<char>::empty());
        assert(decimal_value(decimal_text(n).drop_last()) == 0);
    } else {
        lemma_decimal_text_round_trip(n / 10);
        assert(decimal_text(n).drop_last() =~= decimal_text(n / 10));
        assert(decimal_text(n)[0] == decimal_text(n / 10)[0]);
    }
}

/// The decimal digit of a value below ten.
fn digit_char(n: usize) -> (c: char)
    requires
        n < 10,
    ensures
        c == digit_of(n as nat),
{
    match n {
        0 => '0',
        1 => '1',
        2 => '2',
        3 => '3',
        4 => '4',
        5 => '5',
        6 => '6',
        7 => '7',
        8 => '8',
        _ => '9',
    }
}

/// Appends a natural number in decimal digits.
fn push_natural(out: &mut String, n: usize)
    ensures
        final(out)@ == old(out)@ + decimal_text(n as nat),
    decreases n,
{
    if n >= 10 {
        push_natural(out, n / 10);
    }
    out.push(digit_char(n % 10));
    assert(out@ =~= old(out)@ + decimal_text(n as nat));
}

/// Writes a natural number in decimal digits.
pub fn natural_text(n: usize) -> (text: String)
    ensures
        text@ == decimal_text(n as nat),
{
    let mut text = String::new();
    push_natural(&mut text, n);
    text
}

/// The characters of a text, one by one.
pub fn characters(text: &str) -> (list: Vec<char>)
    ensures
        list@ == text@,
{
    let mut list: Vec<char> = Vec::new();
    let chars = text.chars();
    for c in it: chars
        invariant
            it.seq() == text@,
            list@ == text@.take(it.index()),
    {
        proof {
            assert(text@.take(it.index() + 1) =~= text@.take(it.index()).push(c));
        }
        list.push(c);
    }
    proof {
        assert(text@.take(text@.len() as int) =~= text@);
    }
    list
}

/// Reads `text` as a natural number that fits the machine word.
pub fn parse_natural(text: &str) -> (value: Option<usize>)
    ensures
        value is Some <==> is_natural(text@) && decimal_value(text@) <= usize::MAX,
        value matches Some(n) ==> n == decimal_value(text@),
{
    let digits = characters(text);
    let len = digits.len();
    if len == 0 {
        return None;
    }
    if len > 1 && digits[0] == '0' {
        return None;
    }
    let mut total: usize = 0;
    let mut i: usize = 0;
    while i < len
        invariant
            len == digits@.len(),
            digits@ == text@,
            i <= len,
            forall|k: int| 0 <= k < i ==> is_digit(#[trigger] text@[k]),
            total == decimal_value(text@.take(i as int)),
        decreases len - i,
    {
        let c = digits[i];
        if !is_digit_char(c) {
            return None;
        }
        proof {
            assert(text@.take(i + 1).drop_last() =~= text@.take(i as int));
            assert(text@.take(i + 1).last() == c);
        }
        let digit = (c as u32 - '0' as u32) as usize;
        let next = match total.checked_mul(10) {
            Some(tens) => tens.checked_add(digit),
            None => None,
        };
        match next {
            Some(sum) => {
                total = sum;
            },
            None => {
                proof {
                    if is_natural(text@) {
                        lemma_decimal_value_grows(text@, i + 1);
                    }
                }
                return None;
            },
        }
        i += 1;
    }
    proof {
        assert(text@.take(len as int) =~= text@);
    }
    Some(total)
}

/// A JSON number, held as its literal.
#[derive(Debug, PartialEq, Eq)]
pub struct Number {
    literal: String,
}

impl View for Number {
    type V = Seq<char>;

    closed spec fn view(&self) -> Seq<char> {
        self.literal@
    }
}

/// Scans the run of digits of `text` that starts at `from`.
fn scan_digits(text: &Vec<char>, from: usize) -> (end: usize)
    requires
        from <= text@.len(),
    ensures
        end == digits_end(text@, from as int),
        from <= end <= text@.len(),
{
    let mut i = from;
    while i < text.len() && is_digit_char(text[i])
        invariant
            from <= i <= text@.len(),
            digits_end(text@, from as int) == digits_end(text@, i as int),
        decreases text@.len() - i,
    {
        i += 1;
    }
    i
}

/// Whether `c` is a decimal digit.
fn is_digit_char(c: char) -> (digit: bool)
    ensures
        digit == is_digit(c),
{
    '0' <= c && c <= '9'
}

impl Number {
    #[verifier::type_invariant]
    spec fn well_formed(&self) -> bool {
        is_number(self.literal@)
    }

    /// Makes a number of its literal, if `text` is one.
    pub fn new(text: &str) -> (number: Option<Number>)
        ensures
            number is Some <==> is_number(text@),
            number matches Some(n) ==> n@ == text@,
    {
        let chars = characters(text);
        let len = chars.len();
        let start: usize = if len > 0 && chars[0] == '-' {
            1
        } else {
            0
        };
        let int_end = scan_digits(&chars, start);
        if int_end == start || (chars[start] == '0' && int_end != start + 1) {
            return None;
        }
        let mut frac_end = int_end;
        if int_end < len && chars[int_end] == '.' {
            frac_end = scan_digits(&chars, int_end + 1);
            if frac_end == int_end + 1 {
                return None;
            }
        }
        let mut end = frac_end;
        if frac_end < len && (chars[frac_end] == 'e' || chars[frac_end] == 'E') {
            let mut digits = frac_end + 1;
            if digits < len && (chars[digits] == '+' || chars[digits] == '-') {
                digits += 1;
            }
            end = scan_digits(&chars, digits);
            if end == digits {
                return None;
            }
        }
        if end != len {
            return None;
        }
        Some(Number { literal: String::from_str(text) })
    }

    /// The literal.
    pub fn literal(&self) -> (text: &str)
        ensures
            text@ == self@,
            is_number(text@),
    {
        proof {
            use_type_invariant(self);
        }
        self.literal.as_str()
    }

    /// Whether the literal carries a minus sign.
    pub open spec fn has_minus_sign_spec(&self) -> bool {
        self@.len() > 0 && self@[0] == '-'
    }

    /// Whether the number is written with a minus sign. Zero may be.
    #[verifier::when_used_as_spec(has_minus_sign_spec)]
    pub fn has_minus_sign(&self) -> (signed: bool)
        ensures
            signed == self.has_minus_sign_spec(),
    {
        let text = self.literal.as_str();
        !text.is_empty() && text.get_char(0) == '-'
    }

    /// Whether the number is below zero: it is written with a minus sign and
    /// is not zero. Negative zero is not below zero.
    pub open spec fn is_below_zero_spec(&self) -> bool {
        self.has_minus_sign_spec() && has_nonzero_digit(self@)
    }

    /// Whether the number is below zero.
    #[verifier::when_used_as_spec(is_below_zero_spec)]
    pub fn is_below_zero(&self) -> (below: bool)
        ensures
            below == self.is_below_zero_spec(),
    {
        if !self.has_minus_sign() {
            return false;
        }
        let chars = characters(self.literal.as_str());
        let mut i: usize = 0;
        while i < chars.len() && chars[i] != 'e' && chars[i] != 'E'
            invariant
                self.has_minus_sign_spec(),
                chars@ == self@,
                i <= chars@.len(),
                forall|k: int| 0 <= k < i ==> !is_exponent_mark(#[trigger] chars@[k]),
                forall|k: int| 0 <= k < i ==> !is_nonzero_digit(#[trigger] chars@[k]),
            decreases chars@.len() - i,
        {
            if '1' <= chars[i] && chars[i] <= '9' {
                assert(stands_in_mantissa(self@, i as int));
                assert(is_nonzero_digit(self@[i as int]));
                return true;
            }
            i += 1;
        }
        assert forall|k: int| 0 <= k < self@.len() && is_nonzero_digit(self@[k]) implies
            !stands_in_mantissa(self@, k) by {
            if k > i {
                assert(is_exponent_mark(self@[i as int]));
            }
        }
        false
    }
}

} // verus!
