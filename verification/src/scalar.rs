//! The scalar parser: one string to one primitive value.

use vstd::prelude::*;
use crate::error::{
    contains_text, failure_message, lemma_failure_message_names_value_and_key, result_view, Error,
    ErrorView,
};

verus! {

/// The primitive kinds that a string can be parsed as.
#[derive(Clone, Copy, Debug, PartialEq, Eq, Structural)]
pub enum ScalarKind {
    Bool,
    U8,
    U16,
    U32,
    U64,
    I8,
    I16,
    I32,
    I64,
    /// Text, copied through unchanged.
    Str,
}

/// A primitive value.
#[derive(Clone, Debug, PartialEq)]
pub enum Scalar {
    Bool(bool),
    U8(u8),
    U16(u16),
    U32(u32),
    U64(u64),
    I8(i8),
    I16(i16),
    I32(i32),
    I64(i64),
    Str(String),
}

/// The mathematical value of a [`Scalar`].
pub enum ScalarView {
    Bool(bool),
    U8(u8),
    U16(u16),
    U32(u32),
    U64(u64),
    I8(i8),
    I16(i16),
    I32(i32),
    I64(i64),
    Str(Seq<char>),
}

impl ScalarView {
    /// The kind that this value belongs to.
    pub open spec fn kind(self) -> ScalarKind {
        match self {
            ScalarView::Bool(_) => ScalarKind::Bool,
            ScalarView::U8(_) => ScalarKind::U8,
            ScalarView::U16(_) => ScalarKind::U16,
            ScalarView::U32(_) => ScalarKind::U32,
            ScalarView::U64(_) => ScalarKind::U64,
            ScalarView::I8(_) => ScalarKind::I8,
            ScalarView::I16(_) => ScalarKind::I16,
            ScalarView::I32(_) => ScalarKind::I32,
            ScalarView::I64(_) => ScalarKind::I64,
            ScalarView::Str(_) => ScalarKind::Str,
        }
    }
}

impl View for Scalar {
    type V = ScalarView;

    open spec fn view(&self) -> ScalarView {
        match self {
            Scalar::Bool(b) => ScalarView::Bool(*b),
            Scalar::U8(n) => ScalarView::U8(*n),
            Scalar::U16(n) => ScalarView::U16(*n),
            Scalar::U32(n) => ScalarView::U32(*n),
            Scalar::U64(n) => ScalarView::U64(*n),
            Scalar::I8(n) => ScalarView::I8(*n),
            Scalar::I16(n) => ScalarView::I16(*n),
            Scalar::I32(n) => ScalarView::I32(*n),
            Scalar::I64(n) => ScalarView::I64(*n),
            Scalar::Str(s) => ScalarView::Str(s@),
        }
    }
}

impl Scalar {
    /// The kind that this value belongs to.
    pub fn kind(&self) -> (kind: ScalarKind)
        ensures
            kind == self@.kind(),
    {
        match self {
            Scalar::Bool(_) => ScalarKind::Bool,
            Scalar::U8(_) => ScalarKind::U8,
            Scalar::U16(_) => ScalarKind::U16,
            Scalar::U32(_) => ScalarKind::U32,
            Scalar::U64(_) => ScalarKind::U64,
            Scalar::I8(_) => ScalarKind::I8,
            Scalar::I16(_) => ScalarKind::I16,
            Scalar::I32(_) => ScalarKind::I32,
            Scalar::I64(_) => ScalarKind::I64,
            Scalar::Str(_) => ScalarKind::Str,
        }
    }

    /// A copy with the same value.
    pub fn duplicate(&self) -> (copy: Scalar)
        ensures
            copy@ == self@,
    {
        match self {
            Scalar::Bool(b) => Scalar::Bool(*b),
            Scalar::U8(n) => Scalar::U8(*n),
            Scalar::U16(n) => Scalar::U16(*n),
            Scalar::U32(n) => Scalar::U32(*n),
            Scalar::U64(n) => Scalar::U64(*n),
            Scalar::I8(n) => Scalar::I8(*n),
            Scalar::I16(n) => Scalar::I16(*n),
            Scalar::I32(n) => Scalar::I32(*n),
            Scalar::I64(n) => Scalar::I64(*n),
            Scalar::Str(s) => Scalar::Str(s.clone()),
        }
    }
}

/// Whether `c` is one of the ten decimal digits `0` to `9`.
pub open spec fn is_digit(c: char) -> bool {
    '0' <= c && c <= '9'
}

/// Whether `s` is a non-empty run of decimal digits.
pub open spec fn is_digits(s: Seq<char>) -> bool {
    s.len() > 0 && forall|i: int| 0 <= i < s.len() ==> is_digit(#[trigger] s[i])
}

/// The number that a run of decimal digits denotes in base ten.
pub open spec fn digits_value(s: Seq<char>) -> nat
    decreases s.len(),
{
    if s.len() == 0 {
        0
    } else {
        (10 * digits_value(s.drop_last()) + (s.last() as int - '0' as int)) as nat
    }
}

/// The number that `s` denotes as an unsigned decimal literal: an optional
/// `+` followed by one or more digits and nothing else.
pub open spec fn unsigned_literal(s: Seq<char>) -> Option<int> {
    let digits = if s.len() > 0 && s[0] == '+' {
        s.skip(1)
    } else {
        s
    };
    if is_digits(digits) {
        Some(digits_value(digits) as int)
    } else {
        None
    }
}

/// The number that `s` denotes as a signed decimal literal: an optional `+`
/// or `-` followed by one or more digits and nothing else.
pub open spec fn signed_literal(s: Seq<char>) -> Option<int> {
    if s.len() > 0 && s[0] == '-' {
        if is_digits(s.skip(1)) {
            Some(-(digits_value(s.skip(1)) as int))
        } else {
            None
        }
    } else {
        unsigned_literal(s)
    }
}

/// The number that `s` denotes as a literal of an integer kind, where it is
/// one and the number fits the kind.
pub open spec fn integer_literal(kind: ScalarKind, s: Seq<char>) -> Option<int> {
    let (number, min, max): (Option<int>, int, int) = match kind {
        ScalarKind::U8 => (unsigned_literal(s), 0, u8::MAX as int),
        ScalarKind::U16 => (unsigned_literal(s), 0, u16::MAX as int),
        ScalarKind::U32 => (unsigned_literal(s), 0, u32::MAX as int),
        ScalarKind::U64 => (unsigned_literal(s), 0, u64::MAX as int),
        ScalarKind::I8 => (signed_literal(s), i8::MIN as int, i8::MAX as int),
        ScalarKind::I16 => (signed_literal(s), i16::MIN as int, i16::MAX as int),
        ScalarKind::I32 => (signed_literal(s), i32::MIN as int, i32::MAX as int),
        ScalarKind::I64 => (signed_literal(s), i64::MIN as int, i64::MAX as int),
        _ => (None, 0, 0),
    };
    match number {
        Some(n) if min <= n <= max => Some(n),
        _ => None,
    }
}

/// The value that `raw` denotes as a literal of the given kind, if it is
/// one: `true` or `false` for a boolean, a decimal literal in range for an
/// integer kind, any text for a string.
pub open spec fn literal(kind: ScalarKind, raw: Seq<char>) -> Option<ScalarView> {
    match kind {
        ScalarKind::Bool => if raw == "true"@ {
            Some(ScalarView::Bool(true))
        } else if raw == "false"@ {
            Some(ScalarView::Bool(false))
        } else {
            None
        },
        ScalarKind::Str => Some(ScalarView::Str(raw)),
        _ => match integer_literal(kind, raw) {
            Some(n) => Some(
                match kind {
                    ScalarKind::U8 => ScalarView::U8(n as u8),
                    ScalarKind::U16 => ScalarView::U16(n as u16),
                    ScalarKind::U32 => ScalarView::U32(n as u32),
                    ScalarKind::U64 => ScalarView::U64(n as u64),
                    ScalarKind::I8 => ScalarView::I8(n as i8),
                    ScalarKind::I16 => ScalarView::I16(n as i16),
                    ScalarKind::I32 => ScalarView::I32(n as i32),
                    _ => ScalarView::I64(n as i64),
                },
            ),
            None => None,
        },
    }
}

/// The character that stands for a digit from zero to nine.
pub open spec fn digit_char(digit: nat) -> char {
    (('0' as int + digit) as u8) as char
}

/// The decimal digits of a number, without leading zeros.
pub open spec fn decimal_text(n: nat) -> Seq<char>
    decreases n,
{
    if n < 10 {
        seq![digit_char(n)]
    } else {
        decimal_text(n / 10).push(digit_char(n % 10))
    }
}

/// The decimal digits of an integer, after a `-` where it is negative.
pub open spec fn integer_text(n: int) -> Seq<char> {
    if n < 0 {
        seq!['-'] + decimal_text((-n) as nat)
    } else {
        decimal_text(n as nat)
    }
}

/// The plain text of a value: `true` or `false`, the decimal digits of an
/// integer with a `-` before a negative one, or a string as it stands.
pub open spec fn scalar_text(value: ScalarView) -> Seq<char> {
    match value {
        ScalarView::Bool(flag) => if flag {
            "true"@
        } else {
            "false"@
        },
        ScalarView::U8(n) => integer_text(n as int),
        ScalarView::U16(n) => integer_text(n as int),
        ScalarView::U32(n) => integer_text(n as int),
        ScalarView::U64(n) => integer_text(n as int),
        ScalarView::I8(n) => integer_text(n as int),
        ScalarView::I16(n) => integer_text(n as int),
        ScalarView::I32(n) => integer_text(n as int),
        ScalarView::I64(n) => integer_text(n as int),
        ScalarView::Str(text) => text,
    }
}

/// The text with which `str::parse::<bool>` rejects `raw`.
pub uninterp spec fn bool_rejection(raw: Seq<char>) -> Seq<char>;

/// The text with which `str::parse::<u8>` rejects `raw`.
pub uninterp spec fn u8_rejection(raw: Seq<char>) -> Seq<char>;

/// The text with which `str::parse::<u16>` rejects `raw`.
pub uninterp spec fn u16_rejection(raw: Seq<char>) -> Seq<char>;

/// The text with which `str::parse::<u32>` rejects `raw`.
pub uninterp spec fn u32_rejection(raw: Seq<char>) -> Seq<char>;

/// The text with which `str::parse::<u64>` rejects `raw`.
pub uninterp spec fn u64_rejection(raw: Seq<char>) -> Seq<char>;

/// The text with which `str::parse::<i8>` rejects `raw`.
pub uninterp spec fn i8_rejection(raw: Seq<char>) -> Seq<char>;

/// The text with which `str::parse::<i16>` rejects `raw`.
pub uninterp spec fn i16_rejection(raw: Seq<char>) -> Seq<char>;

/// The text with which `str::parse::<i32>` rejects `raw`.
pub uninterp spec fn i32_rejection(raw: Seq<char>) -> Seq<char>;

/// The text with which `str::parse::<i64>` rejects `raw`.
pub uninterp spec fn i64_rejection(raw: Seq<char>) -> Seq<char>;

/// The reason given for rejecting `raw` as a literal of the given kind.
pub open spec fn rejection(kind: ScalarKind, raw: Seq<char>) -> Seq<char> {
    match kind {
        ScalarKind::Bool => bool_rejection(raw),
        ScalarKind::U8 => u8_rejection(raw),
        ScalarKind::U16 => u16_rejection(raw),
        ScalarKind::U32 => u32_rejection(raw),
        ScalarKind::U64 => u64_rejection(raw),
        ScalarKind::I8 => i8_rejection(raw),
        ScalarKind::I16 => i16_rejection(raw),
        ScalarKind::I32 => i32_rejection(raw),
        ScalarKind::I64 => i64_rejection(raw),
        ScalarKind::Str => Seq::empty(),
    }
}

/// What parsing `raw`, supplied under `key`, as the given kind yields: the
/// value that it denotes, or a custom error whose message gives the reason
/// for the rejection, the text and the key.
pub open spec fn parsed(kind: ScalarKind, key: Seq<char>, raw: Seq<char>) -> Result<
    ScalarView,
    ErrorView,
> {
    match literal(kind, raw) {
        Some(value) => Ok(value),
        None => Err(ErrorView::Custom(failure_message(rejection(kind, raw), raw, key))),
    }
}

/// Calls `str::parse::<bool>`. Trusted: `true` and `false` are the only
/// texts accepted, and a rejection's text depends on the input alone.
#[verifier::external_body]
fn parse_bool(s: &str) -> (r: Result<bool, String>)
    ensures
        match r {
            Ok(b) => literal(ScalarKind::Bool, s@) == Some(ScalarView::Bool(b)),
            Err(reason) => literal(ScalarKind::Bool, s@) is None && reason@ == bool_rejection(s@),
        },
{
    match s.parse::<bool>() {
        Ok(value) => Ok(value),
        Err(error) => Err(format!("{}", error)),
    }
}

/// Calls `str::parse::<u8>`. Trusted: a text is accepted exactly if it is
/// an optional `+` and decimal digits denoting a number that fits, which
/// is then the result; a rejection's text depends on the input alone.
#[verifier::external_body]
fn parse_u8(s: &str) -> (r: Result<u8, String>)
    ensures
        match r {
            Ok(n) => integer_literal(ScalarKind::U8, s@) == Some(n as int),
            Err(reason) => integer_literal(ScalarKind::U8, s@) is None && reason@ == u8_rejection(
                s@,
            ),
        },
{
    match s.parse::<u8>() {
        Ok(value) => Ok(value),
        Err(error) => Err(format!("{}", error)),
    }
}

/// Calls `str::parse::<u16>`. Trusted: a text is accepted exactly if it is
/// an optional `+` and decimal digits denoting a number that fits, which
/// is then the result; a rejection's text depends on the input alone.
#[verifier::external_body]
fn parse_u16(s: &str) -> (r: Result<u16, String>)
    ensures
        match r {
            Ok(n) => integer_literal(ScalarKind::U16, s@) == Some(n as int),
            Err(reason) => integer_literal(ScalarKind::U16, s@) is None && reason@
                == u16_rejection(s@),
        },
{
    match s.parse::<u16>() {
        Ok(value) => Ok(value),
        Err(error) => Err(format!("{}", error)),
    }
}

/// Calls `str::parse::<u32>`. Trusted: a text is accepted exactly if it is
/// an optional `+` and decimal digits denoting a number that fits, which
/// is then the result; a rejection's text depends on the input alone.
#[verifier::external_body]
fn parse_u32(s: &str) -> (r: Result<u32, String>)
    ensures
        match r {
            Ok(n) => integer_literal(ScalarKind::U32, s@) == Some(n as int),
            Err(reason) => integer_literal(ScalarKind::U32, s@) is None && reason@
                == u32_rejection(s@),
        },
{
    match s.parse::<u32>() {
        Ok(value) => Ok(value),
        Err(error) => Err(format!("{}", error)),
    }
}

/// Calls `str::parse::<u64>`. Trusted: a text is accepted exactly if it is
/// an optional `+` and decimal digits denoting a number that fits, which
/// is then the result; a rejection's text depends on the input alone.
#[verifier::external_body]
fn parse_u64(s: &str) -> (r: Result<u64, String>)
    ensures
        match r {
            Ok(n) => integer_literal(ScalarKind::U64, s@) == Some(n as int),
            Err(reason) => integer_literal(ScalarKind::U64, s@) is None && reason@
                == u64_rejection(s@),
        },
{
    match s.parse::<u64>() {
        Ok(value) => Ok(value),
        Err(error) => Err(format!("{}", error)),
    }
}

/// Calls `str::parse::<i8>`. Trusted: a text is accepted exactly if it is
/// an optional `+` or `-` and decimal digits denoting a number that fits,
/// which is then the result; a rejection's text depends on the input alone.
#[verifier::external_body]
fn parse_i8(s: &str) -> (r: Result<i8, String>)
    ensures
        match r {
            Ok(n) => integer_literal(ScalarKind::I8, s@) == Some(n as int),
            Err(reason) => integer_literal(ScalarKind::I8, s@) is None && reason@ == i8_rejection(
                s@,
            ),
        },
{
    match s.parse::<i8>() {
        Ok(value) => Ok(value),
        Err(error) => Err(format!("{}", error)),
    }
}

/// Calls `str::parse::<i16>`. Trusted: a text is accepted exactly if it is
/// an optional `+` or `-` and decimal digits denoting a number that fits,
/// which is then the result; a rejection's text depends on the input alone.
#[verifier::external_body]
fn parse_i16(s: &str) -> (r: Result<i16, String>)
    ensures
        match r {
            Ok(n) => integer_literal(ScalarKind::I16, s@) == Some(n as int),
            Err(reason) => integer_literal(ScalarKind::I16, s@) is None && reason@
                == i16_rejection(s@),
        },
{
    match s.parse::<i16>() {
        Ok(value) => Ok(value),
        Err(error) => Err(format!("{}", error)),
    }
}

/// Calls `str::parse::<i32>`. Trusted: a text is accepted exactly if it is
/// an optional `+` or `-` and decimal digits denoting a number that fits,
/// which is then the result; a rejection's text depends on the input alone.
#[verifier::external_body]
fn parse_i32(s: &str) -> (r: Result<i32, String>)
    ensures
        match r {
            Ok(n) => integer_literal(ScalarKind::I32, s@) == Some(n as int),
            Err(reason) => integer_literal(ScalarKind::I32, s@) is None && reason@
                == i32_rejection(s@),
        },
{
    match s.parse::<i32>() {
        Ok(value) => Ok(value),
        Err(error) => Err(format!("{}", error)),
    }
}

/// Calls `str::parse::<i64>`. Trusted: a text is accepted exactly if it is
/// an optional `+` or `-` and decimal digits denoting a number that fits,
/// which is then the result; a rejection's text depends on the input alone.
#[verifier::external_body]
fn parse_i64(s: &str) -> (r: Result<i64, String>)
    ensures
        match r {
            Ok(n) => integer_literal(ScalarKind::I64, s@) == Some(n as int),
            Err(reason) => integer_literal(ScalarKind::I64, s@) is None && reason@
                == i64_rejection(s@),
        },
{
    match s.parse::<i64>() {
        Ok(value) => Ok(value),
        Err(error) => Err(format!("{}", error)),
    }
}

/// Says what became of a parse: the value on success, and on failure the
/// custom error that names the reason, the text and the key.
pub fn parse_outcome(
    outcome: Result<Scalar, String>,
    key: &str,
    raw: &str,
) -> (r: Result<Scalar, Error>)
    ensures
        match outcome {
            Ok(value) => r matches Ok(v) && v == value,
            Err(reason) => r matches Err(e) && e@ == ErrorView::Custom(
                failure_message(reason@, raw@, key@),
            ),
        },
{
    match outcome {
        Ok(value) => Ok(value),
        Err(reason) => Err(Error::while_parsing(reason.as_str(), raw, key)),
    }
}

/// Parses `raw`, the value supplied under `key`, as a scalar of the given
/// kind.
pub fn parse_scalar(kind: ScalarKind, key: &str, raw: &str) -> (r: Result<Scalar, Error>)
    ensures
        result_view(r) == parsed(kind, key@, raw@),
{
    let outcome: Result<Scalar, String> = match kind {
        ScalarKind::Bool => match parse_bool(raw) {
            Ok(b) => Ok(Scalar::Bool(b)),
            Err(reason) => Err(reason),
        },
        ScalarKind::U8 => match parse_u8(raw) {
            Ok(n) => Ok(Scalar::U8(n)),
            Err(reason) => Err(reason),
        },
        ScalarKind::U16 => match parse_u16(raw) {
            Ok(n) => Ok(Scalar::U16(n)),
            Err(reason) => Err(reason),
        },
        ScalarKind::U32 => match parse_u32(raw) {
            Ok(n) => Ok(Scalar::U32(n)),
            Err(reason) => Err(reason),
        },
        ScalarKind::U64 => match parse_u64(raw) {
            Ok(n) => Ok(Scalar::U64(n)),
            Err(reason) => Err(reason),
        },
        ScalarKind::I8 => match parse_i8(raw) {
            Ok(n) => Ok(Scalar::I8(n)),
            Err(reason) => Err(reason),
        },
        ScalarKind::I16 => match parse_i16(raw) {
            Ok(n) => Ok(Scalar::I16(n)),
            Err(reason) => Err(reason),
        },
        ScalarKind::I32 => match parse_i32(raw) {
            Ok(n) => Ok(Scalar::I32(n)),
            Err(reason) => Err(reason),
        },
        ScalarKind::I64 => match parse_i64(raw) {
            Ok(n) => Ok(Scalar::I64(n)),
            Err(reason) => Err(reason),
        },
        ScalarKind::Str => Ok(Scalar::Str(raw.to_owned())),
    };
    parse_outcome(outcome, key, raw)
}

/// Parsing accepts exactly the literals of the kind, and yields the value
/// that the literal denotes. What it rejects, it rejects with a custom
/// error whose message contains the rejected text and the key that
/// supplied it.
pub proof fn lemma_parsed(kind: ScalarKind, key: Seq<char>, raw: Seq<char>)
    ensures
        match parsed(kind, key, raw) {
            Ok(value) => literal(kind, raw) == Some(value) && value.kind() == kind,
            Err(error) => {
                &&& literal(kind, raw) is None
                &&& error matches ErrorView::Custom(message)
                &&& contains_text(message, raw)
                &&& contains_text(message, key)
            },
        },
{
    lemma_failure_message_names_value_and_key(rejection(kind, raw), raw, key);
}

/// The decimal digits of a number are a run of digits that denotes it.
pub proof fn lemma_decimal_text(n: nat)
    ensures
        is_digits(decimal_text(n)),
        digits_value(decimal_text(n)) == n,
    decreases n,
{
    let text = decimal_text(n);
    if n < 10 {
        assert(text.drop_last() =~= Seq::<char>::empty());
        assert(digits_value(text.drop_last()) == 0);
    } else {
        lemma_decimal_text(n / 10);
        assert(text.drop_last() =~= decimal_text(n / 10));
        assert(text.last() == digit_char(n % 10));
    }
}

/// The decimal text of an integer is a signed literal that denotes it, and
/// an unsigned literal too where the integer is not negative.
pub proof fn lemma_integer_text(n: int)
    ensures
        signed_literal(integer_text(n)) == Some(n),
        n >= 0 ==> unsigned_literal(integer_text(n)) == Some(n),
{
    let text = integer_text(n);
    if n < 0 {
        lemma_decimal_text((-n) as nat);
        assert(text.skip(1) =~= decimal_text((-n) as nat));
    } else {
        lemma_decimal_text(n as nat);
        assert(is_digit(text[0]));
    }
}

/// The plain text of a value parses back to the value, whatever key
/// supplies it.
pub proof fn lemma_text_round_trips(value: ScalarView, key: Seq<char>)
    ensures
        parsed(value.kind(), key, scalar_text(value)) == Ok::<ScalarView, ErrorView>(value),
{
    match value {
        ScalarView::Bool(flag) => {
            reveal_strlit("true");
            reveal_strlit("false");
        },
        ScalarView::U8(n) => lemma_integer_text(n as int),
        ScalarView::U16(n) => lemma_integer_text(n as int),
        ScalarView::U32(n) => lemma_integer_text(n as int),
        ScalarView::U64(n) => lemma_integer_text(n as int),
        ScalarView::I8(n) => lemma_integer_text(n as int),
        ScalarView::I16(n) => lemma_integer_text(n as int),
        ScalarView::I32(n) => lemma_integer_text(n as int),
        ScalarView::I64(n) => lemma_integer_text(n as int),
        ScalarView::Str(text) => {},
    }
}

/// Text is never rejected as a string, and is copied through unchanged.
pub proof fn lemma_parsed_string(key: Seq<char>, raw: Seq<char>)
    ensures
        parsed(ScalarKind::Str, key, raw) == Ok::<ScalarView, ErrorView>(ScalarView::Str(raw)),
{
}

} // verus!
