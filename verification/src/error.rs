//! The two ways in which decoding fails.

use vstd::prelude::*;
use vstd::string::*;

verus! {

/// Why a record could not be decoded.
#[derive(Debug, Clone, PartialEq)]
pub enum Error {
    /// A required field had no value among the pairs and no default.
    /// Carries the field's name.
    MissingValue(String),
    /// Any other failure: text that does not parse as the declared scalar,
    /// a tag that names no variant, a record nested too deeply. Carries the
    /// full message.
    Custom(String),
}

/// The mathematical value of an [`Error`].
pub enum ErrorView {
    MissingValue(Seq<char>),
    Custom(Seq<char>),
}

impl ErrorView {
    /// The text shown to a user for this error.
    pub open spec fn message(self) -> Seq<char> {
        match self {
            ErrorView::MissingValue(field) => "missing value for "@ + field,
            ErrorView::Custom(msg) => msg,
        }
    }

    /// A fixed phrase naming the kind of error, without its details.
    pub open spec fn description(self) -> Seq<char> {
        match self {
            ErrorView::MissingValue(_) => "missing value"@,
            ErrorView::Custom(_) => "custom error"@,
        }
    }
}

/// The message of a failure to parse: the reason, then the text that was
/// rejected, then the key that supplied it.
pub open spec fn failure_message(reason: Seq<char>, raw: Seq<char>, key: Seq<char>) -> Seq<char> {
    reason + " while parsing value '"@ + raw + "' provided by "@ + key
}

/// Whether `part` occurs in `text` as a run of adjacent characters.
pub open spec fn contains_text(text: Seq<char>, part: Seq<char>) -> bool {
    exists|at: int| 0 <= at <= text.len() - part.len() && #[trigger] text.subrange(
        at,
        at + part.len(),
    ) == part
}

/// The view of a result: the view of what it holds, on either side.
pub open spec fn result_view<T: View, E: View>(r: Result<T, E>) -> Result<T::V, E::V> {
    match r {
        Ok(value) => Ok(value@),
        Err(error) => Err(error@),
    }
}

impl View for Error {
    type V = ErrorView;

    open spec fn view(&self) -> ErrorView {
        match self {
            Error::MissingValue(field) => ErrorView::MissingValue(field@),
            Error::Custom(msg) => ErrorView::Custom(msg@),
        }
    }
}

impl Error {
    /// An error carrying `msg` as its whole message.
    pub fn custom(msg: &str) -> (e: Error)
        ensures
            e@ == ErrorView::Custom(msg@),
    {
        Error::Custom(String::from_str(msg))
    }

    /// The error for a required field named `field` that has no value.
    pub fn missing_field(field: &str) -> (e: Error)
        ensures
            e@ == ErrorView::MissingValue(field@),
    {
        Error::MissingValue(String::from_str(field))
    }

    /// The error for text that was rejected: a custom error whose message
    /// gives the reason, the rejected text and the key that supplied it.
    pub fn while_parsing(reason: &str, raw: &str, key: &str) -> (e: Error)
        ensures
            e@ == ErrorView::Custom(failure_message(reason@, raw@, key@)),
    {
        let mut text = String::from_str(reason);
        text.append(" while parsing value '");
        text.append(raw);
        text.append("' provided by ");
        text.append(key);
        Error::Custom(text)
    }

    /// The text shown to a user: `missing value for ` followed by the
    /// field's name, or the custom message as it stands.
    pub fn to_string(&self) -> (text: String)
        ensures
            text@ == self@.message(),
    {
        match self {
            Error::MissingValue(field) => {
                let mut text = String::from_str("missing value for ");
                text.append(field.as_str());
                text
            },
            Error::Custom(msg) => msg.clone(),
        }
    }

    /// A fixed phrase naming the kind of error: `missing value` or
    /// `custom error`.
    pub fn description(&self) -> (text: &'static str)
        ensures
            text@ == self@.description(),
    {
        match self {
            Error::MissingValue(_) => "missing value",
            Error::Custom(_) => "custom error",
        }
    }
}

/// The message of a failure to parse contains the rejected text and the
/// key that supplied it.
pub proof fn lemma_failure_message_names_value_and_key(
    reason: Seq<char>,
    raw: Seq<char>,
    key: Seq<char>,
)
    ensures
        contains_text(failure_message(reason, raw, key), raw),
        contains_text(failure_message(reason, raw, key), key),
{
    let text = failure_message(reason, raw, key);
    let before_raw = reason + " while parsing value '"@;
    let before_key = before_raw + raw + "' provided by "@;
    let raw_at = before_raw.len() as int;
    let key_at = before_key.len() as int;
    assert(text.subrange(raw_at, raw_at + raw.len()) =~= raw);
    assert(text.subrange(key_at, key_at + key.len()) =~= key);
}

} // verus!
