//! Errors that an exchange returns for a WebSocket command (SUBSCRIBE,
//! UNSUBSCRIBE, SET_PROPERTY, ...), and their classification.
use vstd::prelude::*;

use crate::text::{chars_of, contains, contains_seq, find_char, first_index_of, i64_to_string, signed_decimal, string_from_chars, sub_chars};

verus! {

/// Raw error response to a WebSocket command.
#[derive(Debug)]
pub struct WsErrorPayload<'a> {
    pub code: i64,
    pub msg: &'a str,
}

/// Typed WebSocket command error for matchable error handling.
#[derive(Debug, Clone, PartialEq, Eq)]
pub enum WsError {
    /// code 0: unknown or malformed property in SET_PROPERTY / GET_PROPERTY
    UnknownProperty,
    /// code 1: value was not a boolean
    InvalidValueType,
    /// code 2: "property name must be a string"
    InvalidPropertyName,
    /// code 2: "request ID must be an unsigned integer"
    InvalidRequestId,
    /// code 2: "unknown variant X, expected SUBSCRIBE|UNSUBSCRIBE|..."
    UnknownMethod,
    /// code 2: "too many parameters"
    TooManyParameters,
    /// code 2: "missing field `<name>` at line N column M"
    MissingField(String),
    /// code 3: "Invalid JSON: expected value at line N column M"
    InvalidJson,
    /// Any unrecognised code and message.
    Unknown { code: i64, msg: String },
}

/// A [`WsError`] with its texts as character sequences.
pub enum WsErrorModel {
    UnknownProperty,
    InvalidValueType,
    InvalidPropertyName,
    InvalidRequestId,
    UnknownMethod,
    TooManyParameters,
    MissingField(Seq<char>),
    InvalidJson,
    Unknown { code: i64, msg: Seq<char> },
}

impl View for WsError {
    type V = WsErrorModel;

    open spec fn view(&self) -> WsErrorModel {
        match self {
            WsError::UnknownProperty => WsErrorModel::UnknownProperty,
            WsError::InvalidValueType => WsErrorModel::InvalidValueType,
            WsError::InvalidPropertyName => WsErrorModel::InvalidPropertyName,
            WsError::InvalidRequestId => WsErrorModel::InvalidRequestId,
            WsError::UnknownMethod => WsErrorModel::UnknownMethod,
            WsError::TooManyParameters => WsErrorModel::TooManyParameters,
            WsError::MissingField(f) => WsErrorModel::MissingField(f@),
            WsError::InvalidJson => WsErrorModel::InvalidJson,
            WsError::Unknown { code, msg } => WsErrorModel::Unknown { code: *code, msg: msg@ },
        }
    }
}

/// The text between the first backtick of `msg` and the next one (the rest of
/// `msg` when there is no second backtick), or `?` when `msg` has none: the
/// second piece of `msg` split at backticks.
pub open spec fn backtick_field(msg: Seq<char>) -> Seq<char> {
    match first_index_of(msg, '`') {
        None => "?"@,
        Some(i) => {
            let rest = msg.subrange(i + 1, msg.len() as int);
            match first_index_of(rest, '`') {
                None => rest,
                Some(j) => rest.subrange(0, j),
            }
        },
    }
}

/// The classification of an error response with code `code` and message
/// `msg`. Code 2 is told apart by the first of these phrases that the message
/// contains.
pub open spec fn classification(code: i64, msg: Seq<char>) -> WsErrorModel {
    if code == 0 {
        WsErrorModel::UnknownProperty
    } else if code == 1 {
        WsErrorModel::InvalidValueType
    } else if code == 2 {
        if contains_seq(msg, "property name must be a string"@) {
            WsErrorModel::InvalidPropertyName
        } else if contains_seq(msg, "request ID must be an unsigned integer"@) {
            WsErrorModel::InvalidRequestId
        } else if contains_seq(msg, "unknown variant"@) {
            WsErrorModel::UnknownMethod
        } else if contains_seq(msg, "too many parameters"@) {
            WsErrorModel::TooManyParameters
        } else if contains_seq(msg, "missing field"@) {
            WsErrorModel::MissingField(backtick_field(msg))
        } else {
            WsErrorModel::Unknown { code: 2, msg }
        }
    } else if code == 3 {
        WsErrorModel::InvalidJson
    } else {
        WsErrorModel::Unknown { code, msg }
    }
}

/// Codes 0, 1 and 3 each name one error, whatever the message says.
pub proof fn law_fixed_codes_ignore_message(code: i64, m1: Seq<char>, m2: Seq<char>)
    requires
        code == 0 || code == 1 || code == 3,
    ensures
        classification(code, m1) == classification(code, m2),
{
}

/// A code other than 0 to 3 is unknown, with its code and message kept.
pub proof fn law_unknown_code_kept(code: i64, msg: Seq<char>)
    requires
        code < 0 || code > 3,
    ensures
        classification(code, msg) == (WsErrorModel::Unknown { code, msg }),
{
}

/// The display text of an error.
pub open spec fn error_text(e: WsErrorModel) -> Seq<char> {
    match e {
        WsErrorModel::UnknownProperty => "unknown property in SET_PROPERTY / GET_PROPERTY"@,
        WsErrorModel::InvalidValueType => "invalid value type: expected boolean"@,
        WsErrorModel::InvalidPropertyName => "property name must be a string"@,
        WsErrorModel::InvalidRequestId => "request ID must be an unsigned integer"@,
        WsErrorModel::UnknownMethod => "unknown method — expected SUBSCRIBE, UNSUBSCRIBE, LIST_SUBSCRIPTIONS, SET_PROPERTY, or GET_PROPERTY"@,
        WsErrorModel::TooManyParameters => "too many parameters"@,
        WsErrorModel::MissingField(f) => "missing field `"@ + f + "`"@,
        WsErrorModel::InvalidJson => "invalid JSON"@,
        WsErrorModel::Unknown { code, msg } => "["@ + signed_decimal(code as int) + "] "@ + msg,
    }
}

/// The field named in a "missing field" message.
fn backtick_field_of(msg: &[char]) -> (f: String)
    ensures
        f@ == backtick_field(msg@),
{
    let n = msg.len();
    let found = find_char(msg, '`');
    match found {
        None => "?".to_owned(),
        Some(i) => {
            assert(i < n);
            let rest = sub_chars(msg, i + 1, n);
            let found2 = find_char(rest.as_slice(), '`');
            match found2 {
                None => string_from_chars(rest.as_slice()),
                Some(j) => {
                    let field = sub_chars(rest.as_slice(), 0, j);
                    string_from_chars(field.as_slice())
                },
            }
        },
    }
}

impl<'a> WsErrorPayload<'a> {
    /// Converts into a typed [`WsError`]: codes 0, 1 and 3 each name one
    /// error, code 2 is told apart by its message, any other code is
    /// [`WsError::Unknown`].
    pub fn classify(self) -> (e: WsError)
        ensures
            e@ == classification(self.code, self.msg@),
    {
        match self.code {
            0 => WsError::UnknownProperty,
            1 => WsError::InvalidValueType,
            2 => {
                let msg = chars_of(self.msg);
                if contains(msg.as_slice(), chars_of("property name must be a string").as_slice()) {
                    WsError::InvalidPropertyName
                } else if contains(msg.as_slice(), chars_of("request ID must be an unsigned integer").as_slice()) {
                    WsError::InvalidRequestId
                } else if contains(msg.as_slice(), chars_of("unknown variant").as_slice()) {
                    WsError::UnknownMethod
                } else if contains(msg.as_slice(), chars_of("too many parameters").as_slice()) {
                    WsError::TooManyParameters
                } else if contains(msg.as_slice(), chars_of("missing field").as_slice()) {
                    WsError::MissingField(backtick_field_of(msg.as_slice()))
                } else {
                    WsError::Unknown { code: 2, msg: self.msg.to_owned() }
                }
            },
            3 => WsError::InvalidJson,
            code => WsError::Unknown { code, msg: self.msg.to_owned() },
        }
    }
}

impl WsError {
    /// The display text of the error.
    pub fn to_string(&self) -> (s: String)
        ensures
            s@ == error_text(self@),
    {
        match self {
            WsError::UnknownProperty => "unknown property in SET_PROPERTY / GET_PROPERTY".to_owned(),
            WsError::InvalidValueType => "invalid value type: expected boolean".to_owned(),
            WsError::InvalidPropertyName => "property name must be a string".to_owned(),
            WsError::InvalidRequestId => "request ID must be an unsigned integer".to_owned(),
            WsError::UnknownMethod => "unknown method — expected SUBSCRIBE, UNSUBSCRIBE, LIST_SUBSCRIPTIONS, SET_PROPERTY, or GET_PROPERTY".to_owned(),
            WsError::TooManyParameters => "too many parameters".to_owned(),
            WsError::MissingField(field) => {
                let mut s = "missing field `".to_owned();
                s.append(field.as_str());
                s.append("`");
                s
            },
            WsError::InvalidJson => "invalid JSON".to_owned(),
            WsError::Unknown { code, msg } => {
                let mut s = "[".to_owned();
                let digits = i64_to_string(*code);
                s.append(digits.as_str());
                s.append("] ");
                s.append(msg.as_str());
                s
            },
        }
    }
}

} // verus!
