//! Error types for the MT940 parser.
use vstd::prelude::*;
use crate::text::push_str;

verus! {

/// Error types for the x940 MT940 parser.
#[allow(inconsistent_fields)]
#[derive(Debug)]
pub enum ParseError {
    /// The input is empty or contains no MT940 data
    EmptyInput,
    /// A mandatory tag (e.g., `:20:`, `:25:`, `:60F:`, `:62F:`) is missing
    MissingTag { tag: &'static str, context: String },
    /// A tag expected by the current FSM state appeared in the wrong order
    UnexpectedTag { tag: String, expected_state: String },
    /// Could not parse a date field (expected YYMMDD format)
    InvalidDate { value: String, tag: &'static str },
    /// Could not parse an amount field (expected comma-decimal format)
    InvalidAmount { value: String, tag: &'static str },
    /// A tag value does not match the expected SWIFT format
    InvalidFormat { tag: &'static str, value: String, reason: String },
    /// Underlying I/O or string parsing error
    Parse { message: String },
    /// A duplicate mandatory tag was found when only one is allowed
    DuplicateTag { tag: &'static str },
}

/// Abstract value of a [`ParseError`].
pub enum ParseErrorV {
    EmptyInput,
    MissingTag { tag: Seq<char>, context: Seq<char> },
    UnexpectedTag { tag: Seq<char>, expected_state: Seq<char> },
    InvalidDate { value: Seq<char>, tag: Seq<char> },
    InvalidAmount { value: Seq<char>, tag: Seq<char> },
    InvalidFormat { tag: Seq<char>, value: Seq<char>, reason: Seq<char> },
    Parse { message: Seq<char> },
    DuplicateTag { tag: Seq<char> },
}

impl View for ParseError {
    type V = ParseErrorV;

    open spec fn view(&self) -> ParseErrorV {
        match self {
            ParseError::EmptyInput => ParseErrorV::EmptyInput,
            ParseError::MissingTag { tag, context } => ParseErrorV::MissingTag {
                tag: tag@,
                context: context@,
            },
            ParseError::UnexpectedTag { tag, expected_state } => ParseErrorV::UnexpectedTag {
                tag: tag@,
                expected_state: expected_state@,
            },
            ParseError::InvalidDate { value, tag } => ParseErrorV::InvalidDate {
                value: value@,
                tag: tag@,
            },
            ParseError::InvalidAmount { value, tag } => ParseErrorV::InvalidAmount {
                value: value@,
                tag: tag@,
            },
            ParseError::InvalidFormat { tag, value, reason } => ParseErrorV::InvalidFormat {
                tag: tag@,
                value: value@,
                reason: reason@,
            },
            ParseError::Parse { message } => ParseErrorV::Parse { message: message@ },
            ParseError::DuplicateTag { tag } => ParseErrorV::DuplicateTag { tag: tag@ },
        }
    }
}

/// The error for a date field that is not a valid `YYMMDD` date.
pub open spec fn invalid_date_v(value: Seq<char>) -> ParseErrorV {
    ParseErrorV::InvalidDate { value, tag: "(date field)"@ }
}

/// The error for an amount field that is not a decimal number.
pub open spec fn invalid_amount_v(value: Seq<char>) -> ParseErrorV {
    ParseErrorV::InvalidAmount { value, tag: "(amount field)"@ }
}

/// The human-readable message of an error.
pub open spec fn error_message(e: ParseErrorV) -> Seq<char> {
    match e {
        ParseErrorV::EmptyInput => "Input contains no MT940 data"@,
        ParseErrorV::MissingTag { tag, context } => "Missing mandatory tag "@ + tag + " ("@
            + context + ")"@,
        ParseErrorV::UnexpectedTag { tag, expected_state } => "Unexpected tag "@ + tag
            + " in state "@ + expected_state,
        ParseErrorV::InvalidDate { value, tag } => "Invalid date '"@ + value + "' in tag "@ + tag,
        ParseErrorV::InvalidAmount { value, tag } => "Invalid amount '"@ + value + "' in tag "@
            + tag,
        ParseErrorV::InvalidFormat { tag, value, reason } => "Invalid format in tag "@ + tag
            + ": '"@ + value + "': "@ + reason,
        ParseErrorV::Parse { message } => "Parse error: "@ + message,
        ParseErrorV::DuplicateTag { tag } => "Duplicate mandatory tag "@ + tag,
    }
}

impl ParseError {
    /// The human-readable message.
    pub fn to_string(&self) -> (s: String)
        ensures
            s@ == error_message(self@),
    {
        let mut s = String::new();
        match self {
            ParseError::EmptyInput => {
                push_str(&mut s, "Input contains no MT940 data");
            },
            ParseError::MissingTag { tag, context } => {
                push_str(&mut s, "Missing mandatory tag ");
                push_str(&mut s, tag);
                push_str(&mut s, " (");
                push_str(&mut s, context.as_str());
                push_str(&mut s, ")");
            },
            ParseError::UnexpectedTag { tag, expected_state } => {
                push_str(&mut s, "Unexpected tag ");
                push_str(&mut s, tag.as_str());
                push_str(&mut s, " in state ");
                push_str(&mut s, expected_state.as_str());
            },
            ParseError::InvalidDate { value, tag } => {
                push_str(&mut s, "Invalid date '");
                push_str(&mut s, value.as_str());
                push_str(&mut s, "' in tag ");
                push_str(&mut s, tag);
            },
            ParseError::InvalidAmount { value, tag } => {
                push_str(&mut s, "Invalid amount '");
                push_str(&mut s, value.as_str());
                push_str(&mut s, "' in tag ");
                push_str(&mut s, tag);
            },
            ParseError::InvalidFormat { tag, value, reason } => {
                push_str(&mut s, "Invalid format in tag ");
                push_str(&mut s, tag);
                push_str(&mut s, ": '");
                push_str(&mut s, value.as_str());
                push_str(&mut s, "': ");
                push_str(&mut s, reason.as_str());
            },
            ParseError::Parse { message } => {
                push_str(&mut s, "Parse error: ");
                push_str(&mut s, message.as_str());
            },
            ParseError::DuplicateTag { tag } => {
                push_str(&mut s, "Duplicate mandatory tag ");
                push_str(&mut s, tag);
            },
        }
        s
    }
}

} // verus!
