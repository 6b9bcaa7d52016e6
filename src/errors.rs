use vstd::prelude::*;

use crate::names::{decimal, decimal_string};

verus! {

/// The ways in which reading, validating or converting a log file can fail.
#[derive(Debug, Clone)]
pub enum ParseError {
    InvalidFileFormat { device: String },
    MissingRequiredHeader { field: String },
    UnknownVariable { variable: String },
    MissingRequiredVariable { variable: String, config: String },
    MalformedDataSection { expected: usize, found: usize },
    DataTypeError { value: String, expected_type: String, variable: String },
    Io { message: String },
    TomlParse { message: String },
    InvalidHeaderFormat { message: String },
    EmptyDataSection,
}

/// A `ParseError` with its texts as character sequences.
pub enum ErrorView {
    InvalidFileFormat { device: Seq<char> },
    MissingRequiredHeader { field: Seq<char> },
    UnknownVariable { variable: Seq<char> },
    MissingRequiredVariable { variable: Seq<char>, config: Seq<char> },
    MalformedDataSection { expected: nat, found: nat },
    DataTypeError { value: Seq<char>, expected_type: Seq<char>, variable: Seq<char> },
    Io { message: Seq<char> },
    TomlParse { message: Seq<char> },
    InvalidHeaderFormat { message: Seq<char> },
    EmptyDataSection,
}

impl View for ParseError {
    type V = ErrorView;

    open spec fn view(&self) -> ErrorView {
        match self {
            ParseError::InvalidFileFormat { device } => ErrorView::InvalidFileFormat {
                device: device@,
            },
            ParseError::MissingRequiredHeader { field } => ErrorView::MissingRequiredHeader {
                field: field@,
            },
            ParseError::UnknownVariable { variable } => ErrorView::UnknownVariable {
                variable: variable@,
            },
            ParseError::MissingRequiredVariable { variable, config } =>
                ErrorView::MissingRequiredVariable { variable: variable@, config: config@ },
            ParseError::MalformedDataSection { expected, found } =>
                ErrorView::MalformedDataSection { expected: *expected as nat, found: *found as nat },
            ParseError::DataTypeError { value, expected_type, variable } =>
                ErrorView::DataTypeError {
                    value: value@,
                    expected_type: expected_type@,
                    variable: variable@,
                },
            ParseError::Io { message } => ErrorView::Io { message: message@ },
            ParseError::TomlParse { message } => ErrorView::TomlParse { message: message@ },
            ParseError::InvalidHeaderFormat { message } => ErrorView::InvalidHeaderFormat {
                message: message@,
            },
            ParseError::EmptyDataSection => ErrorView::EmptyDataSection,
        }
    }
}

/// The line of text that describes an error.
pub open spec fn message_of(e: ErrorView) -> Seq<char> {
    match e {
        ErrorView::InvalidFileFormat { device } => "Invalid file format for device "@ + device,
        ErrorView::MissingRequiredHeader { field } => "Missing required header field: "@ + field,
        ErrorView::UnknownVariable { variable } => "Unknown variable: "@ + variable,
        ErrorView::MissingRequiredVariable { variable, config } => "Missing required variable '"@
            + variable + "' for config '"@ + config + "'"@,
        ErrorView::MalformedDataSection { expected, found } => "Malformed data section: expected "@
            + decimal(expected) + " columns, found "@ + decimal(found),
        ErrorView::DataTypeError { value, expected_type, variable } =>
            "Data type error for variable '"@ + variable + "': cannot convert '"@ + value + "' to "@
                + expected_type,
        ErrorView::Io { message } => "IO error: "@ + message,
        ErrorView::TomlParse { message } => "TOML parsing error: "@ + message,
        ErrorView::InvalidHeaderFormat { message } => "Invalid header format: "@ + message,
        ErrorView::EmptyDataSection => "Empty or invalid data section"@,
    }
}

impl ParseError {
    /// The error as a line of text.
    pub fn message(&self) -> (r: String)
        ensures
            r@ == message_of(self@),
    {
        match self {
            ParseError::InvalidFileFormat { device } => {
                let mut s = String::from_str("Invalid file format for device ");
                s.append(device.as_str());
                s
            },
            ParseError::MissingRequiredHeader { field } => {
                let mut s = String::from_str("Missing required header field: ");
                s.append(field.as_str());
                s
            },
            ParseError::UnknownVariable { variable } => {
                let mut s = String::from_str("Unknown variable: ");
                s.append(variable.as_str());
                s
            },
            ParseError::MissingRequiredVariable { variable, config } => {
                let mut s = String::from_str("Missing required variable '");
                s.append(variable.as_str());
                s.append("' for config '");
                s.append(config.as_str());
                s.append("'");
                s
            },
            ParseError::MalformedDataSection { expected, found } => {
                let mut s = String::from_str("Malformed data section: expected ");
                s.append(decimal_string(*expected as u64).as_str());
                s.append(" columns, found ");
                s.append(decimal_string(*found as u64).as_str());
                s
            },
            ParseError::DataTypeError { value, expected_type, variable } => {
                let mut s = String::from_str("Data type error for variable '");
                s.append(variable.as_str());
                s.append("': cannot convert '");
                s.append(value.as_str());
                s.append("' to ");
                s.append(expected_type.as_str());
                s
            },
            ParseError::Io { message } => {
                let mut s = String::from_str("IO error: ");
                s.append(message.as_str());
                s
            },
            ParseError::TomlParse { message } => {
                let mut s = String::from_str("TOML parsing error: ");
                s.append(message.as_str());
                s
            },
            ParseError::InvalidHeaderFormat { message } => {
                let mut s = String::from_str("Invalid header format: ");
                s.append(message.as_str());
                s
            },
            ParseError::EmptyDataSection => String::from_str("Empty or invalid data section"),
        }
    }
}

} // verus!
