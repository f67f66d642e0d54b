//! Why a JSON mod description was refused.

use vstd::prelude::*;
use vstd::string::StringExecFns;
use crate::mode::GameMode;

verus! {

/// A JSON mod description that was refused. Only the JSON form can be
/// refused; a bit mask and a string of acronyms always give mods.
#[derive(Debug)]
pub enum ParseError {
    /// The text is no JSON.
    MalformedJson { message: String },
    /// The mode has no mod of that acronym.
    UnknownModAcronym { acronym: String, mode: GameMode },
    /// The mod of that acronym does not take the value that the element
    /// gives for a setting.
    InvalidSettingValue { acronym: String, setting: String, message: String },
    /// The element does not have the shape of a mod.
    DeserializationFailure { message: String },
}

/// A `ParseError` in specifications.
pub enum ParseErrorView {
    MalformedJson { message: Seq<char> },
    UnknownModAcronym { acronym: Seq<char>, mode: GameMode },
    InvalidSettingValue { acronym: Seq<char>, setting: Seq<char>, message: Seq<char> },
    DeserializationFailure { message: Seq<char> },
}

impl View for ParseError {
    type V = ParseErrorView;

    open spec fn view(&self) -> ParseErrorView {
        match self {
            ParseError::MalformedJson { message } => ParseErrorView::MalformedJson {
                message: message@,
            },
            ParseError::UnknownModAcronym { acronym, mode } => ParseErrorView::UnknownModAcronym {
                acronym: acronym@,
                mode: *mode,
            },
            ParseError::InvalidSettingValue {
                acronym,
                setting,
                message,
            } => ParseErrorView::InvalidSettingValue {
                acronym: acronym@,
                setting: setting@,
                message: message@,
            },
            ParseError::DeserializationFailure {
                message,
            } => ParseErrorView::DeserializationFailure { message: message@ },
        }
    }
}

impl ParseErrorView {
    /// The text that `ParseError::message` gives.
    pub open spec fn message(self) -> Seq<char> {
        match self {
            ParseErrorView::MalformedJson { message } => message,
            ParseErrorView::UnknownModAcronym { acronym, mode } => "unknown mod acronym: "@
                + acronym,
            ParseErrorView::InvalidSettingValue { acronym, setting, message } => message,
            ParseErrorView::DeserializationFailure { message } => message,
        }
    }
}

impl Clone for ParseError {
    fn clone(&self) -> (r: Self)
        ensures
            r@ == self@,
    {
        match self {
            ParseError::MalformedJson { message } => ParseError::MalformedJson {
                message: message.clone(),
            },
            ParseError::UnknownModAcronym { acronym, mode } => ParseError::UnknownModAcronym {
                acronym: acronym.clone(),
                mode: *mode,
            },
            ParseError::InvalidSettingValue {
                acronym,
                setting,
                message,
            } => ParseError::InvalidSettingValue {
                acronym: acronym.clone(),
                setting: setting.clone(),
                message: message.clone(),
            },
            ParseError::DeserializationFailure {
                message,
            } => ParseError::DeserializationFailure { message: message.clone() },
        }
    }
}

impl ParseError {
    /// The error in words.
    pub fn message(&self) -> (r: String)
        ensures
            r@ == self@.message(),
    {
        match self {
            ParseError::MalformedJson { message } => message.clone(),
            ParseError::UnknownModAcronym { acronym, mode } => "unknown mod acronym: ".to_owned().concat(
                acronym.as_str(),
            ),
            ParseError::InvalidSettingValue { acronym, setting, message } => message.clone(),
            ParseError::DeserializationFailure { message } => message.clone(),
        }
    }
}

} // verus!
