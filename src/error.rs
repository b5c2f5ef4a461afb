//! The errors of every stage, and their plain models.
use vstd::prelude::*;
use crate::text::{append_str, decimal, push_decimal, string_of};

verus! {

/// The kind of a lexical token.
#[derive(PartialEq, Eq, Clone, Copy, Debug, Structural)]
pub enum LexTokenKind {
    Open,
    Close,
    Pattern,
    Name,
    Char,
    EscapedChar,
    Modifier,
    End,
}

impl LexTokenKind {
    /// The upper-case name of the kind, as error messages show it.
    pub fn label(&self) -> (r: &'static str)
        ensures
            r@ == label_model(*self),
    {
        match self {
            LexTokenKind::Open => "OPEN",
            LexTokenKind::Close => "CLOSE",
            LexTokenKind::Pattern => "PATTERN",
            LexTokenKind::Name => "NAME",
            LexTokenKind::Char => "CHAR",
            LexTokenKind::EscapedChar => "ESCAPEDCHAR",
            LexTokenKind::Modifier => "MODIFIER",
            LexTokenKind::End => "END",
        }
    }
}

/// Every way parsing, compiling, matching or rendering can fail.
#[derive(Debug)]
pub enum PathError {
    /// A `\` is the last character of the pattern.
    UnexpectedEnd { index: usize },
    /// A `:` is not followed by a name.
    MissingParameterName { index: usize },
    /// A `(` is directly followed by `?`.
    PatternCannotStartWithQuestionMark { index: usize },
    /// A group inside a pattern does not start with `(?`.
    CapturingGroupNotAllowed { index: usize },
    /// A `(` has no matching `)`.
    UnbalancedPattern { index: usize },
    /// A `(...)` holds nothing.
    MissingPattern { index: usize },
    /// A token stands where another kind was required.
    UnexpectedToken { found: LexTokenKind, index: usize, expected: LexTokenKind },
    /// The assembled regular expression does not compile.
    RegexBuild(regex::Error),
    /// No usable value was given for a required parameter.
    MissingRequiredValue { name: String, expected_type: String },
    /// A list was given for a parameter that does not repeat.
    UnexpectedArray { name: String },
    /// A single value was given for a repeating parameter.
    ExpectedArray { name: String },
    /// An empty list was given for a "+" parameter.
    EmptyRepeat { name: String },
    /// A value does not match its parameter's pattern.
    PatternMismatch { name: String, pattern: String, got: String },
}

/// A `PathError` as plain values.
pub enum ErrorModel {
    UnexpectedEnd { index: nat },
    MissingParameterName { index: nat },
    PatternCannotStartWithQuestionMark { index: nat },
    CapturingGroupNotAllowed { index: nat },
    UnbalancedPattern { index: nat },
    MissingPattern { index: nat },
    UnexpectedToken { found: LexTokenKind, index: nat, expected: LexTokenKind },
    RegexBuild,
    MissingRequiredValue { name: Seq<char>, expected_type: Seq<char> },
    UnexpectedArray { name: Seq<char> },
    ExpectedArray { name: Seq<char> },
    EmptyRepeat { name: Seq<char> },
    PatternMismatch { name: Seq<char>, pattern: Seq<char>, got: Seq<char> },
}

impl View for PathError {
    type V = ErrorModel;

    open spec fn view(&self) -> ErrorModel {
        match self {
            PathError::UnexpectedEnd { index } => ErrorModel::UnexpectedEnd { index: *index as nat },
            PathError::MissingParameterName { index } => ErrorModel::MissingParameterName {
                index: *index as nat,
            },
            PathError::PatternCannotStartWithQuestionMark { index } =>
                ErrorModel::PatternCannotStartWithQuestionMark { index: *index as nat },
            PathError::CapturingGroupNotAllowed { index } =>
                ErrorModel::CapturingGroupNotAllowed { index: *index as nat },
            PathError::UnbalancedPattern { index } => ErrorModel::UnbalancedPattern {
                index: *index as nat,
            },
            PathError::MissingPattern { index } => ErrorModel::MissingPattern {
                index: *index as nat,
            },
            PathError::UnexpectedToken { found, index, expected } => ErrorModel::UnexpectedToken {
                found: *found,
                index: *index as nat,
                expected: *expected,
            },
            PathError::RegexBuild(_) => ErrorModel::RegexBuild,
            PathError::MissingRequiredValue { name, expected_type } =>
                ErrorModel::MissingRequiredValue { name: name@, expected_type: expected_type@ },
            PathError::UnexpectedArray { name } => ErrorModel::UnexpectedArray { name: name@ },
            PathError::ExpectedArray { name } => ErrorModel::ExpectedArray { name: name@ },
            PathError::EmptyRepeat { name } => ErrorModel::EmptyRepeat { name: name@ },
            PathError::PatternMismatch { name, pattern, got } => ErrorModel::PatternMismatch {
                name: name@,
                pattern: pattern@,
                got: got@,
            },
        }
    }
}

/// The text of an error message.
pub open spec fn message_model(e: ErrorModel) -> Seq<char> {
    match e {
        ErrorModel::UnexpectedEnd { index } => "Unexpected end at "@ + decimal(index),
        ErrorModel::MissingParameterName { index } => "Missing parameter name at "@ + decimal(index),
        ErrorModel::PatternCannotStartWithQuestionMark { index } =>
            "Pattern cannot start with \"?\" at "@ + decimal(index),
        ErrorModel::CapturingGroupNotAllowed { index } =>
            "Capturing groups are not allowed at "@ + decimal(index),
        ErrorModel::UnbalancedPattern { index } => "Unbalanced pattern at "@ + decimal(index),
        ErrorModel::MissingPattern { index } => "Missing pattern at "@ + decimal(index),
        ErrorModel::UnexpectedToken { found, index, expected } => "Unexpected "@ + label_model(found)
            + " at "@ + decimal(index) + ", expected "@ + label_model(expected),
        ErrorModel::RegexBuild => "Invalid regular expression"@,
        ErrorModel::MissingRequiredValue { name, expected_type } => "Expected \""@ + name
            + "\" to be "@ + expected_type,
        ErrorModel::UnexpectedArray { name } => "Expected \""@ + name
            + "\" to not repeat, but got an array"@,
        ErrorModel::ExpectedArray { name } => "Expected \""@ + name + "\" to be an array"@,
        ErrorModel::EmptyRepeat { name } => "Expected \""@ + name + "\" to not be empty"@,
        ErrorModel::PatternMismatch { name, pattern, got } => "Expected all \""@ + name
            + "\" to match \""@ + pattern + "\", but got \""@ + got + "\""@,
    }
}

/// The upper-case name of a token kind.
pub open spec fn label_model(k: LexTokenKind) -> Seq<char> {
    match k {
        LexTokenKind::Open => "OPEN"@,
        LexTokenKind::Close => "CLOSE"@,
        LexTokenKind::Pattern => "PATTERN"@,
        LexTokenKind::Name => "NAME"@,
        LexTokenKind::Char => "CHAR"@,
        LexTokenKind::EscapedChar => "ESCAPEDCHAR"@,
        LexTokenKind::Modifier => "MODIFIER"@,
        LexTokenKind::End => "END"@,
    }
}

impl PathError {
    /// A sentence that says what went wrong and where.
    pub fn message(&self) -> (r: String)
        ensures
            r@ == message_model(self@),
    {
        let mut v: Vec<char> = Vec::new();
        match self {
            PathError::UnexpectedEnd { index } => {
                append_str(&mut v, "Unexpected end at ");
                push_decimal(&mut v, *index);
            },
            PathError::MissingParameterName { index } => {
                append_str(&mut v, "Missing parameter name at ");
                push_decimal(&mut v, *index);
            },
            PathError::PatternCannotStartWithQuestionMark { index } => {
                append_str(&mut v, "Pattern cannot start with \"?\" at ");
                push_decimal(&mut v, *index);
            },
            PathError::CapturingGroupNotAllowed { index } => {
                append_str(&mut v, "Capturing groups are not allowed at ");
                push_decimal(&mut v, *index);
            },
            PathError::UnbalancedPattern { index } => {
                append_str(&mut v, "Unbalanced pattern at ");
                push_decimal(&mut v, *index);
            },
            PathError::MissingPattern { index } => {
                append_str(&mut v, "Missing pattern at ");
                push_decimal(&mut v, *index);
            },
            PathError::UnexpectedToken { found, index, expected } => {
                append_str(&mut v, "Unexpected ");
                append_str(&mut v, found.label());
                append_str(&mut v, " at ");
                push_decimal(&mut v, *index);
                append_str(&mut v, ", expected ");
                append_str(&mut v, expected.label());
            },
            PathError::RegexBuild(_) => {
                append_str(&mut v, "Invalid regular expression");
            },
            PathError::MissingRequiredValue { name, expected_type } => {
                append_str(&mut v, "Expected \"");
                append_str(&mut v, name.as_str());
                append_str(&mut v, "\" to be ");
                append_str(&mut v, expected_type.as_str());
            },
            PathError::UnexpectedArray { name } => {
                append_str(&mut v, "Expected \"");
                append_str(&mut v, name.as_str());
                append_str(&mut v, "\" to not repeat, but got an array");
            },
            PathError::ExpectedArray { name } => {
                append_str(&mut v, "Expected \"");
                append_str(&mut v, name.as_str());
                append_str(&mut v, "\" to be an array");
            },
            PathError::EmptyRepeat { name } => {
                append_str(&mut v, "Expected \"");
                append_str(&mut v, name.as_str());
                append_str(&mut v, "\" to not be empty");
            },
            PathError::PatternMismatch { name, pattern, got } => {
                append_str(&mut v, "Expected all \"");
                append_str(&mut v, name.as_str());
                append_str(&mut v, "\" to match \"");
                append_str(&mut v, pattern.as_str());
                append_str(&mut v, "\", but got \"");
                append_str(&mut v, got.as_str());
                append_str(&mut v, "\"");
            },
        }
        string_of(v.as_slice())
    }
}

} // verus!
