//! Why a set of arguments is refused.

use vstd::prelude::*;
use vstd::string::*;

verus! {

/// One of the six arguments the server takes.
#[derive(Clone, Copy, Debug, PartialEq, Eq, Structural)]
pub enum Field {
    Port,
    Width,
    Height,
    Teams,
    ClientsNb,
    Freq,
}

/// The first problem found in the arguments.
#[derive(Debug, PartialEq, Eq)]
pub enum ValidationError {
    /// A required argument was not supplied, or the team list is empty.
    MissingRequiredArgument { field: Field },
    /// The text supplied for a numeric argument is no numeral, does not
    /// fit the field, or is zero. `reason` is the field parser's message.
    InvalidValue { field: Field, value: String, reason: String },
    /// A team name repeats an earlier one.
    DuplicateValue { name: String },
}

/// The mathematical content of a [`ValidationError`].
pub enum ValidationErrorView {
    MissingRequiredArgument { field: Field },
    InvalidValue { field: Field, value: Seq<char>, reason: Seq<char> },
    DuplicateValue { name: Seq<char> },
}

impl View for ValidationError {
    type V = ValidationErrorView;

    open spec fn view(&self) -> ValidationErrorView {
        match *self {
            ValidationError::MissingRequiredArgument { field } => {
                ValidationErrorView::MissingRequiredArgument { field }
            },
            ValidationError::InvalidValue { field, value, reason } => {
                ValidationErrorView::InvalidValue { field, value: value@, reason: reason@ }
            },
            ValidationError::DuplicateValue { name } => {
                ValidationErrorView::DuplicateValue { name: name@ }
            },
        }
    }
}

/// The command-line flag that introduces `field`.
pub open spec fn flag_of(field: Field) -> Seq<char> {
    match field {
        Field::Port => "-p"@,
        Field::Width => "-x"@,
        Field::Height => "-y"@,
        Field::Teams => "-n"@,
        Field::ClientsNb => "-c"@,
        Field::Freq => "-f"@,
    }
}

/// The sentence that reports `e` to the person who typed the arguments.
pub open spec fn message_of(e: ValidationErrorView) -> Seq<char> {
    match e {
        ValidationErrorView::MissingRequiredArgument { field } => {
            "missing required argument "@ + flag_of(field)
        },
        ValidationErrorView::InvalidValue { field, value, reason } => {
            "invalid value '"@ + value + "' for "@ + flag_of(field) + ": "@ + reason
        },
        ValidationErrorView::DuplicateValue { name } => {
            "duplicates team name '"@ + name + "'"@
        },
    }
}

impl Field {
    /// The command-line flag that introduces this argument.
    pub fn flag(&self) -> (r: &'static str)
        ensures
            r@ == flag_of(*self),
    {
        match self {
            Field::Port => "-p",
            Field::Width => "-x",
            Field::Height => "-y",
            Field::Teams => "-n",
            Field::ClientsNb => "-c",
            Field::Freq => "-f",
        }
    }
}

impl ValidationError {
    /// The sentence that reports this error, naming the flag and the
    /// offending text.
    pub fn message(&self) -> (r: String)
        ensures
            r@ == message_of(self@),
    {
        match self {
            ValidationError::MissingRequiredArgument { field } => {
                let mut out = "missing required argument ".to_owned();
                out.append(field.flag());
                out
            },
            ValidationError::InvalidValue { field, value, reason } => {
                let mut out = "invalid value '".to_owned();
                out.append(value.as_str());
                out.append("' for ");
                out.append(field.flag());
                out.append(": ");
                out.append(reason.as_str());
                out
            },
            ValidationError::DuplicateValue { name } => {
                let mut out = "duplicates team name '".to_owned();
                out.append(name.as_str());
                out.append("'");
                out
            },
        }
    }
}

} // verus!
