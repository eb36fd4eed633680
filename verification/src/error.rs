//! The ways synthesis and conversion fail.

use crate::number::Number;
use crate::repr::ReprType;
use vstd::prelude::*;
use vstd::string::StringExecFns;

verus! {

/// A fault in the definition itself.  Synthesis of the enum stops at the
/// first one; other enums are not affected.
#[derive(Clone, Copy, Debug, PartialEq, Eq, Structural)]
pub enum SynthesisError {
    /// The representation hints name two different integer types: the first
    /// one named, and the first one after it that differs.
    ConflictingRepr { first: ReprType, second: ReprType },
    /// The index declared for the variant at `position` is not an integer
    /// literal.
    MalformedIndex { position: usize },
    /// The index declared for the variant at `position` is not a value of
    /// the representation type.
    IndexOutOfRange { position: usize },
}

impl SynthesisError {
    /// The message of the fault.
    pub open spec fn spec_message(self) -> Seq<char> {
        match self {
            SynthesisError::ConflictingRepr { first, second } =>
                "conflicting representation hints: `"@ + first.name() + "` and `"@ + second.name()
                    + "`"@,
            SynthesisError::MalformedIndex { position } => "index is not an integer literal"@,
            SynthesisError::IndexOutOfRange { position } =>
                "index is not a value of the representation type"@,
        }
    }

    /// The position of the variant at fault, where the fault is in a
    /// variant.
    pub open spec fn spec_position(&self) -> Option<usize> {
        match self {
            SynthesisError::ConflictingRepr { first, second } => None,
            SynthesisError::MalformedIndex { position } => Some(*position),
            SynthesisError::IndexOutOfRange { position } => Some(*position),
        }
    }

    /// The message of the fault, for the host to report where the enum is
    /// defined.
    pub fn message(&self) -> (text: String)
        ensures
            text@ == self.spec_message(),
    {
        match self {
            SynthesisError::ConflictingRepr { first, second } => {
                let mut text = String::from_str("conflicting representation hints: `");
                text.append(first.as_str());
                text.append("` and `");
                text.append(second.as_str());
                text.append("`");
                text
            },
            SynthesisError::MalformedIndex { position } => String::from_str(
                "index is not an integer literal",
            ),
            SynthesisError::IndexOutOfRange { position } => String::from_str(
                "index is not a value of the representation type",
            ),
        }
    }

    /// The position of the variant at fault, where the fault is in a
    /// variant.
    #[verifier::when_used_as_spec(spec_position)]
    pub fn position(&self) -> (r: Option<usize>)
        ensures
            r == self.spec_position(),
    {
        match self {
            SynthesisError::ConflictingRepr { first, second } => None,
            SynthesisError::MalformedIndex { position } => Some(*position),
            SynthesisError::IndexOutOfRange { position } => Some(*position),
        }
    }
}

/// A conversion that found no variant.  Conversions never abort: this is
/// what they return instead.
#[derive(Clone, Debug, PartialEq, Eq)]
pub enum ConversionError {
    /// No variant answers to the string `input`.
    InvalidString { enum_name: String, input: String },
    /// No variant without fields has `value` as its index.
    InvalidNumber { enum_name: String, repr: ReprType, value: Number },
}

/// The model of a `ConversionError`.
pub enum ConversionErrorModel {
    InvalidString { enum_name: Seq<char>, input: Seq<char> },
    InvalidNumber { enum_name: Seq<char>, repr: ReprType, value: int },
}

impl View for ConversionError {
    type V = ConversionErrorModel;

    open spec fn view(&self) -> ConversionErrorModel {
        match self {
            ConversionError::InvalidString { enum_name, input } => {
                ConversionErrorModel::InvalidString { enum_name: enum_name@, input: input@ }
            },
            ConversionError::InvalidNumber { enum_name, repr, value } => {
                ConversionErrorModel::InvalidNumber {
                    enum_name: enum_name@,
                    repr: *repr,
                    value: value@,
                }
            },
        }
    }
}

impl ConversionErrorModel {
    /// What the message about a string says before it quotes the string.
    pub open spec fn string_head() -> Seq<char> {
        "Invalid string value \""@
    }

    /// What the message about a string says between the string and the
    /// enum's identifier.
    pub open spec fn string_joint() -> Seq<char> {
        "\" for enum \""@
    }

    /// What the message about a string says after it has quoted the string:
    /// it names the enum.
    pub open spec fn string_tail(enum_name: Seq<char>) -> Seq<char> {
        Self::string_joint() + enum_name + "\""@
    }

    /// The message about a number.  It names the representation type and
    /// the enum, not the number.
    pub open spec fn number_message(enum_name: Seq<char>, repr: ReprType) -> Seq<char> {
        "Invalid value "@ + repr.name() + " for enum \""@ + enum_name + "\""@
    }

    /// The message of the fault.
    pub open spec fn message(self) -> Seq<char> {
        match self {
            ConversionErrorModel::InvalidString { enum_name, input } => Self::string_head() + input
                + Self::string_tail(enum_name),
            ConversionErrorModel::InvalidNumber { enum_name, repr, value } => Self::number_message(
                enum_name,
                repr,
            ),
        }
    }
}

impl ConversionError {
    /// The message of the error.
    pub fn message(&self) -> (text: String)
        ensures
            text@ == self@.message(),
    {
        match self {
            ConversionError::InvalidString { enum_name, input } => {
                let mut text = String::from_str("Invalid string value \"");
                text.append(input.as_str());
                text.append("\" for enum \"");
                text.append(enum_name.as_str());
                text.append("\"");
                text
            },
            ConversionError::InvalidNumber { enum_name, repr, value } => {
                let mut text = String::from_str("Invalid value ");
                text.append(repr.as_str());
                text.append(" for enum \"");
                text.append(enum_name.as_str());
                text.append("\"");
                text
            },
        }
    }
}

} // verus!
