//! Why a conversion can fail.

use vstd::prelude::*;
use vstd::string::StringExecFns;

verus! {

/// A reason for which a calendar cannot be converted.
#[derive(Debug, Clone, PartialEq, Eq)]
pub enum ConversionError {
    /// An event lacks the named property, which every event must carry.
    MissingRequiredProperty(String),
    /// The named property is present but has no value.
    MissingPropertyValue(String),
}

/// A `ConversionError` with its texts as sequences of characters.
pub enum ConversionFailure {
    MissingRequiredProperty(Seq<char>),
    MissingPropertyValue(Seq<char>),
}

impl View for ConversionError {
    type V = ConversionFailure;

    open spec fn view(&self) -> Self::V {
        match self {
            ConversionError::MissingRequiredProperty(name) => {
                ConversionFailure::MissingRequiredProperty(name@)
            },
            ConversionError::MissingPropertyValue(name) => ConversionFailure::MissingPropertyValue(
                name@,
            ),
        }
    }
}

/// The text of the message that describes a failure.
pub open spec fn message_text(failure: ConversionFailure) -> Seq<char> {
    match failure {
        ConversionFailure::MissingRequiredProperty(name) => "missing required property: "@ + name,
        ConversionFailure::MissingPropertyValue(name) => "missing value of property: "@ + name,
    }
}

impl ConversionError {

    /// A message that describes the error and names the property.
    pub fn message(&self) -> (text: String)
        ensures
            text@ == message_text(self@),
    {
        match self {
            ConversionError::MissingRequiredProperty(name) => {
                let mut text = String::from_str("missing required property: ");
                text.append(name.as_str());
                text
            },
            ConversionError::MissingPropertyValue(name) => {
                let mut text = String::from_str("missing value of property: ");
                text.append(name.as_str());
                text
            },
        }
    }
}

} // verus!
