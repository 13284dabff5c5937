//! The failures of a report build.

use vstd::prelude::*;
use crate::text::{decimal, decimal_of};

verus! {

/// Why a document counts as malformed.
#[derive(Clone, Copy, Debug, PartialEq, Eq)]
pub enum XmlFault {
    /// The walker could not parse the input. `offset` is the byte position
    /// that it had reached in the input.
    Syntax { offset: usize },
    /// The document ended while `open` elements were still waiting for their
    /// end tags.
    UnclosedElements { open: usize },
}

/// A failure of the walker or of the report builder. Either one fails the
/// whole build: no partial report is handed out.
#[derive(Clone, Copy, Debug, PartialEq, Eq)]
pub enum ReportError {
    /// The input is not well-formed XML.
    MalformedXml(XmlFault),
    /// An element ended although no element was open: the events cannot stem
    /// from a walk over a document.
    InvariantViolation,
}

/// The failure in words. A malformed document is told with the byte
/// position that the walker had reached, or with the number of elements
/// that were left open.
pub open spec fn error_message(error: ReportError) -> Seq<char> {
    match error {
        ReportError::MalformedXml(XmlFault::Syntax { offset }) => "malformed XML at byte "@
            + decimal(offset as nat),
        ReportError::MalformedXml(XmlFault::UnclosedElements { open }) => "malformed XML, elements left open: "@
            + decimal(open as nat),
        ReportError::InvariantViolation => "an element ended that had not started"@,
    }
}

impl ReportError {
    /// The failure in words.
    pub fn message(&self) -> (message: String)
        ensures
            message@ == error_message(*self),
    {
        match self {
            ReportError::MalformedXml(XmlFault::Syntax { offset }) => {
                let mut text = String::from_str("malformed XML at byte ");
                text.append(decimal_of(*offset).as_str());
                text
            },
            ReportError::MalformedXml(XmlFault::UnclosedElements { open }) => {
                let mut text = String::from_str("malformed XML, elements left open: ");
                text.append(decimal_of(*open).as_str());
                text
            },
            ReportError::InvariantViolation => String::from_str(
                "an element ended that had not started",
            ),
        }
    }
}

} // verus!
