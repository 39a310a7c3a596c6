//! The errors of a conversion.

use crate::vocabulary::Element;
use vstd::prelude::*;

verus! {

/// Why a document could not be converted.
#[derive(Clone, Copy, Debug, PartialEq, Eq, Structural)]
pub enum ErrorKind {
    /// The markup is not well-formed, or the input ends within an element.
    MalformedInput,
    /// An event that is no element stands where none such is expected: stray
    /// text, a comment, a closing tag of another element.
    UnexpectedEvent,
    /// An element stands where the vocabulary does not allow it.
    UnrecognizedElement,
    /// A required attribute is absent.
    MissingAttribute,
    /// A link identifier has none of the known shapes, or names nothing known.
    UnresolvableLink,
    /// The table of contents includes a file without a known title.
    UnmappedReference,
}

/// An error, with what it is about and where it arose.
#[derive(Debug)]
pub struct ConvertError {
    pub kind: ErrorKind,
    /// The offending element name, attribute name, identifier or raw event.
    pub subject: Vec<u8>,
    /// The elements that were open when the error arose, innermost first.
    pub trail: Vec<Element>,
}

/// The mathematical model of a [`ConvertError`].
pub struct ErrorView {
    pub kind: ErrorKind,
    pub subject: Seq<u8>,
    pub trail: Seq<Element>,
}

impl View for ConvertError {
    type V = ErrorView;

    open spec fn view(&self) -> ErrorView {
        ErrorView { kind: self.kind, subject: self.subject@, trail: self.trail@ }
    }
}

impl ErrorKind {
    /// A short description of the kind.
    pub open spec fn description(self) -> &'static str {
        match self {
            ErrorKind::MalformedInput => "malformed input",
            ErrorKind::UnexpectedEvent => "unexpected event",
            ErrorKind::UnrecognizedElement => "unrecognized element",
            ErrorKind::MissingAttribute => "missing attribute",
            ErrorKind::UnresolvableLink => "unresolvable link",
            ErrorKind::UnmappedReference => "unmapped reference",
        }
    }

    /// A short description of the kind.
    pub fn describe(self) -> (text: &'static str)
        ensures
            text@ == self.description()@,
    {
        match self {
            ErrorKind::MalformedInput => "malformed input",
            ErrorKind::UnexpectedEvent => "unexpected event",
            ErrorKind::UnrecognizedElement => "unrecognized element",
            ErrorKind::MissingAttribute => "missing attribute",
            ErrorKind::UnresolvableLink => "unresolvable link",
            ErrorKind::UnmappedReference => "unmapped reference",
        }
    }
}

impl ConvertError {
    /// An error of the given kind about `subject`, arisen within `trail`.
    pub fn new(kind: ErrorKind, subject: Vec<u8>, trail: Vec<Element>) -> (error: ConvertError)
        ensures
            error@ == (ErrorView { kind, subject: subject@, trail: trail@ }),
    {
        ConvertError { kind, subject, trail }
    }
}

} // verus!
