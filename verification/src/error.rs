use vstd::prelude::*;

verus! {

/// Why the reading of a document was given up.
#[derive(Debug, Clone, Copy, PartialEq, Eq, Structural)]
pub enum ParseError {
    /// The tokenizer could not read the markup to its end.
    Malformed,
    /// An element that is needed carries an attribute that cannot be read.
    BrokenAttribute,
    /// An element lacks an attribute that its format requires.
    MissingAttribute,
    /// A subtree that is skipped as a whole is never closed.
    UnclosedElement,
    /// More units were met than sequence numbers exist.
    TooManyUnits,
    /// A sheet has no header row with the two language columns.
    MissingHeader,
    /// An archive does not hold the entry that was asked for.
    MissingEntry,
    /// No reader is known for a file of this extension.
    UnsupportedExtension,
    /// What was read is not of the sort that the reader of the file takes.
    WrongInput,
}

impl ParseError {
    /// What went wrong, in words.
    pub fn message(&self) -> (text: &'static str)
        ensures
            text@ == match self {
                ParseError::Malformed => "the markup is malformed"@,
                ParseError::BrokenAttribute => "an attribute cannot be read"@,
                ParseError::MissingAttribute => "a required attribute is missing"@,
                ParseError::UnclosedElement => "an element to skip is never closed"@,
                ParseError::TooManyUnits => "there are more units than sequence numbers"@,
                ParseError::MissingHeader => "the header row is too short"@,
                ParseError::MissingEntry => "the archive lacks the inner document"@,
                ParseError::UnsupportedExtension => "Unsupported file type"@,
                ParseError::WrongInput => "the input is of the wrong sort for the reader"@,
            },
    {
        match self {
            ParseError::Malformed => "the markup is malformed",
            ParseError::BrokenAttribute => "an attribute cannot be read",
            ParseError::MissingAttribute => "a required attribute is missing",
            ParseError::UnclosedElement => "an element to skip is never closed",
            ParseError::TooManyUnits => "there are more units than sequence numbers",
            ParseError::MissingHeader => "the header row is too short",
            ParseError::MissingEntry => "the archive lacks the inner document",
            ParseError::UnsupportedExtension => "Unsupported file type",
            ParseError::WrongInput => "the input is of the wrong sort for the reader",
        }
    }
}

} // verus!
