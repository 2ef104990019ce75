//! The failures that building bilingual resources can end in.

use vstd::prelude::*;
use vstd::string::*;

verus! {

/// `std::io::Error`, which is carried through as it is.
#[verifier::external_type_specification]
#[verifier::external_body]
pub struct ExIoError(std::io::Error);

/// Why a step of the generation failed.
#[derive(Debug)]
pub enum BilingualGeneratorError {
    /// A line of the bilingual set is not of the form `primary+secondary`; holds the line.
    InvalidBilingualSet(String),
    /// A language archive, or a member of it, could not be read.
    PakExtractionFailed,
    /// An archive operation failed on a named path.
    PakOperationFailed { operation: String, context: String, source: std::io::Error },
    /// A text table could not be parsed, or merged output could not be produced.
    XmlProcessingFailed(String),
    /// The output archive could not be written.
    PakCreationFailed,
    /// An input or output operation failed.
    IoError(std::io::Error),
    /// A concurrent task ended without a result.
    TaskJoinError(String),
}

/// `std::io::Error`'s `to_string`: how the system describes the failure. Nothing is
/// known of the text.
#[verifier::external_body]
fn io_error_text(error: &std::io::Error) -> (text: String) {
    error.to_string()
}

/// `text` starts with `head`.
pub open spec fn starts_with(text: Seq<char>, head: Seq<char>) -> bool {
    head.len() <= text.len() && text.subrange(0, head.len() as int) == head
}

impl BilingualGeneratorError {
    /// The message of the failure, but for what the system says of an input or output
    /// failure.
    pub open spec fn message_text(&self) -> Seq<char> {
        match self {
            BilingualGeneratorError::InvalidBilingualSet(line) => "Invalid Bilingual Set Format: "@
                + line@,
            BilingualGeneratorError::PakExtractionFailed => "Failed to extract PAK files"@,
            BilingualGeneratorError::PakOperationFailed { operation, context, source } =>
                "PAK operation failed: "@ + operation@ + " for '"@ + context@ + "' due to: "@,
            BilingualGeneratorError::XmlProcessingFailed(detail) => "XML processing failed: "@
                + detail@,
            BilingualGeneratorError::PakCreationFailed => "Failed to create new PAK file"@,
            BilingualGeneratorError::IoError(_) => "IO error: "@,
            BilingualGeneratorError::TaskJoinError(detail) => "TaskJoinError: "@ + detail@,
        }
    }

    /// Whether the failure holds an input or output failure of the system.
    pub open spec fn has_system_cause(&self) -> bool {
        self is PakOperationFailed || self is IoError
    }

    /// The failure in words. A failure that holds a failure of the system ends with
    /// the system's description of it.
    pub fn message(&self) -> (message: String)
        ensures
            starts_with(message@, self.message_text()),
            !self.has_system_cause() ==> message@ == self.message_text(),
    {
        match self {
            BilingualGeneratorError::InvalidBilingualSet(line) => {
                let mut message = "Invalid Bilingual Set Format: ".to_owned();
                message.append(line.as_str());
                assert(message@.subrange(0, message@.len() as int) =~= message@);
                message
            },
            BilingualGeneratorError::PakExtractionFailed => {
                let message = "Failed to extract PAK files".to_owned();
                assert(message@.subrange(0, message@.len() as int) =~= message@);
                message
            },
            BilingualGeneratorError::PakOperationFailed { operation, context, source } => {
                let mut message = "PAK operation failed: ".to_owned();
                message.append(operation.as_str());
                message.append(" for '");
                message.append(context.as_str());
                message.append("' due to: ");
                let ghost head = message@;
                let cause = io_error_text(source);
                message.append(cause.as_str());
                assert(message@.subrange(0, head.len() as int) =~= head);
                message
            },
            BilingualGeneratorError::XmlProcessingFailed(detail) => {
                let mut message = "XML processing failed: ".to_owned();
                message.append(detail.as_str());
                assert(message@.subrange(0, message@.len() as int) =~= message@);
                message
            },
            BilingualGeneratorError::PakCreationFailed => {
                let message = "Failed to create new PAK file".to_owned();
                assert(message@.subrange(0, message@.len() as int) =~= message@);
                message
            },
            BilingualGeneratorError::IoError(source) => {
                let mut message = "IO error: ".to_owned();
                let ghost head = message@;
                let cause = io_error_text(source);
                message.append(cause.as_str());
                assert(message@.subrange(0, head.len() as int) =~= head);
                message
            },
            BilingualGeneratorError::TaskJoinError(detail) => {
                let mut message = "TaskJoinError: ".to_owned();
                message.append(detail.as_str());
                assert(message@.subrange(0, message@.len() as int) =~= message@);
                message
            },
        }
    }
}

} // verus!
