//! The error type shared by all tag operations.

use vstd::prelude::*;
use vstd::string::StringExecFns;
use crate::text::push_char;

verus! {

/// Error for tag related operations.
#[derive(Debug, Clone, Copy, PartialEq, Eq, Structural)]
pub enum TagError {
    /// The file is missing or inaccessible.
    FileMissing,
    /// The file exists but saving was not possible.
    OtherSaveError,
    /// The tag does not exist.
    TagMissing,
    /// Tagging is not supported for the file.
    TagsNotSupported,
    /// The returned character is invalid.
    InvalidCharacter(char),
    /// The file does not have a valid suffix.
    MissingFileExtension,
    /// The file could not be read.
    CouldNotReadFile,
    /// Files with this file extension are not supported.
    UnsupportedFile,
    /// The XMP in the file could not be read.
    CouldNotReadXMP,
    /// Any other failure.
    UwUpsie,
}

/// The text that describes an error to a reader.
pub open spec fn message(error: TagError) -> Seq<char> {
    match error {
        TagError::FileMissing => "File Missing."@,
        TagError::OtherSaveError => "The file could not be saved."@,
        TagError::TagMissing => "Selected tag does not exist!"@,
        TagError::TagsNotSupported => "Tagging is not supported for this file."@,
        TagError::InvalidCharacter(c) => "\""@.push(c) + "\" is not a valid char."@,
        TagError::MissingFileExtension => "The File is missing an extension."@,
        TagError::CouldNotReadFile => "Could not read file."@,
        TagError::UnsupportedFile => "Files with this file-extension are not supported."@,
        TagError::CouldNotReadXMP => "The XMP in the file colud not be read."@,
        TagError::UwUpsie => "other error"@,
    }
}

impl TagError {
    /// The text that describes the error to a reader.
    pub fn to_string(&self) -> (text: String)
        ensures
            text@ == message(*self),
    {
        match self {
            TagError::FileMissing => String::from_str("File Missing."),
            TagError::OtherSaveError => String::from_str("The file could not be saved."),
            TagError::TagMissing => String::from_str("Selected tag does not exist!"),
            TagError::TagsNotSupported => String::from_str(
                "Tagging is not supported for this file.",
            ),
            TagError::InvalidCharacter(c) => {
                let mut text = String::from_str("\"");
                push_char(&mut text, *c);
                text.append("\" is not a valid char.");
                text
            },
            TagError::MissingFileExtension => String::from_str("The File is missing an extension."),
            TagError::CouldNotReadFile => String::from_str("Could not read file."),
            TagError::UnsupportedFile => String::from_str(
                "Files with this file-extension are not supported.",
            ),
            TagError::CouldNotReadXMP => String::from_str("The XMP in the file colud not be read."),
            TagError::UwUpsie => String::from_str("other error"),
        }
    }
}

} // verus!
