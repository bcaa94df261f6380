use media_tags::TagError;

#[test]
fn each_error_has_its_message() {
    assert_eq!(TagError::FileMissing.to_string(), "File Missing.");
    assert_eq!(TagError::OtherSaveError.to_string(), "The file could not be saved.");
    assert_eq!(TagError::TagMissing.to_string(), "Selected tag does not exist!");
    assert_eq!(
        TagError::TagsNotSupported.to_string(),
        "Tagging is not supported for this file."
    );
    assert_eq!(TagError::MissingFileExtension.to_string(), "The File is missing an extension.");
    assert_eq!(TagError::CouldNotReadFile.to_string(), "Could not read file.");
    assert_eq!(
        TagError::UnsupportedFile.to_string(),
        "Files with this file-extension are not supported."
    );
    assert_eq!(TagError::CouldNotReadXMP.to_string(), "The XMP in the file colud not be read.");
    assert_eq!(TagError::UwUpsie.to_string(), "other error");
}

#[test]
fn invalid_character_is_quoted_in_its_message() {
    assert_eq!(TagError::InvalidCharacter('#').to_string(), "\"#\" is not a valid char.");
    assert_eq!(TagError::InvalidCharacter('"').to_string(), "\"\"\" is not a valid char.");
    assert_eq!(TagError::InvalidCharacter('ß').to_string(), "\"ß\" is not a valid char.");
}
