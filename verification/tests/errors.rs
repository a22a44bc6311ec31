use r_sql_database::custom_error::CustomError;

fn s(text: &str) -> String {
    text.to_string()
}

#[test]
fn every_failure_has_its_message() {
    assert_eq!(CustomError::IoError(s("denied")).to_string(), "Failed to read file: denied");
    assert_eq!(CustomError::TableNotFound(s("t")).to_string(), "Table not found: t");
    assert_eq!(CustomError::TableAlreadyExists(s("t")).to_string(), "Table already exists: t");
    assert_eq!(
        CustomError::RecordAlreadyExists(s("id=1")).to_string(),
        "Record already exists: id=1"
    );
    assert_eq!(CustomError::InvalidKey(s("7")).to_string(), "7 is empty");
    assert_eq!(
        CustomError::ScreenInvalidForCommand(s("Create"), s("Main")).to_string(),
        "Invalid COmmand Screen Combination: Create Main"
    );
    assert_eq!(CustomError::ParseError(s("x")).to_string(), "Failed to parse integer: x");
    assert_eq!(CustomError::FieldParseError(s("f")).to_string(), "Failed to parse field: f");
    assert_eq!(CustomError::ValueParseError(s("v")).to_string(), "Failed to parse value: v");
    assert_eq!(
        CustomError::ConditionParseError(s("Unknown operator")).to_string(),
        "Failed to parse condition: Unknown operator"
    );
    assert_eq!(CustomError::MissingKeyword(s("KEY")).to_string(), "Missing keyword: KEY");
    assert_eq!(
        CustomError::ItemWithIndexNotFound(s("Type"), s("9")).to_string(),
        "Type with index 9 not found"
    );
    assert_eq!(CustomError::MissingField(s("Table name")).to_string(), "Table name is empty");
    assert_eq!(CustomError::YouGotLost().to_string(), "You somehow got lost");
    assert_eq!(CustomError::UnknownCommand(s("DROP t")).to_string(), "Unknown Command: DROP t");
    assert_eq!(CustomError::UnknownField(s("f")).to_string(), "Unknown Field: f");
    assert_eq!(CustomError::InvalidIndex(0).to_string(), "Invalid index: 0");
    assert_eq!(CustomError::InvalidIndex(1234).to_string(), "Invalid index: 1234");
    assert_eq!(
        CustomError::InvalidIndex(usize::MAX).to_string(),
        format!("Invalid index: {}", usize::MAX)
    );
    assert_eq!(CustomError::WrongKeyType().to_string(), "Invalid Key Type");
}
