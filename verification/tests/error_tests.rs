use commandrs::error::ProgramError;

#[test]
fn every_error_has_its_message() {
    assert_eq!(
        "Flag already exists with name oh-noes",
        ProgramError::FlagAlreadyExistsWithName {
            name: "oh-noes".to_string()
        }
        .message()
    );
    assert_eq!(
        "No such flag exists with name age",
        ProgramError::NoSuchFlagExistsWithName {
            name: "age".to_string()
        }
        .message()
    );
    assert_eq!(
        "Could not parse age as type of u8",
        ProgramError::FailedToParseFlagValue {
            name: "age".to_string(),
            target_type: "u8".to_string()
        }
        .message()
    );
    assert_eq!(
        "Required args was not given with name name",
        ProgramError::RequiredArgWasNotGiven {
            name: "name".to_string()
        }
        .message()
    );
    assert_eq!("Help flag was given", ProgramError::HelpFlagGiven.message());
}

#[test]
fn a_message_keeps_an_empty_name() {
    assert_eq!(
        "Flag already exists with name ",
        ProgramError::FlagAlreadyExistsWithName {
            name: String::new()
        }
        .message()
    );
    assert_eq!(
        "Could not parse  as type of ",
        ProgramError::FailedToParseFlagValue {
            name: String::new(),
            target_type: String::new()
        }
        .message()
    );
}
