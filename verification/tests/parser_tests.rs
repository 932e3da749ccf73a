use commandrs::error::ProgramError;
use commandrs::Program;

#[test]
fn should_have_values_for_given_args_when_parsed() {
    let name_value = Program::new()
        .with_required_flag::<&str>("name", "Your name")
        .unwrap()
        .parse_from_str_arr(&["--name", "Ollie"])
        .unwrap()
        .get_string("name")
        .unwrap();

    assert_eq!("Ollie", name_value);
}

#[test]
fn should_have_values_for_given_args_when_parsed_and_convert_them() {
    let name_value = Program::new()
        .with_required_flag::<usize>("cranberries", "Number of cranberries")
        .unwrap()
        .parse_from_str_arr(&["--cranberries", "314159265358979"])
        .unwrap()
        .get::<usize>("cranberries")
        .unwrap();

    assert_eq!(314159265358979, name_value);
}

#[test]
fn should_result_in_an_error_when_required_arg_is_not_given() {
    let err = Program::new()
        .with_required_flag::<&str>("required-flag", "A required flag, wow")
        .unwrap()
        .parse_from_str_arr(&[])
        .unwrap_err();

    assert_eq!(
        ProgramError::RequiredArgWasNotGiven {
            name: "required-flag".to_string()
        },
        err
    );
}

#[test]
fn should_result_in_an_error_when_parsing_fails_for_type() {
    let program = Program::new()
        .with_required_flag::<u8>("age", "Your age")
        .unwrap()
        .parse_from_str_arr(&["--age", "who?"])
        .unwrap();

    let err = program.get::<u8>("age").unwrap_err();

    assert_eq!(
        ProgramError::FailedToParseFlagValue {
            name: "age".to_string(),
            target_type: "u8".to_string()
        },
        err
    );
}

#[test]
fn parser_should_use_default_values_for_optional_args_when_parsed() {
    let name_value = Program::new()
        .with_optional_flag::<&str>("name", "Mr. Ollie", "Your name")
        .unwrap()
        .parse_from_str_arr(&["--something", "else"])
        .unwrap()
        .get_string("name")
        .unwrap();

    assert_eq!("Mr. Ollie", name_value);
}

#[test]
fn should_still_use_boolean_flag_even_when_value_is_not_explicitly_given() {
    let program = Program::new()
        .with_optional_flag::<bool>("is-wonderful", false, "Is it wonderful?")
        .unwrap()
        .with_required_flag::<&str>("name", "Your name")
        .unwrap()
        .parse_from_str_arr(&["--is-wonderful", "--name", "Dr. Ollie"])
        .unwrap();

    let is_wonderful = program.get::<bool>("is-wonderful").unwrap();
    let name = program.get_string("name").unwrap();

    assert!(is_wonderful);
    assert_eq!("Dr. Ollie", name);
}

#[test]
fn should_still_use_boolean_flag_when_value_is_explicitly_given() {
    let program = Program::new()
        .with_required_flag::<bool>("is-great", "Is it great?")
        .unwrap()
        .with_required_flag::<&str>("name", "Your name")
        .unwrap()
        .parse_from_str_arr(&["--is-great", "true", "--name", "Dr. Ollie"])
        .unwrap();

    let is_great = program.get::<bool>("is-great").unwrap();
    let name = program.get_string("name").unwrap();

    assert!(is_great);
    assert_eq!("Dr. Ollie", name);
}

#[test]
fn should_add_values_for_given_args_when_parsed() {
    let name_value = Program::new()
        .with_required_flag::<&str>("name", "Your name")
        .unwrap()
        .parse_from_arr(&["--name", "Ollie"])
        .unwrap()
        .get::<String>("name")
        .unwrap();

    assert_eq!("Ollie", name_value);
}

#[test]
fn program_parsing_should_use_default_values_for_optional_args_when_parsed() {
    let name_value = Program::new()
        .with_optional_flag::<&str>("name", "Mr. Ollie", "Your name")
        .unwrap()
        .parse_from_arr(&["--something", "else"])
        .unwrap()
        .get::<String>("name")
        .unwrap();

    assert_eq!("Mr. Ollie", name_value);
}
