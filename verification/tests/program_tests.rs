use commandrs::error::ProgramError;
use commandrs::flag::{Flag, FlagValue};
use commandrs::kind::ValueKind;
use commandrs::Program;

#[test]
fn should_add_description_when_using_with_description() {
    let builder = Program::default().with_description("A very cool test program");

    assert_eq!("A very cool test program", builder.description());
    assert_eq!(&Vec::<Flag>::new(), builder.flags());
    assert_eq!(&Vec::<FlagValue>::new(), builder.flag_defaults());
    assert_eq!(&Vec::<FlagValue>::new(), builder.flag_values());
}

#[test]
fn should_add_optional_flags_when_calling_with_optional_flag_multiple_times() {
    let expected_flags = vec![
        Flag {
            name: "flag0",
            desc: "Zero-th flag",
            kind: ValueKind::Boolean,
            is_required: false,
        },
        Flag {
            name: "flag1",
            desc: "First flag",
            kind: ValueKind::Text,
            is_required: false,
        },
    ];
    let expected_defaults = vec![
        FlagValue {
            name: "flag0",
            str_value: "false".to_string(),
        },
        FlagValue {
            name: "flag1",
            str_value: "lol".to_string(),
        },
    ];

    let program = Program::new()
        .with_optional_flag("flag0", false, "Zero-th flag")
        .unwrap()
        .with_optional_flag("flag1", "lol", "First flag")
        .unwrap();

    assert_eq!("", program.description());
    assert_eq!(&expected_flags, program.flags());
    assert_eq!(&expected_defaults, program.flag_defaults());
    assert_eq!(&Vec::<FlagValue>::new(), program.flag_values());
}

#[test]
fn should_add_required_flags_when_calling_with_required_flag_multiple_times() {
    let expected_flags = vec![
        Flag {
            name: "flag0",
            desc: "Zero-th flag",
            kind: ValueKind::Boolean,
            is_required: true,
        },
        Flag {
            name: "flag1",
            desc: "First flag",
            kind: ValueKind::Text,
            is_required: true,
        },
    ];

    let program = Program::new()
        .with_required_flag::<bool>("flag0", "Zero-th flag")
        .unwrap()
        .with_required_flag::<&str>("flag1", "First flag")
        .unwrap();

    assert_eq!("", program.description());
    assert_eq!(&expected_flags, program.flags());
    assert_eq!(&Vec::<FlagValue>::new(), program.flag_defaults());
    assert_eq!(&Vec::<FlagValue>::new(), program.flag_values());
}

#[test]
fn should_not_be_able_to_add_flags_with_the_same_name() {
    let err = Program::new()
        .with_required_flag::<bool>("oh-noes", "Ruh roh")
        .unwrap()
        .with_required_flag::<&str>("oh-noes", "Ruh roh")
        .unwrap_err();

    assert_eq!(
        ProgramError::FlagAlreadyExistsWithName {
            name: "oh-noes".to_string()
        },
        err
    );
}

#[test]
fn programs_built_alike_are_equal() {
    let build = || {
        Program::new()
            .with_description("Twin")
            .with_required_flag::<u8>("age", "Your age")
            .unwrap()
            .with_optional_flag::<&str>("name", "Ollie", "Your name")
            .unwrap()
    };

    assert_eq!(build(), build());
    assert_ne!(build(), build().with_description("Other"));
    assert_ne!(
        build(),
        build().with_required_flag::<u8>("size", "Your size").unwrap()
    );
    assert_ne!(build(), build().parse_from_str_arr(&["--age", "4"]).unwrap());
    assert_eq!(
        build().parse_from_str_arr(&["--age", "4"]).unwrap(),
        build()
            .parse_from_str_arr(&["--age", "4", "--name", "Ollie"])
            .unwrap()
    );
}
