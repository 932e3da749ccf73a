use commandrs::flag::Flag;
use commandrs::kind::ValueKind;
use commandrs::tokenizer::{is_in_arg_format, tokenize};

fn strings(items: &[&str]) -> Vec<String> {
    items.iter().map(|s| s.to_string()).collect()
}

fn flag(name: &'static str, kind: ValueKind) -> Flag<'static> {
    Flag {
        name,
        desc: "",
        is_required: true,
        kind,
    }
}

#[test]
fn a_marker_starts_with_two_dashes() {
    assert!(is_in_arg_format("--name"));
    assert!(is_in_arg_format("--"));
    assert!(is_in_arg_format("---"));
    assert!(!is_in_arg_format("-name"));
    assert!(!is_in_arg_format("name"));
    assert!(!is_in_arg_format(""));
    assert!(!is_in_arg_format("n--"));
    assert!(!is_in_arg_format("-"));
    assert!(!is_in_arg_format("-n-"));
    assert!(!is_in_arg_format(" --name"));
    assert!(is_in_arg_format("--é"));
}

#[test]
fn a_value_flag_takes_the_next_token() {
    let args = strings(&["--count", "5"]);
    let flags = vec![flag("count", ValueKind::Integer)];
    let given = tokenize(&args, &flags);

    assert_eq!(Some(Some("5")), given.get("count"));
    assert!(given.contains("count"));
    assert_eq!(None, given.get("5"));
    assert!(!given.contains("other"));
}

#[test]
fn a_value_flag_takes_the_next_token_even_if_it_is_a_marker() {
    let args = strings(&["--count", "--name", "X"]);
    let flags = vec![
        flag("count", ValueKind::Integer),
        flag("name", ValueKind::Text),
    ];
    let given = tokenize(&args, &flags);

    assert_eq!(Some(Some("--name")), given.get("count"));
    assert_eq!(Some(Some("X")), given.get("name"));
}

#[test]
fn a_boolean_flag_never_takes_the_next_token() {
    let args = strings(&["--verbose", "false", "--quiet", "--name", "X"]);
    let flags = vec![
        flag("verbose", ValueKind::Boolean),
        flag("quiet", ValueKind::Boolean),
        flag("name", ValueKind::Text),
    ];
    let given = tokenize(&args, &flags);

    assert_eq!(Some(None), given.get("verbose"));
    assert_eq!(Some(None), given.get("quiet"));
    assert_eq!(Some(Some("X")), given.get("name"));
}

#[test]
fn an_unknown_marker_takes_the_next_token_unless_it_is_a_marker() {
    let args = strings(&["--something", "else", "--other", "--third"]);
    let flags: Vec<Flag> = vec![];
    let given = tokenize(&args, &flags);

    assert_eq!(Some(Some("else")), given.get("something"));
    assert_eq!(Some(None), given.get("other"));
    assert_eq!(Some(None), given.get("third"));
}

#[test]
fn a_marker_at_the_end_has_no_value() {
    let args = strings(&["--count"]);
    let flags = vec![flag("count", ValueKind::Integer)];
    let given = tokenize(&args, &flags);

    assert_eq!(Some(None), given.get("count"));
}

#[test]
fn the_last_occurrence_of_a_flag_wins() {
    let args = strings(&["--count", "1", "--count", "2", "--count"]);
    let flags = vec![flag("count", ValueKind::Integer)];
    let given = tokenize(&args, &flags);
    assert_eq!(Some(None), given.get("count"));

    let args = strings(&["--count", "1", "--count", "2"]);
    let given = tokenize(&args, &flags);
    assert_eq!(Some(Some("2")), given.get("count"));
}

#[test]
fn no_arguments_give_no_entries() {
    let args = strings(&[]);
    let flags = vec![flag("count", ValueKind::Integer)];
    let given = tokenize(&args, &flags);

    assert_eq!(None, given.get("count"));
    assert_eq!(None, given.get(""));
}

#[test]
fn two_bare_dashes_mark_the_empty_name() {
    let args = strings(&["--", "x"]);
    let flags: Vec<Flag> = vec![];
    let given = tokenize(&args, &flags);

    assert_eq!(Some(Some("x")), given.get(""));
}

#[test]
fn a_single_dash_is_no_marker() {
    let args = strings(&["-count", "5", "-", "6"]);
    let flags = vec![flag("count", ValueKind::Integer)];
    let given = tokenize(&args, &flags);

    assert_eq!(None, given.get("count"));
    assert_eq!(None, given.get(""));
    assert_eq!(None, given.get("-count"));
}

#[test]
fn only_two_dashes_are_stripped() {
    let args = strings(&["---x", "1"]);
    let flags: Vec<Flag> = vec![];
    let given = tokenize(&args, &flags);

    assert_eq!(Some(Some("1")), given.get("-x"));
    assert_eq!(None, given.get("x"));
}

#[test]
fn marker_names_may_hold_any_characters() {
    let args = strings(&["--héllo wörld", "ça"]);
    let flags = vec![flag("héllo wörld", ValueKind::Text)];
    let given = tokenize(&args, &flags);

    assert_eq!(Some(Some("ça")), given.get("héllo wörld"));
    assert_eq!(None, given.get("hello world"));
}
