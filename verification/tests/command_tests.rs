use todo_cli::command::{parse_args, parse_command, Command};
use todo_cli::plan::Plan;
use todo_cli::time::TimeValue;

fn argv(tokens: &[&str]) -> Vec<String> {
    tokens.iter().map(|s| String::from(*s)).collect()
}

fn t(hr: u8, min: u8) -> TimeValue {
    TimeValue { hr, min }
}

#[test]
fn help_shapes() {
    assert_eq!(parse_command(&argv(&["todo"])), Command::Help);
    assert_eq!(parse_command(&argv(&["todo", "--help"])), Command::Help);
    assert_eq!(parse_command(&argv(&["todo", "-h"])), Command::Help);
    assert_eq!(parse_command(&argv(&[])), Command::Help);
}

#[test]
fn help_with_extra_argument_is_not_help() {
    assert_eq!(parse_command(&argv(&["todo", "--help", "extra"])), Command::Invalid);
}

#[test]
fn version_shapes() {
    assert_eq!(parse_command(&argv(&["todo", "--version"])), Command::Version);
    assert_eq!(parse_command(&argv(&["todo", "-v"])), Command::Version);
}

#[test]
fn list_shapes() {
    assert_eq!(parse_command(&argv(&["todo", "--list"])), Command::List);
    assert_eq!(parse_command(&argv(&["todo", "-l"])), Command::List);
}

#[test]
fn delete_shapes() {
    assert_eq!(
        parse_command(&argv(&["todo", "--delete", "4"])),
        Command::Delete(String::from("4"))
    );
    assert_eq!(parse_command(&argv(&["todo", "-d", "xyz"])), Command::Delete(String::from("xyz")));
}

#[test]
fn get_shapes() {
    assert_eq!(parse_command(&argv(&["todo", "--get", "4"])), Command::Get(String::from("4")));
    assert_eq!(parse_command(&argv(&["todo", "-g", "0"])), Command::Get(String::from("0")));
}

#[test]
fn clear_shapes() {
    assert_eq!(parse_command(&argv(&["todo", "--clear"])), Command::Clear);
    assert_eq!(parse_command(&argv(&["todo", "-c"])), Command::Clear);
}

#[test]
fn flags_with_wrong_arity_fall_through() {
    assert_eq!(parse_command(&argv(&["todo", "--delete"])), Command::Invalid);
    assert_eq!(parse_command(&argv(&["todo", "--get"])), Command::Invalid);
    assert_eq!(parse_command(&argv(&["todo", "--clear", "extra"])), Command::Invalid);
    assert_eq!(parse_command(&argv(&["todo", "--version", "extra"])), Command::Invalid);
}

#[test]
fn start_only_create() {
    let cmd = parse_command(&argv(&["todo", "09:00", ".", "Meeting"]));
    let want = Plan {
        id: None,
        title: String::from("Meeting"),
        from: Some(t(9, 0)),
        to: None,
    };
    assert_eq!(cmd, Command::Create(want));
}

#[test]
fn ranged_create() {
    let cmd = parse_command(&argv(&["todo", "09:00", "10:00", "Meeting"]));
    let want = Plan {
        id: None,
        title: String::from("Meeting"),
        from: Some(t(9, 0)),
        to: Some(t(10, 0)),
    };
    assert_eq!(cmd, Command::Create(want));
}

#[test]
fn end_only_create() {
    let cmd = parse_command(&argv(&["todo", "09:00", "Meeting"]));
    let want = Plan {
        id: None,
        title: String::from("Meeting"),
        from: None,
        to: Some(t(9, 0)),
    };
    assert_eq!(cmd, Command::Create(want));
}

#[test]
fn numeric_title_is_legal() {
    let cmd = parse_command(&argv(&["todo", "09:00", "10:00"]));
    let want = Plan {
        id: None,
        title: String::from("10:00"),
        from: None,
        to: Some(t(9, 0)),
    };
    assert_eq!(cmd, Command::Create(want));
}

#[test]
fn out_of_range_minute_is_invalid() {
    assert_eq!(parse_command(&argv(&["todo", "09:99", "Meeting"])), Command::Invalid);
}

#[test]
fn malformed_creates_are_invalid() {
    assert_eq!(parse_command(&argv(&["todo", "morning", "Meeting", "X"])), Command::Invalid);
    assert_eq!(parse_command(&argv(&["todo", "09:00", "10:60", "Meeting"])), Command::Invalid);
    assert_eq!(parse_command(&argv(&["todo", "24:00", ".", "Meeting"])), Command::Invalid);
    assert_eq!(parse_command(&argv(&["todo", "only-one-arg"])), Command::Invalid);
    assert_eq!(parse_command(&argv(&["todo", "9:00", "10:00", "Meeting", "extra"])), Command::Invalid);
}

#[test]
fn dot_title_in_start_only_shape() {
    let cmd = parse_command(&argv(&["todo", "09:00", ".", "."]));
    let want = Plan {
        id: None,
        title: String::from("."),
        from: Some(t(9, 0)),
        to: None,
    };
    assert_eq!(cmd, Command::Create(want));
}

#[test]
fn parse_args_matches_creation_shapes() {
    let got = parse_args(argv(&["todo", "7:5", "Standup"]));
    let want = Plan {
        id: None,
        title: String::from("Standup"),
        from: None,
        to: Some(t(7, 5)),
    };
    assert_eq!(got, Some(want));
    assert_eq!(parse_args(argv(&["todo"])), None);
    assert_eq!(parse_args(argv(&["todo", "9:99", "X"])), None);
    assert_eq!(parse_args(argv(&["todo", "--help", "extra"])), None);
}
