use cancer::command::{Command, Execution, FlagError};
use cancer::flag::FlagValue;
use cancer::help::{DefaultHelpRender, HelpRender};
use cancer::version::{DefaultVersionRender, VersionRender};

fn strings(items: &[&str]) -> Vec<String> {
    items.iter().map(|s| s.to_string()).collect()
}

fn qr() -> Command {
    Command::new("qr", "1.0.0", "generate qr code", "qr TEXT")
}

const QR_HELP: &str = "generate qr code\n\nUsage:\n  qr TEXT\n\nFlags:\n  -h, --help\thelp for qr\n  -v, --version\tversion for qr\n";

#[test]
fn new_injects_help_then_version_flag() {
    let command = qr();
    let flags = command.flags();
    assert_eq!(flags.len(), 2);
    assert_eq!(flags[0].short, "h");
    assert_eq!(flags[0].long, "help");
    assert_eq!(flags[0].description, "help for qr");
    assert!(matches!(flags[0].value, FlagValue::Bool(false)));
    assert_eq!(flags[1].short, "v");
    assert_eq!(flags[1].long, "version");
    assert_eq!(flags[1].description, "version for qr");
    assert!(matches!(flags[1].value, FlagValue::Bool(false)));
    assert_eq!(command.name(), "qr");
    assert_eq!(command.program_version(), "1.0.0");
    assert_eq!(command.description(), "generate qr code");
    assert_eq!(command.usage(), "qr TEXT");
}

#[test]
fn partition_without_flag_tokens_changes_nothing() {
    let mut command = qr();
    command.add_boolean_flag("f", "ferris", "say hello").unwrap();
    let tokens = strings(&["a", "b", "c"]);
    let positional = command.update_flags(&tokens);
    assert_eq!(positional, tokens);
    for flag in command.flags() {
        assert!(matches!(flag.value, FlagValue::Bool(false)));
    }
}

#[test]
fn partition_twice_is_a_no_op() {
    let mut command = qr();
    command.add_boolean_flag("f", "ferris", "say hello").unwrap();
    let first = command.update_flags(&strings(&["x", "-f", "y", "--nope", "z"]));
    assert_eq!(first, strings(&["x", "y", "z"]));
    let second = command.update_flags(&first);
    assert_eq!(second, first);
    assert!(matches!(command.flags()[2].value, FlagValue::Bool(true)));
    assert!(matches!(command.flags()[0].value, FlagValue::Bool(false)));
}

#[test]
fn partition_does_not_skip_token_after_flag() {
    let mut command = qr();
    command.add_boolean_flag("a", "alpha", "first").unwrap();
    command.add_boolean_flag("b", "beta", "second").unwrap();
    let positional = command.update_flags(&strings(&["-a", "--beta", "one", "-a", "two"]));
    assert_eq!(positional, strings(&["one", "two"]));
    assert!(matches!(command.flags()[2].value, FlagValue::Bool(true)));
    assert!(matches!(command.flags()[3].value, FlagValue::Bool(true)));
}

#[test]
fn no_user_tokens_shows_help() {
    let mut command = qr();
    match command.execute(&strings(&["qr"])) {
        Ok(Execution::HelpShown(text)) => assert_eq!(text, QR_HELP),
        other => panic!("expected help, got {:?}", other),
    }
    let mut empty = qr();
    match empty.execute(&strings(&[])) {
        Ok(Execution::HelpShown(text)) => assert_eq!(text, QR_HELP),
        other => panic!("expected help, got {:?}", other),
    }
}

#[test]
fn short_and_long_help_give_the_same_text() {
    let mut short = qr();
    let mut long = qr();
    let a = short.execute(&strings(&["qr", "-h"]));
    let b = long.execute(&strings(&["qr", "--help"]));
    match (a, b) {
        (Ok(Execution::HelpShown(x)), Ok(Execution::HelpShown(y))) => {
            assert_eq!(x, y);
            assert_eq!(x, QR_HELP);
        }
        other => panic!("expected help twice, got {:?}", other),
    }
}

#[test]
fn version_flag_shows_version() {
    let mut command = qr();
    match command.execute(&strings(&["qr", "-v"])) {
        Ok(Execution::VersionShown(text)) => assert_eq!(text, "qr version 1.0.0"),
        other => panic!("expected version, got {:?}", other),
    }
    let mut long = qr();
    match long.execute(&strings(&["qr", "hello", "--version"])) {
        Ok(Execution::VersionShown(text)) => assert_eq!(text, "qr version 1.0.0"),
        other => panic!("expected version, got {:?}", other),
    }
}

#[test]
fn help_takes_priority_over_version() {
    let mut command = qr();
    match command.execute(&strings(&["qr", "-v", "input", "-h"])) {
        Ok(Execution::HelpShown(text)) => assert_eq!(text, QR_HELP),
        other => panic!("expected help, got {:?}", other),
    }
}

#[test]
fn declared_flag_is_set_and_handler_runs() {
    let mut command = Command::new("hello", "0.1.0", "gives a friendly hello", "hello TEXT");
    command.add_boolean_flag("f", "ferris", "say hello from ferris").unwrap();
    let positional = command.update_flags(&strings(&["world", "-f"]));
    assert_eq!(positional, strings(&["world"]));
    assert!(matches!(command.flags()[2].value, FlagValue::Bool(true)));

    let mut command = Command::new("hello", "0.1.0", "gives a friendly hello", "hello TEXT");
    command.add_boolean_flag("f", "ferris", "say hello from ferris").unwrap();
    match command.execute(&strings(&["hello", "world", "-f"])) {
        Ok(Execution::Run(input)) => assert_eq!(input, "world"),
        other => panic!("expected the handler to run, got {:?}", other),
    }
    let flags = command.get_flags();
    assert_eq!(flags.len(), 1);
    assert_eq!(flags[0].short, "f");
    assert!(flags[0].is_match("-f"));
    assert!(matches!(flags[0].value, FlagValue::Bool(true)));
}

#[test]
fn undeclared_flag_token_is_dropped() {
    let mut command = qr();
    let positional = command.update_flags(&strings(&["-x", "world"]));
    assert_eq!(positional, strings(&["world"]));

    let mut command = qr();
    match command.execute(&strings(&["qr", "-x", "world"])) {
        Ok(Execution::Run(input)) => assert_eq!(input, "world"),
        other => panic!("expected the handler to run, got {:?}", other),
    }
    assert_eq!(command.get_flags().len(), 0);
}

#[test]
fn handler_gets_first_positional_only() {
    let mut command = qr();
    match command.execute(&strings(&["qr", "first", "second"])) {
        Ok(Execution::Run(input)) => assert_eq!(input, "first"),
        other => panic!("expected the handler to run, got {:?}", other),
    }
}

#[test]
fn only_flag_tokens_is_missing_input() {
    let mut command = qr();
    command.add_boolean_flag("f", "ferris", "say hello").unwrap();
    assert!(command.execute(&strings(&["qr", "-f"])).is_err());
    assert!(matches!(command.flags()[2].value, FlagValue::Bool(true)));
}

#[test]
fn program_path_is_not_matched() {
    let mut command = qr();
    match command.execute(&strings(&["-h", "input"])) {
        Ok(Execution::Run(input)) => assert_eq!(input, "input"),
        other => panic!("expected the handler to run, got {:?}", other),
    }
}

#[test]
fn duplicate_identifiers_are_refused() {
    let mut command = qr();
    assert!(matches!(
        command.add_boolean_flag("h", "hello", "clashes with help"),
        Err(FlagError::DuplicateIdentifier)
    ));
    assert!(matches!(
        command.add_boolean_flag("x", "version", "clashes with version"),
        Err(FlagError::DuplicateIdentifier)
    ));
    command.add_string_flag("n", "name", "a name").unwrap();
    assert!(matches!(
        command.add_int_flag("n", "number", "a number"),
        Err(FlagError::DuplicateIdentifier)
    ));
    assert_eq!(command.flags().len(), 3);
}

#[test]
fn empty_identifiers_are_refused() {
    let mut command = qr();
    assert!(matches!(
        command.add_float_flag("", "ratio", "a ratio"),
        Err(FlagError::EmptyIdentifier)
    ));
    assert!(matches!(
        command.add_boolean_flag("r", "", "a ratio"),
        Err(FlagError::EmptyIdentifier)
    ));
    assert_eq!(command.flags().len(), 2);
}

#[test]
fn typed_flags_record_presence_as_true() {
    let mut command = qr();
    command.add_string_flag("s", "style", "a style").unwrap();
    command.add_int_flag("n", "number", "a number").unwrap();
    command.add_float_flag("r", "ratio", "a ratio").unwrap();
    let positional = command.update_flags(&strings(&["--style", "text", "-r"]));
    assert_eq!(positional, strings(&["text"]));
    assert!(matches!(command.flags()[2].value, FlagValue::Bool(true)));
    assert!(matches!(command.flags()[3].value, FlagValue::Int(None)));
    assert!(matches!(command.flags()[4].value, FlagValue::Bool(true)));
}

#[test]
fn help_lists_added_flags_in_order() {
    let mut command = qr();
    command.add_boolean_flag("f", "ferris", "say hello from ferris").unwrap();
    let expected = format!("{}  -f, --ferris\tsay hello from ferris\n", QR_HELP);
    assert_eq!(command.help(), expected);
    assert_eq!(DefaultHelpRender::new().help_text(&command), expected);
    assert_eq!(command.version(), "qr version 1.0.0");
    assert_eq!(DefaultVersionRender::new().version_text(&command), "qr version 1.0.0");
}

#[test]
fn with_renderers_builds_a_working_command() {
    let mut command = Command::with_renderers(
        "qr",
        "2.0",
        "generate qr code",
        "qr TEXT",
        DefaultHelpRender::new(),
        DefaultVersionRender::new(),
    );
    match command.execute(&strings(&["qr", "--version"])) {
        Ok(Execution::VersionShown(text)) => assert_eq!(text, "qr version 2.0"),
        other => panic!("expected version, got {:?}", other),
    }
}
