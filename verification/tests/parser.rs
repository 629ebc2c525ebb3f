use sleep_bot::command::{dispatch, error_reply, handle_message, Command, DispatchAction, MessageAction};

#[test]
fn non_command_text_is_ignored() {
    assert_eq!(Command::parse("hello there"), Ok(None));
    assert_eq!(Command::parse(""), Ok(None));
    assert_eq!(Command::parse("   "), Ok(None));
    assert_eq!(Command::parse("ping!"), Ok(None));
    assert_eq!(Command::parse("  no bang here  "), Ok(None));
}

#[test]
fn ping_parses() {
    assert_eq!(Command::parse("!ping"), Ok(Some(Command::Ping)));
    assert_eq!(Command::parse("  !ping  "), Ok(Some(Command::Ping)));
}

#[test]
fn help_parses() {
    assert_eq!(Command::parse("!help"), Ok(Some(Command::Help)));
}

#[test]
fn sleep_defaults_to_ninety_minutes() {
    assert_eq!(
        Command::parse("!sleep"),
        Ok(Some(Command::Sleep { delay_secs: 5400 }))
    );
}

#[test]
fn sleep_with_minutes() {
    assert_eq!(
        Command::parse("!sleep 10"),
        Ok(Some(Command::Sleep { delay_secs: 600 }))
    );
    assert_eq!(
        Command::parse("!sleep 0"),
        Ok(Some(Command::Sleep { delay_secs: 0 }))
    );
    assert_eq!(
        Command::parse("!sleep +10"),
        Ok(Some(Command::Sleep { delay_secs: 600 }))
    );
    assert_eq!(
        Command::parse("  !sleep   10  "),
        Ok(Some(Command::Sleep { delay_secs: 600 }))
    );
}

#[test]
fn sleep_with_bad_delay() {
    assert_eq!(
        Command::parse("!sleep abc"),
        Err("Invalid !sleep delay: abc. Must be a number".to_string())
    );
    assert_eq!(
        Command::parse("!sleep -5"),
        Err("Invalid !sleep delay: -5. Must be a number".to_string())
    );
    assert_eq!(
        Command::parse("!sleep 18446744073709551616"),
        Err("Invalid !sleep delay: 18446744073709551616. Must be a number".to_string())
    );
}

#[test]
fn unknown_commands() {
    assert_eq!(
        Command::parse("!bogus"),
        Err("Unknown command: !bogus".to_string())
    );
    assert_eq!(
        Command::parse("!PING"),
        Err("Unknown command: !PING".to_string())
    );
    assert_eq!(
        Command::parse("  !sleep 1 2  "),
        Err("Unknown command: !sleep 1 2".to_string())
    );
    assert_eq!(Command::parse("!"), Err("Unknown command: !".to_string()));
}

#[test]
fn help_lines_are_fixed() {
    let lines = Command::help();
    assert_eq!(lines.len(), 3);
    assert_eq!(lines[0], "!ping - Responds with Pong!");
    assert_eq!(
        lines[1],
        "!sleep [<delay>] - Disconnects all members from voice channels after the given delay (minutes). Default delay is 90 minutes."
    );
    assert_eq!(lines[2], "!help - Shows this help message!");
}

#[test]
fn dispatch_ping_replies_pong() {
    match dispatch(&Command::Ping) {
        DispatchAction::Reply { text } => assert_eq!(text, "Pong!"),
        _ => panic!("ping must reply"),
    }
}

#[test]
fn dispatch_help_joins_lines() {
    match dispatch(&Command::Help) {
        DispatchAction::Reply { text } => {
            assert_eq!(text, Command::help().join("\n"));
            assert_eq!(text.lines().count(), 3);
        }
        _ => panic!("help must reply"),
    }
}

#[test]
fn dispatch_sleep_starts_workflow() {
    match dispatch(&Command::Sleep { delay_secs: 600 }) {
        DispatchAction::StartSleep { delay_secs } => assert_eq!(delay_secs, 600),
        _ => panic!("sleep must start the workflow"),
    }
}

#[test]
fn bot_authored_messages_are_filtered() {
    assert!(matches!(
        handle_message(true, "!ping"),
        MessageAction::Ignore
    ));
    assert!(matches!(
        handle_message(true, "!bogus"),
        MessageAction::Ignore
    ));
}

#[test]
fn handled_messages_route_as_dispatched() {
    match handle_message(false, "!ping") {
        MessageAction::Reply { text } => assert_eq!(text, "Pong!"),
        _ => panic!("ping must reply"),
    }
    match handle_message(false, "!sleep 2") {
        MessageAction::StartSleep { delay_secs } => assert_eq!(delay_secs, 120),
        _ => panic!("sleep must start the workflow"),
    }
    match handle_message(false, "!what") {
        MessageAction::Reply { text } => assert_eq!(text, "Error: Unknown command: !what"),
        _ => panic!("a bad command must be answered"),
    }
    assert!(matches!(
        handle_message(false, "plain chatter"),
        MessageAction::Ignore
    ));
}

#[test]
fn error_reply_wording() {
    assert_eq!(
        error_reply("Unknown command: !x"),
        "Error: Unknown command: !x"
    );
}
