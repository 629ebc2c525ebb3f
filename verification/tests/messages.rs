use sleep_bot::events::Log;

#[test]
fn start_reports_whole_minutes() {
    let ev = Log::Start { delay_secs: 5400 };
    assert_eq!(ev.to_message(), "Everyone will be disconnected in 90 minutes");
    let ev = Log::Start { delay_secs: 600 };
    assert_eq!(ev.to_message(), "Everyone will be disconnected in 10 minutes");
    let ev = Log::Start { delay_secs: 0 };
    assert_eq!(ev.to_message(), "Everyone will be disconnected in 0 minutes");
    let ev = Log::Start { delay_secs: 90 };
    assert_eq!(ev.to_message(), "Everyone will be disconnected in 1 minutes");
}

#[test]
fn invalid_guild_message() {
    let ev = Log::InvalidGuildId { guild_id: 123456789012345678 };
    assert_eq!(ev.to_message(), "Invalid server ID: 123456789012345678");
}

#[test]
fn guild_error_message() {
    let ev = Log::ErrorDisconnectingGuild {
        error: "connection reset".to_string(),
    };
    assert_eq!(
        ev.to_message(),
        "Error disconnecting from server: connection reset"
    );
}

#[test]
fn member_error_message() {
    let ev = Log::ErrorDisconnectingMember {
        member_name: "B".to_string(),
        error: "no permission".to_string(),
    };
    assert_eq!(
        ev.to_message(),
        "Error disconnecting member B: no permission"
    );
}

#[test]
fn fixed_messages() {
    assert_eq!(Log::Disconnecting.to_message(), "Disconnecting everyone...");
    assert_eq!(Log::DoneDisconnecting.to_message(), "Done!");
}
