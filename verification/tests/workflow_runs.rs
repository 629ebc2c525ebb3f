use sleep_bot::events::Log;
use sleep_bot::workflow::SleepWorkflow;

/// Drives one complete run and returns every emitted event in order.
fn run(
    delay_secs: u64,
    guild_id: u64,
    guild_ok: bool,
    members: Result<Vec<&str>, &str>,
    results: Vec<Result<(), &str>>,
) -> Vec<Log> {
    let (mut wf, start) = SleepWorkflow::new(delay_secs, guild_id);
    let mut log = vec![start];
    log.extend(wf.on_guild_resolved(guild_ok));
    if wf.is_done() {
        return log;
    }
    let members = members
        .map(|names| names.into_iter().map(String::from).collect::<Vec<_>>())
        .map_err(String::from);
    log.extend(wf.on_members(members));
    for r in results {
        if wf.is_done() {
            break;
        }
        log.extend(wf.on_member_result(r.map_err(String::from)));
    }
    assert!(wf.is_done());
    log
}

#[test]
fn one_member_failure_is_interleaved_and_tolerated() {
    let log = run(
        5400,
        7,
        true,
        Ok(vec!["A", "B"]),
        vec![Ok(()), Err("no permission")],
    );
    assert_eq!(
        log,
        vec![
            Log::Start { delay_secs: 5400 },
            Log::Disconnecting,
            Log::ErrorDisconnectingMember {
                member_name: "B".to_string(),
                error: "no permission".to_string(),
            },
            Log::DoneDisconnecting,
        ]
    );
}

#[test]
fn invalid_guild_stops_the_run() {
    let log = run(60, 42, false, Ok(vec![]), vec![]);
    assert_eq!(
        log,
        vec![
            Log::Start { delay_secs: 60 },
            Log::InvalidGuildId { guild_id: 42 },
        ]
    );
}

#[test]
fn member_list_failure_still_finishes() {
    let log = run(60, 42, true, Err("connection reset"), vec![]);
    assert_eq!(
        log,
        vec![
            Log::Start { delay_secs: 60 },
            Log::Disconnecting,
            Log::ErrorDisconnectingGuild {
                error: "connection reset".to_string(),
            },
            Log::DoneDisconnecting,
        ]
    );
}

#[test]
fn empty_guild_runs_are_idempotent() {
    let expected = vec![
        Log::Start { delay_secs: 60 },
        Log::Disconnecting,
        Log::DoneDisconnecting,
    ];
    let first = run(60, 42, true, Ok(vec![]), vec![]);
    let second = run(60, 42, true, Ok(vec![]), vec![]);
    assert_eq!(first, expected);
    assert_eq!(second, expected);
}

#[test]
fn every_member_failing_never_aborts() {
    let log = run(
        0,
        1,
        true,
        Ok(vec!["A", "B", "C"]),
        vec![Err("x"), Err("y"), Err("z")],
    );
    assert_eq!(log.len(), 6);
    assert_eq!(log.last(), Some(&Log::DoneDisconnecting));
}

#[test]
fn current_member_follows_list_order() {
    let (mut wf, _) = SleepWorkflow::new(0, 1);
    wf.on_guild_resolved(true);
    wf.on_members(Ok(vec!["A".to_string(), "B".to_string()]));
    assert_eq!(wf.current_member(), "A");
    wf.on_member_result(Ok(()));
    assert_eq!(wf.current_member(), "B");
    wf.on_member_result(Ok(()));
    assert!(wf.is_done());
}
