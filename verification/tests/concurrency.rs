use std::time::{Duration, Instant};

use sleep_bot::command::{dispatch, Command, DispatchAction};
use sleep_bot::events::Log;
use sleep_bot::workflow::SleepWorkflow;

/// A `!ping` sent while a sleep workflow is waiting out its delay is
/// answered before that delay elapses: the wait suspends the workflow's
/// task only, it does not block command handling.
#[test]
fn ping_answered_while_sleep_is_pending() {
    let rt = tokio::runtime::Builder::new_multi_thread()
        .worker_threads(2)
        .enable_time()
        .build()
        .unwrap();
    rt.block_on(async {
        let delay_secs: u64 = 3;
        let cmd = Command::parse("!sleep 90").unwrap().unwrap();
        assert_eq!(cmd, Command::Sleep { delay_secs: 5400 });
        let started = Instant::now();
        // The pending sleep runs as its own task, as the dispatcher starts it.
        let pending = tokio::spawn(async move {
            let (mut wf, start) = SleepWorkflow::new(delay_secs, 1);
            let mut log = vec![start];
            tokio::time::sleep(Duration::from_secs(delay_secs)).await;
            log.extend(wf.on_guild_resolved(true));
            log.extend(wf.on_members(Ok(vec![])));
            assert!(wf.is_done());
            log
        });
        // Meanwhile a ping arrives and must be answered at once.
        let ping = Command::parse("!ping").unwrap().unwrap();
        let reply = match dispatch(&ping) {
            DispatchAction::Reply { text } => text,
            _ => panic!("ping must reply"),
        };
        assert_eq!(reply, "Pong!");
        assert!(
            started.elapsed() < Duration::from_secs(delay_secs),
            "the ping reply must not wait for the pending sleep"
        );
        let log = pending.await.unwrap();
        assert_eq!(
            log,
            vec![
                Log::Start { delay_secs },
                Log::Disconnecting,
                Log::DoneDisconnecting,
            ]
        );
    });
}
