//! The command surface: parsing one chat message into a [`Command`] and
//! deciding what each command does.
use vstd::prelude::*;

use crate::text::{
    minutes_to_secs, minutes_to_secs_exec, parse_u64, str_eq, tokenize, tokens_of, trim_exec,
    trimmed, u64_from_str_spec,
};

verus! {

/// A parsed chat command, the result of reading one `!`-prefixed message.
///
/// `Sleep` carries the requested delay in whole seconds.
#[derive(Clone, Copy, Debug, PartialEq, Eq, Hash, Structural)]
pub enum Command {
    Help,
    Ping,
    Sleep { delay_secs: u64 },
}

/// The default `!sleep` delay: ninety minutes, in seconds.
pub const DEFAULT_SLEEP_SECS: u64 = 5400;

/// What [`Command::parse`] returns on a message `s`, stated over the
/// trimmed text and its white-space tokens:
/// - text not starting with `!` is not a command (`Ok(None)`);
/// - `!help`, `!ping`, `!sleep` and `!sleep <minutes>` parse, `!sleep`
///   defaulting to ninety minutes;
/// - a `!sleep` argument that is not a non-negative integer, and any other
///   `!`-prefixed text, give the error messages below.
pub open spec fn parse_spec(s: Seq<char>) -> Result<Option<Command>, Seq<char>> {
    let t = trimmed(s);
    if !(t.len() > 0 && t[0] == '!') {
        Ok(None)
    } else {
        let toks = tokens_of(t);
        if toks.len() == 1 && toks[0] == "!help"@ {
            Ok(Some(Command::Help))
        } else if toks.len() == 1 && toks[0] == "!ping"@ {
            Ok(Some(Command::Ping))
        } else if toks.len() == 1 && toks[0] == "!sleep"@ {
            Ok(Some(Command::Sleep { delay_secs: DEFAULT_SLEEP_SECS }))
        } else if toks.len() == 2 && toks[0] == "!sleep"@ {
            match u64_from_str_spec(toks[1]) {
                Some(mins) => Ok(Some(Command::Sleep { delay_secs: minutes_to_secs(mins) })),
                None => Err("Invalid !sleep delay: "@ + toks[1] + ". Must be a number"@),
            }
        } else {
            Err("Unknown command: "@ + t)
        }
    }
}

/// Text that, once trimmed, does not start with the command marker `!` is
/// never a command and never an error: parsing returns `Ok(None)`.
pub proof fn lemma_non_command_ignored(s: Seq<char>)
    requires
        trimmed(s).len() == 0 || trimmed(s)[0] != '!',
    ensures
        parse_spec(s) == Ok::<Option<Command>, Seq<char>>(None),
{
}

impl Command {
    /// The fixed help lines, one per command, in the order ping, sleep, help.
    pub fn help() -> (r: Vec<&'static str>)
        ensures
            r@.len() == 3,
            r.deep_view() == help_lines(),
    {
        let r = vec![
            "!ping - Responds with Pong!",
            "!sleep [<delay>] - Disconnects all members from voice channels after the given delay (minutes). Default delay is 90 minutes.",
            "!help - Shows this help message!",
        ];
        proof {
            assert(r.deep_view() =~= help_lines());
        }
        r
    }

    /// Reads one message. Returns `Ok(None)` for text that is not addressed
    /// to the bot, `Ok(Some(_))` for a recognized command, and `Err` with the
    /// exact user-facing message otherwise; see [`parse_spec`].
    pub fn parse(s: &str) -> (r: Result<Option<Command>, String>)
        ensures
            match parse_spec(s@) {
                Ok(c) => r matches Ok(rc) && rc == c,
                Err(m) => r matches Err(e) && e@ == m,
            },
    {
        let t = trim_exec(s);
        let n = t.unicode_len();
        if n == 0 || t.get_char(0) != '!' {
            return Ok(None);
        }
        let toks = tokenize(t);
        let ghost tv = tokens_of(t@);
        if toks.len() == 1 {
            proof {
                assert(toks@[0]@ == tv[0]);
            }
            if str_eq(toks[0].as_str(), "!help") {
                return Ok(Some(Command::Help));
            }
            if str_eq(toks[0].as_str(), "!ping") {
                return Ok(Some(Command::Ping));
            }
            if str_eq(toks[0].as_str(), "!sleep") {
                return Ok(Some(Command::Sleep { delay_secs: DEFAULT_SLEEP_SECS }));
            }
        }
        if toks.len() == 2 {
            proof {
                assert(toks@[0]@ == tv[0]);
                assert(toks@[1]@ == tv[1]);
            }
            if str_eq(toks[0].as_str(), "!sleep") {
                match parse_u64(toks[1].as_str()) {
                    Some(mins) => {
                        return Ok(Some(Command::Sleep { delay_secs: minutes_to_secs_exec(mins) }));
                    },
                    None => {
                        let mut m = String::from_str("Invalid !sleep delay: ");
                        m.append(toks[1].as_str());
                        m.append(". Must be a number");
                        proof {
                            assert(m@ =~= "Invalid !sleep delay: "@ + tv[1]
                                + ". Must be a number"@);
                        }
                        return Err(m);
                    },
                }
            }
        }
        let mut m = String::from_str("Unknown command: ");
        m.append(t);
        Err(m)
    }
}

/// The help lines of [`Command::help`], as sequences of characters.
pub open spec fn help_lines() -> Seq<Seq<char>> {
    seq![
        "!ping - Responds with Pong!"@,
        "!sleep [<delay>] - Disconnects all members from voice channels after the given delay (minutes). Default delay is 90 minutes."@,
        "!help - Shows this help message!"@,
    ]
}

/// The help reply: the three help lines joined with newlines.
pub open spec fn help_text() -> Seq<char> {
    help_lines()[0] + "\n"@ + help_lines()[1] + "\n"@ + help_lines()[2]
}

/// What the dispatcher decides for one command: either a reply to send to
/// the channel, or a disconnect workflow to start with the given delay.
pub enum DispatchAction {
    Reply { text: String },
    StartSleep { delay_secs: u64 },
}

/// Routes one parsed command: `Help` and `Ping` reply with fixed text,
/// `Sleep` starts the disconnect workflow with the command's delay.
pub fn dispatch(c: &Command) -> (a: DispatchAction)
    ensures
        match *c {
            Command::Help => a matches DispatchAction::Reply { text } && text@ == help_text(),
            Command::Ping => a matches DispatchAction::Reply { text } && text@ == "Pong!"@,
            Command::Sleep { delay_secs } => (a matches DispatchAction::StartSleep {
                delay_secs: d,
            } && d == delay_secs),
        },
{
    match c {
        Command::Help => {
            let lines = Command::help();
            let mut text = String::from_str(lines[0]);
            text.append("\n");
            text.append(lines[1]);
            text.append("\n");
            text.append(lines[2]);
            proof {
                assert(text@ =~= help_text());
            }
            DispatchAction::Reply { text }
        },
        Command::Ping => DispatchAction::Reply { text: String::from_str("Pong!") },
        Command::Sleep { delay_secs } => DispatchAction::StartSleep { delay_secs: *delay_secs },
    }
}

/// The reply for a message that failed to parse: the parse error behind the
/// `Error: ` marker.
pub fn error_reply(e: &str) -> (r: String)
    ensures
        r@ == "Error: "@ + e@,
{
    let mut m = String::from_str("Error: ");
    m.append(e);
    m
}

/// What handling one inbound message comes to: nothing, one reply, or a
/// disconnect workflow to start.
pub enum MessageAction {
    Ignore,
    Reply { text: String },
    StartSleep { delay_secs: u64 },
}

/// The whole decision for one inbound message. A bot-authored message is
/// ignored unconditionally; text that is not a command is ignored silently;
/// a command that fails to parse is answered with its error behind the
/// `Error: ` marker; a parsed command is routed as [`dispatch`] routes it.
pub fn handle_message(author_is_bot: bool, content: &str) -> (a: MessageAction)
    ensures
        author_is_bot ==> a is Ignore,
        !author_is_bot ==> match parse_spec(content@) {
            Ok(c) => match c {
                None => a is Ignore,
                Some(Command::Help) => (a matches MessageAction::Reply { text } && text@
                    == help_text()),
                Some(Command::Ping) => (a matches MessageAction::Reply { text } && text@
                    == "Pong!"@),
                Some(Command::Sleep { delay_secs }) => (a matches MessageAction::StartSleep {
                    delay_secs: d,
                } && d == delay_secs),
            },
            Err(m) => a matches MessageAction::Reply { text } && text@ == "Error: "@ + m,
        },
{
    if author_is_bot {
        return MessageAction::Ignore;
    }
    match Command::parse(content) {
        Ok(None) => MessageAction::Ignore,
        Err(e) => MessageAction::Reply { text: error_reply(e.as_str()) },
        Ok(Some(c)) => match dispatch(&c) {
            DispatchAction::Reply { text } => MessageAction::Reply { text },
            DispatchAction::StartSleep { delay_secs } => MessageAction::StartSleep { delay_secs },
        },
    }
}

} // verus!
