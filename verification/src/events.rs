//! The events the disconnect workflow emits, and their channel wording.
use vstd::prelude::*;

use crate::text::{dec_str, u64_to_string};

verus! {

/// One event of the disconnect workflow, in the order the workflow emits
/// them: `Start` on invocation, then either `InvalidGuildId` (terminal) or
/// `Disconnecting`, then `ErrorDisconnectingGuild` or one
/// `ErrorDisconnectingMember` per failed member, then `DoneDisconnecting`.
#[derive(Debug, PartialEq, Eq)]
pub enum Log {
    Start { delay_secs: u64 },
    Disconnecting,
    InvalidGuildId { guild_id: u64 },
    ErrorDisconnectingGuild { error: String },
    ErrorDisconnectingMember { member_name: String, error: String },
    DoneDisconnecting,
}

/// The mathematical value of a [`Log`] event: the same shape with every
/// string taken as its sequence of characters.
pub enum LogV {
    Start { delay_secs: u64 },
    Disconnecting,
    InvalidGuildId { guild_id: u64 },
    ErrorDisconnectingGuild { error: Seq<char> },
    ErrorDisconnectingMember { member_name: Seq<char>, error: Seq<char> },
    DoneDisconnecting,
}

impl View for Log {
    type V = LogV;

    open spec fn view(&self) -> LogV {
        match self {
            Log::Start { delay_secs } => LogV::Start { delay_secs: *delay_secs },
            Log::Disconnecting => LogV::Disconnecting,
            Log::InvalidGuildId { guild_id } => LogV::InvalidGuildId { guild_id: *guild_id },
            Log::ErrorDisconnectingGuild { error } => LogV::ErrorDisconnectingGuild {
                error: error@,
            },
            Log::ErrorDisconnectingMember { member_name, error } => LogV::ErrorDisconnectingMember {
                member_name: member_name@,
                error: error@,
            },
            Log::DoneDisconnecting => LogV::DoneDisconnecting,
        }
    }
}

impl DeepView for Log {
    type V = LogV;

    open spec fn deep_view(&self) -> LogV {
        self.view()
    }
}

/// The exact channel wording of each event. The delay is reported in whole
/// minutes, the guild identifier in decimal.
pub open spec fn message_of(l: LogV) -> Seq<char> {
    match l {
        LogV::Start { delay_secs } => "Everyone will be disconnected in "@ + dec_str(
            (delay_secs / 60) as nat,
        ) + " minutes"@,
        LogV::Disconnecting => "Disconnecting everyone..."@,
        LogV::InvalidGuildId { guild_id } => "Invalid server ID: "@ + dec_str(guild_id as nat),
        LogV::ErrorDisconnectingGuild { error } => "Error disconnecting from server: "@ + error,
        LogV::ErrorDisconnectingMember { member_name, error } => "Error disconnecting member "@
            + member_name + ": "@ + error,
        LogV::DoneDisconnecting => "Done!"@,
    }
}

impl Log {
    /// Renders this event to its channel message; see [`message_of`].
    pub fn to_message(&self) -> (r: String)
        ensures
            r@ == message_of(self@),
    {
        match self {
            Log::Start { delay_secs } => {
                let mut m = String::from_str("Everyone will be disconnected in ");
                let mins = u64_to_string(*delay_secs / 60);
                m.append(mins.as_str());
                m.append(" minutes");
                proof {
                    assert(m@ =~= message_of(self@));
                }
                m
            },
            Log::Disconnecting => String::from_str("Disconnecting everyone..."),
            Log::InvalidGuildId { guild_id } => {
                let mut m = String::from_str("Invalid server ID: ");
                let id = u64_to_string(*guild_id);
                m.append(id.as_str());
                m
            },
            Log::ErrorDisconnectingGuild { error } => {
                let mut m = String::from_str("Error disconnecting from server: ");
                m.append(error.as_str());
                m
            },
            Log::ErrorDisconnectingMember { member_name, error } => {
                let mut m = String::from_str("Error disconnecting member ");
                m.append(member_name.as_str());
                m.append(": ");
                m.append(error.as_str());
                proof {
                    assert(m@ =~= message_of(self@));
                }
                m
            },
            Log::DoneDisconnecting => String::from_str("Done!"),
        }
    }
}

} // verus!
