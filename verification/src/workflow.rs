//! The delayed bulk voice-disconnect workflow.
//!
//! The machine here decides everything; the surrounding runtime performs the
//! waiting and the gateway calls and reports each outcome back through one of
//! the step methods. Every step says exactly which events it emits, and a
//! completed run's whole event log equals [`trace`] of its inputs.
use vstd::prelude::*;

use crate::events::{Log, LogV};

verus! {

/// The events the per-member disconnect loop emits: one
/// `ErrorDisconnectingMember` per failed member, in list order, and nothing
/// for a member whose disconnect succeeded. `results[i]` is `None` where
/// member `i`'s disconnect succeeded, `Some(error)` where it failed.
pub open spec fn member_events(names: Seq<Seq<char>>, results: Seq<Option<Seq<char>>>) -> Seq<LogV>
    decreases names.len(),
{
    if names.len() == 0 || results.len() == 0 {
        Seq::empty()
    } else {
        (match results[0] {
            Some(e) => seq![
                LogV::ErrorDisconnectingMember { member_name: names[0], error: e },
            ],
            None => Seq::empty(),
        }) + member_events(names.drop_first(), results.drop_first())
    }
}

/// The complete event log of one workflow run, given its inputs: whether the
/// guild resolved, the member-list outcome, and each member's disconnect
/// outcome. A failed guild resolution ends the run after `InvalidGuildId`;
/// every other run ends with `DoneDisconnecting`, whatever failed in it.
pub open spec fn trace(
    delay_secs: u64,
    guild_id: u64,
    guild_ok: bool,
    members: Result<Seq<Seq<char>>, Seq<char>>,
    results: Seq<Option<Seq<char>>>,
) -> Seq<LogV> {
    if !guild_ok {
        seq![LogV::Start { delay_secs }, LogV::InvalidGuildId { guild_id }]
    } else {
        match members {
            Err(e) => seq![
                LogV::Start { delay_secs },
                LogV::Disconnecting,
                LogV::ErrorDisconnectingGuild { error: e },
                LogV::DoneDisconnecting,
            ],
            Ok(names) => seq![LogV::Start { delay_secs }, LogV::Disconnecting] + member_events(
                names,
                results,
            ) + seq![LogV::DoneDisconnecting],
        }
    }
}

/// Where a workflow stands: waiting out its delay, waiting for the guild's
/// member list, disconnecting members one by one, or finished.
#[derive(Clone, Copy, Debug, PartialEq, Eq, Structural)]
pub enum Phase {
    Waiting,
    AwaitMembers,
    Disconnect,
    Done,
}

/// One invocation of the sleep command: a state machine the runtime drives.
///
/// The ghost fields record the events emitted so far and the outside
/// outcomes reported so far; [`SleepWorkflow::wf`] ties them to the phase.
pub struct SleepWorkflow {
    pub delay_secs: u64,
    pub guild_id: u64,
    pub phase: Phase,
    pub names: Vec<String>,
    pub idx: usize,
    pub emitted: Ghost<Seq<LogV>>,
    pub guild_ok_in: Ghost<Option<bool>>,
    pub members_in: Ghost<Option<Result<Seq<Seq<char>>, Seq<char>>>>,
    pub results_in: Ghost<Seq<Option<Seq<char>>>>,
}

impl SleepWorkflow {
    /// The member names still to disconnect, as character sequences.
    pub open spec fn names_v(&self) -> Seq<Seq<char>> {
        self.names.deep_view()
    }

    /// Well-formedness: in each phase, the events emitted so far are exactly
    /// the prefix of [`trace`] that the recorded outcomes determine.
    pub open spec fn wf(&self) -> bool {
        match self.phase {
            Phase::Waiting => self.guild_ok_in@ is None && self.members_in@ is None
                && self.results_in@ == Seq::<Option<Seq<char>>>::empty() && self.emitted@ == seq![
                LogV::Start { delay_secs: self.delay_secs },
            ],
            Phase::AwaitMembers => self.guild_ok_in@ == Some(true) && self.members_in@ is None
                && self.results_in@ == Seq::<Option<Seq<char>>>::empty() && self.emitted@ == seq![
                LogV::Start { delay_secs: self.delay_secs },
                LogV::Disconnecting,
            ],
            Phase::Disconnect => self.guild_ok_in@ == Some(true) && self.members_in@ == Some(
                Result::<Seq<Seq<char>>, Seq<char>>::Ok(self.names_v()),
            ) && self.idx < self.names@.len() && self.results_in@.len() == self.idx
                && self.emitted@ == seq![
                LogV::Start { delay_secs: self.delay_secs },
                LogV::Disconnecting,
            ] + member_events(self.names_v().take(self.idx as int), self.results_in@),
            Phase::Done => match self.guild_ok_in@ {
                None => false,
                Some(ok) => if !ok {
                    self.emitted@ == trace(
                        self.delay_secs,
                        self.guild_id,
                        false,
                        Ok(Seq::empty()),
                        Seq::empty(),
                    )
                } else {
                    match self.members_in@ {
                        None => false,
                        Some(m) => (match m {
                            Ok(names) => self.results_in@.len() == names.len(),
                            Err(_) => self.results_in@ == Seq::<Option<Seq<char>>>::empty(),
                        }) && self.emitted@ == trace(
                            self.delay_secs,
                            self.guild_id,
                            true,
                            m,
                            self.results_in@,
                        ),
                    }
                },
            },
        }
    }

    /// Starts one run. Emits `Start` at once; the runtime should then wait
    /// out the delay (without blocking other work), resolve the guild, and
    /// report through [`SleepWorkflow::on_guild_resolved`].
    pub fn new(delay_secs: u64, guild_id: u64) -> (r: (SleepWorkflow, Log))
        ensures
            r.0.wf(),
            r.0.delay_secs == delay_secs,
            r.0.guild_id == guild_id,
            r.0.phase is Waiting,
            r.1@ == (LogV::Start { delay_secs }),
            r.0.emitted@ == seq![r.1@],
    {
        let ghost em: Seq<LogV> = seq![LogV::Start { delay_secs }];
        let w = SleepWorkflow {
            delay_secs,
            guild_id,
            phase: Phase::Waiting,
            names: Vec::new(),
            idx: 0,
            emitted: Ghost(em),
            guild_ok_in: Ghost(None),
            members_in: Ghost(None),
            results_in: Ghost(Seq::empty()),
        };
        (w, Log::Start { delay_secs })
    }

    /// Reports whether the guild resolved. On failure the run is over after
    /// an `InvalidGuildId` event; on success a `Disconnecting` event follows
    /// and the runtime should list the guild's members and report through
    /// [`SleepWorkflow::on_members`].
    pub fn on_guild_resolved(&mut self, ok: bool) -> (evs: Vec<Log>)
        requires
            old(self).wf(),
            old(self).phase is Waiting,
        ensures
            final(self).wf(),
            final(self).delay_secs == old(self).delay_secs,
            final(self).guild_id == old(self).guild_id,
            final(self).emitted@ == old(self).emitted@ + evs.deep_view(),
            !ok ==> final(self).phase is Done && evs.deep_view() == seq![
                LogV::InvalidGuildId { guild_id: old(self).guild_id },
            ] && final(self).emitted@ == trace(
                old(self).delay_secs,
                old(self).guild_id,
                false,
                Ok(Seq::empty()),
                Seq::empty(),
            ),
            ok ==> final(self).phase is AwaitMembers && evs.deep_view() == seq![
                LogV::Disconnecting,
            ],
    {
        self.guild_ok_in = Ghost(Some(ok));
        let mut evs: Vec<Log> = Vec::new();
        if !ok {
            evs.push(Log::InvalidGuildId { guild_id: self.guild_id });
            self.phase = Phase::Done;
            proof {
                assert(evs.deep_view() =~= seq![
                    LogV::InvalidGuildId { guild_id: self.guild_id },
                ]);
            }
        } else {
            evs.push(Log::Disconnecting);
            self.phase = Phase::AwaitMembers;
            proof {
                assert(evs.deep_view() =~= seq![LogV::Disconnecting]);
            }
        }
        self.emitted = Ghost(self.emitted@ + evs.deep_view());
        proof {
            if !ok {
                assert(self.emitted@ =~= trace(
                    self.delay_secs,
                    self.guild_id,
                    false,
                    Ok(Seq::empty()),
                    Seq::empty(),
                ));
            } else {
                assert(self.emitted@ =~= seq![
                    LogV::Start { delay_secs: self.delay_secs },
                    LogV::Disconnecting,
                ]);
            }
        }
        evs
    }

    /// Reports the member-list outcome. A failed call ends the run after
    /// `ErrorDisconnectingGuild` and `DoneDisconnecting`, with no member
    /// attempted; an empty list ends it after `DoneDisconnecting` alone.
    /// Otherwise the runtime should disconnect the members in list order,
    /// reporting each outcome through [`SleepWorkflow::on_member_result`].
    pub fn on_members(&mut self, members: Result<Vec<String>, String>) -> (evs: Vec<Log>)
        requires
            old(self).wf(),
            old(self).phase is AwaitMembers,
        ensures
            final(self).wf(),
            final(self).delay_secs == old(self).delay_secs,
            final(self).guild_id == old(self).guild_id,
            final(self).emitted@ == old(self).emitted@ + evs.deep_view(),
            match members {
                Err(e) => final(self).phase is Done && evs.deep_view() == seq![
                    LogV::ErrorDisconnectingGuild { error: e@ },
                    LogV::DoneDisconnecting,
                ] && final(self).emitted@ == trace(
                    old(self).delay_secs,
                    old(self).guild_id,
                    true,
                    Err(e@),
                    Seq::empty(),
                ),
                Ok(names) => if names@.len() == 0 {
                    final(self).phase is Done && evs.deep_view() == seq![LogV::DoneDisconnecting]
                        && final(self).emitted@ == trace(
                        old(self).delay_secs,
                        old(self).guild_id,
                        true,
                        Ok(names.deep_view()),
                        Seq::empty(),
                    )
                } else {
                    final(self).phase is Disconnect && evs.deep_view() == Seq::<LogV>::empty()
                        && final(self).names_v() == names.deep_view() && final(self).idx == 0
                },
            },
    {
        let mut evs: Vec<Log> = Vec::new();
        match members {
            Err(e) => {
                let ghost ev = e@;
                evs.push(Log::ErrorDisconnectingGuild { error: e });
                evs.push(Log::DoneDisconnecting);
                self.phase = Phase::Done;
                self.members_in = Ghost(Some(Err(ev)));
                proof {
                    assert(evs.deep_view() =~= seq![
                        LogV::ErrorDisconnectingGuild { error: ev },
                        LogV::DoneDisconnecting,
                    ]);
                }
                self.emitted = Ghost(self.emitted@ + evs.deep_view());
                proof {
                    assert(self.emitted@ =~= trace(
                        self.delay_secs,
                        self.guild_id,
                        true,
                        Err(ev),
                        Seq::empty(),
                    ));
                }
            },
            Ok(names) => {
                self.members_in = Ghost(Some(Ok(names.deep_view())));
                if names.len() == 0 {
                    evs.push(Log::DoneDisconnecting);
                    self.phase = Phase::Done;
                    proof {
                        assert(evs.deep_view() =~= seq![LogV::DoneDisconnecting]);
                    }
                    self.emitted = Ghost(self.emitted@ + evs.deep_view());
                    proof {
                        assert(member_events(names.deep_view(), Seq::empty()) == Seq::<
                            LogV,
                        >::empty());
                        assert(self.emitted@ =~= trace(
                            self.delay_secs,
                            self.guild_id,
                            true,
                            Ok(names.deep_view()),
                            Seq::empty(),
                        ));
                    }
                } else {
                    self.names = names;
                    self.idx = 0;
                    self.phase = Phase::Disconnect;
                    proof {
                        assert(evs.deep_view() =~= Seq::<LogV>::empty());
                        assert(self.emitted@ + evs.deep_view() =~= self.emitted@);
                        assert(member_events(self.names_v().take(0), self.results_in@) == Seq::<
                            LogV,
                        >::empty());
                        assert(self.emitted@ =~= seq![
                            LogV::Start { delay_secs: self.delay_secs },
                            LogV::Disconnecting,
                        ] + member_events(self.names_v().take(0), self.results_in@));
                    }
                    self.emitted = Ghost(self.emitted@ + evs.deep_view());
                }
            },
        }
        evs
    }

    /// The name of the member whose disconnect the runtime should attempt
    /// next.
    pub fn current_member(&self) -> (r: String)
        requires
            self.wf(),
            self.phase is Disconnect,
        ensures
            r@ == self.names_v()[self.idx as int],
    {
        self.names[self.idx].clone()
    }

    /// Whether the run is over: no step is enabled and no further event will
    /// ever be emitted.
    pub fn is_done(&self) -> (r: bool)
        ensures
            r == (self.phase is Done),
    {
        self.phase == Phase::Done
    }

    /// Reports one member's disconnect outcome. A failure emits one
    /// `ErrorDisconnectingMember` and never stops the remaining members;
    /// after the last member the run ends with `DoneDisconnecting`.
    pub fn on_member_result(&mut self, result: Result<(), String>) -> (evs: Vec<Log>)
        requires
            old(self).wf(),
            old(self).phase is Disconnect,
        ensures
            final(self).wf(),
            final(self).delay_secs == old(self).delay_secs,
            final(self).guild_id == old(self).guild_id,
            final(self).emitted@ == old(self).emitted@ + evs.deep_view(),
            evs.deep_view() == (match result {
                Ok(_) => Seq::<LogV>::empty(),
                Err(e) => seq![
                    LogV::ErrorDisconnectingMember {
                        member_name: old(self).names_v()[old(self).idx as int],
                        error: e@,
                    },
                ],
            }) + if old(self).idx + 1 == old(self).names_v().len() {
                seq![LogV::DoneDisconnecting]
            } else {
                Seq::<LogV>::empty()
            },
            old(self).idx + 1 == old(self).names_v().len() ==> final(self).phase is Done
                && final(self).emitted@ == trace(
                old(self).delay_secs,
                old(self).guild_id,
                true,
                Ok(old(self).names_v()),
                final(self).results_in@,
            ),
            old(self).idx + 1 < old(self).names_v().len() ==> final(self).phase is Disconnect
                && final(self).names_v() == old(self).names_v() && final(self).idx == old(self).idx
                + 1,
    {
        let ghost old_names = self.names_v();
        let ghost old_idx = self.idx as int;
        let ghost old_results = self.results_in@;
        let ghost rv: Option<Seq<char>> = match result {
            Ok(_) => None,
            Err(ref e) => Some(e@),
        };
        let mut evs: Vec<Log> = Vec::new();
        match result {
            Ok(_) => {},
            Err(e) => {
                evs.push(
                    Log::ErrorDisconnectingMember {
                        member_name: self.names[self.idx].clone(),
                        error: e,
                    },
                );
            },
        }
        self.results_in = Ghost(old_results.push(rv));
        proof {
            assert(old_names.take(old_idx + 1) =~= old_names.take(old_idx).push(
                old_names[old_idx],
            ));
            lemma_member_events_snoc(
                old_names.take(old_idx),
                old_results,
                old_names[old_idx],
                rv,
            );
        }
        let last = self.idx == self.names.len() - 1;
        if last {
            evs.push(Log::DoneDisconnecting);
            self.phase = Phase::Done;
        } else {
            self.idx = self.idx + 1;
        }
        self.emitted = Ghost(self.emitted@ + evs.deep_view());
        proof {
            let evv = (match rv {
                Some(e) => seq![
                    LogV::ErrorDisconnectingMember { member_name: old_names[old_idx], error: e },
                ],
                None => Seq::<LogV>::empty(),
            });
            if last {
                assert(evs.deep_view() =~= evv + seq![LogV::DoneDisconnecting]);
                assert(old_names.take(old_idx + 1) =~= old_names);
                assert(self.emitted@ =~= seq![
                    LogV::Start { delay_secs: self.delay_secs },
                    LogV::Disconnecting,
                ] + member_events(old_names, old_results.push(rv)) + seq![LogV::DoneDisconnecting]);
            } else {
                assert(evs.deep_view() =~= evv);
                assert(self.emitted@ =~= seq![
                    LogV::Start { delay_secs: self.delay_secs },
                    LogV::Disconnecting,
                ] + member_events(old_names.take(old_idx + 1), old_results.push(rv)));
            }
        }
        evs
    }
}

/// For a run whose guild resolves and whose members are `[a, b]`, where
/// `a`'s disconnect succeeds and `b`'s fails with error `e`, the event log
/// is exactly `Start`, `Disconnecting`, one `ErrorDisconnectingMember` for
/// `b`, `DoneDisconnecting` — no `InvalidGuildId`, no
/// `ErrorDisconnectingGuild`, and one failing member never stops the run.
pub proof fn lemma_one_member_failure(
    delay_secs: u64,
    guild_id: u64,
    a: Seq<char>,
    b: Seq<char>,
    e: Seq<char>,
)
    ensures
        trace(delay_secs, guild_id, true, Ok(seq![a, b]), seq![None, Some(e)]) == seq![
            LogV::Start { delay_secs },
            LogV::Disconnecting,
            LogV::ErrorDisconnectingMember { member_name: b, error: e },
            LogV::DoneDisconnecting,
        ],
{
    let names = seq![a, b];
    let results: Seq<Option<Seq<char>>> = seq![None, Some(e)];
    assert(names.drop_first() =~= seq![b]);
    assert(results.drop_first() =~= seq![Some(e)]);
    assert(seq![b].drop_first() =~= Seq::<Seq<char>>::empty());
    assert(seq![Some(e)].drop_first() =~= Seq::<Option<Seq<char>>>::empty());
    assert(member_events(Seq::<Seq<char>>::empty(), Seq::<Option<Seq<char>>>::empty()) =~= Seq::<
        LogV,
    >::empty());
    assert(member_events(seq![b], seq![Some(e)]) =~= seq![
        LogV::ErrorDisconnectingMember { member_name: b, error: e },
    ]);
    assert(member_events(names, results) =~= seq![
        LogV::ErrorDisconnectingMember { member_name: b, error: e },
    ]);
    assert(trace(delay_secs, guild_id, true, Ok(names), results) =~= seq![
        LogV::Start { delay_secs },
        LogV::Disconnecting,
        LogV::ErrorDisconnectingMember { member_name: b, error: e },
        LogV::DoneDisconnecting,
    ]);
}

/// A failed guild resolution ends the run at once: the log is exactly
/// `Start` then `InvalidGuildId`, whatever the member inputs would have
/// been — no `Disconnecting`, no `DoneDisconnecting`, nothing further.
pub proof fn lemma_invalid_guild(
    delay_secs: u64,
    guild_id: u64,
    members: Result<Seq<Seq<char>>, Seq<char>>,
    results: Seq<Option<Seq<char>>>,
)
    ensures
        trace(delay_secs, guild_id, false, members, results) == seq![
            LogV::Start { delay_secs },
            LogV::InvalidGuildId { guild_id },
        ],
{
}

/// A failed member-list call gives exactly `Start`, `Disconnecting`,
/// `ErrorDisconnectingGuild`, `DoneDisconnecting`: no member is attempted,
/// so no `ErrorDisconnectingMember` appears, and the run still finishes.
pub proof fn lemma_member_list_failure(
    delay_secs: u64,
    guild_id: u64,
    e: Seq<char>,
    results: Seq<Option<Seq<char>>>,
)
    ensures
        trace(delay_secs, guild_id, true, Err(e), results) == seq![
            LogV::Start { delay_secs },
            LogV::Disconnecting,
            LogV::ErrorDisconnectingGuild { error: e },
            LogV::DoneDisconnecting,
        ],
        forall|i: int|
            0 <= i < trace(delay_secs, guild_id, true, Err(e), results).len() ==> !(trace(
                delay_secs,
                guild_id,
                true,
                Err(e),
                results,
            )[i] is ErrorDisconnectingMember),
{
    let t = trace(delay_secs, guild_id, true, Err(e), results);
    assert forall|i: int| 0 <= i < t.len() implies !(t[i] is ErrorDisconnectingMember) by {
        assert(t.len() == 4);
    }
}

/// On a guild with no members a run emits `Start`, `Disconnecting`,
/// `DoneDisconnecting` and no error event. The log is a function of the
/// run's inputs alone, so running the same workflow a second time over the
/// same empty guild gives this same log again.
pub proof fn lemma_empty_guild_idempotent(delay_secs: u64, guild_id: u64)
    ensures
        trace(delay_secs, guild_id, true, Ok(Seq::empty()), Seq::empty()) == seq![
            LogV::Start { delay_secs },
            LogV::Disconnecting,
            LogV::DoneDisconnecting,
        ],
{
    assert(trace(delay_secs, guild_id, true, Ok(Seq::empty()), Seq::empty()) =~= seq![
        LogV::Start { delay_secs },
        LogV::Disconnecting,
        LogV::DoneDisconnecting,
    ]);
}

/// The log-and-continue contract: once the guild resolves, the run ends
/// with `DoneDisconnecting` as its last event, whether the member list
/// failed, every disconnect failed, or nothing did.
pub proof fn lemma_resolved_run_finishes(
    delay_secs: u64,
    guild_id: u64,
    members: Result<Seq<Seq<char>>, Seq<char>>,
    results: Seq<Option<Seq<char>>>,
)
    ensures
        trace(delay_secs, guild_id, true, members, results).len() >= 1,
        trace(delay_secs, guild_id, true, members, results).last() == LogV::DoneDisconnecting,
        trace(delay_secs, guild_id, true, members, results).first() == (LogV::Start { delay_secs }),
{
    match members {
        Err(_) => {},
        Ok(names) => {
            let t = trace(delay_secs, guild_id, true, members, results);
            assert(t.last() == LogV::DoneDisconnecting);
        },
    }
}

/// Appending one member's outcome appends that member's events: the loop
/// handles members independently, in order.
proof fn lemma_member_events_snoc(
    names: Seq<Seq<char>>,
    results: Seq<Option<Seq<char>>>,
    n: Seq<char>,
    r: Option<Seq<char>>,
)
    requires
        names.len() == results.len(),
    ensures
        member_events(names.push(n), results.push(r)) == member_events(names, results) + (match r {
            Some(e) => seq![LogV::ErrorDisconnectingMember { member_name: n, error: e }],
            None => Seq::<LogV>::empty(),
        }),
    decreases names.len(),
{
    let ev = (match r {
        Some(e) => seq![LogV::ErrorDisconnectingMember { member_name: n, error: e }],
        None => Seq::<LogV>::empty(),
    });
    if names.len() == 0 {
        assert(names.push(n)[0] == n);
        assert(results.push(r)[0] == r);
        assert(names.push(n).drop_first() =~= names);
        assert(results.push(r).drop_first() =~= results);
        assert(member_events(names.push(n), results.push(r)) =~= ev);
        assert(member_events(names, results) + ev =~= ev);
    } else {
        assert(names.push(n).drop_first() =~= names.drop_first().push(n));
        assert(results.push(r).drop_first() =~= results.drop_first().push(r));
        lemma_member_events_snoc(names.drop_first(), results.drop_first(), n, r);
        assert(member_events(names.push(n), results.push(r)) =~= member_events(names, results)
            + ev);
    }
}

} // verus!
