use vstd::prelude::*;
use crate::dispatcher::completes_turn;
use crate::dispatcher::lemma_all_at_bound;
use crate::dispatcher::total;

verus! {

/// One host of a cluster that follows the sync server, seen from above: how
/// far the server, the dispatcher and each island have come.
pub struct SyncedHost {
    /// Turns that the sync server has released.
    pub released: nat,
    /// Turns that the dispatcher has reported done to the sync server.
    pub reported: nat,
    /// Acknowledgements of islands that the dispatcher has taken from its
    /// queue.
    pub handled: nat,
    /// For each island, the turns that it has run and acknowledged.
    pub acks: Seq<nat>,
}

/// What can happen on such a host.
pub enum SyncedEvent {
    /// The sync server releases the next turn. It does so only when every
    /// host, this one among them, has reported the turn before.
    Release,
    /// The island at this index takes a released turn from its mailbox, runs
    /// it and acknowledges it to the dispatcher.
    Turn(int),
    /// The dispatcher takes one acknowledgement from its queue; with the last
    /// one of a round it reports the turn done.
    Handle,
}

impl SyncedHost {
    /// A host of `islands` islands before the first turn.
    pub open spec fn fresh(islands: nat) -> SyncedHost {
        SyncedHost { released: 0, reported: 0, handled: 0, acks: Seq::new(islands, |i: int| 0nat) }
    }

    /// Whether `event` can happen in this state.
    pub open spec fn enabled(self, event: SyncedEvent) -> bool {
        match event {
            SyncedEvent::Release => self.released <= self.reported,
            SyncedEvent::Turn(i) => 0 <= i < self.acks.len() && self.acks[i] < self.released,
            SyncedEvent::Handle => self.handled < total(self.acks),
        }
    }

    /// Whether the acknowledgement that the dispatcher takes next completes a
    /// round.
    pub open spec fn completes_round(self) -> bool {
        self.handled + 1 == (self.reported + 1) * self.acks.len()
    }

    /// The state after `event`.
    pub open spec fn after(self, event: SyncedEvent) -> SyncedHost {
        match event {
            SyncedEvent::Release => SyncedHost { released: self.released + 1, ..self },
            SyncedEvent::Turn(i) => SyncedHost {
                acks: self.acks.update(i, self.acks[i] + 1),
                ..self
            },
            SyncedEvent::Handle => SyncedHost {
                handled: self.handled + 1,
                reported: if self.completes_round() {
                    self.reported + 1
                } else {
                    self.reported
                },
                ..self
            },
        }
    }

    /// What holds of every state that a host can come to: no island is ahead
    /// of the sync server, the dispatcher has reported one turn for each full
    /// round of acknowledgements that it has handled, and the sync server is
    /// at most one turn ahead of the reports.
    pub open spec fn consistent(self) -> bool {
        &&& self.acks.len() > 0
        &&& forall|i: int| 0 <= i < self.acks.len() ==> self.acks[i] <= self.released
        &&& self.handled <= total(self.acks)
        &&& self.reported * self.acks.len() <= self.handled
        &&& self.handled < (self.reported + 1) * self.acks.len()
        &&& self.released <= self.reported + 1
    }

    /// The state after the events `events`, in this order. An event that
    /// cannot happen changes nothing.
    pub open spec fn run(self, events: Seq<SyncedEvent>) -> SyncedHost
        decreases events.len(),
    {
        if events.len() == 0 {
            self
        } else {
            let before = self.run(events.drop_last());
            if before.enabled(events.last()) {
                before.after(events.last())
            } else {
                before
            }
        }
    }
}

proof fn lemma_total_update(counts: Seq<nat>, i: int, value: nat)
    requires
        0 <= i < counts.len(),
    ensures
        total(counts.update(i, value)) + counts[i] == total(counts) + value,
    decreases counts.len(),
{
    let updated = counts.update(i, value);
    if i == counts.len() - 1 {
        assert(updated.drop_last() =~= counts.drop_last());
    } else {
        lemma_total_update(counts.drop_last(), i, value);
        assert(updated.drop_last() =~= counts.drop_last().update(i, value));
    }
}

proof fn lemma_total_zero(n: nat)
    ensures
        total(Seq::new(n, |i: int| 0nat)) == 0,
    decreases n,
{
    if n > 0 {
        lemma_total_zero((n - 1) as nat);
        assert(Seq::new(n, |i: int| 0nat).drop_last() =~= Seq::new((n - 1) as nat, |i: int| 0nat));
    }
}

/// A host with at least one island starts consistent.
pub proof fn lemma_fresh_is_consistent(islands: nat)
    requires
        islands > 0,
    ensures
        SyncedHost::fresh(islands).consistent(),
{
    lemma_total_zero(islands);
    assert(0 * islands == 0 && (0 + 1) * islands == islands) by (nonlinear_arith);
}

/// A turn is reported to the sync server only after every island of the host
/// has run it. In a consistent state, whatever happens next leaves the state
/// consistent; and when the dispatcher reports turn `k`, every island has run
/// and acknowledged exactly `k` turns.
pub proof fn law_global_sync_ordering(host: SyncedHost, event: SyncedEvent)
    requires
        host.consistent(),
        host.enabled(event),
    ensures
        host.after(event).consistent(),
        host.after(event).reported == host.reported || host.after(event).reported
            == host.reported + 1,
        host.after(event).reported == host.reported + 1 ==> forall|i: int|
            0 <= i < host.acks.len() ==> host.acks[i] == host.reported + 1,
{
    let islands = host.acks.len();
    let next = host.after(event);
    match event {
        SyncedEvent::Release => {},
        SyncedEvent::Turn(i) => {
            lemma_total_update(host.acks, i, host.acks[i] + 1);
        },
        SyncedEvent::Handle => {
            if host.completes_round() {
                let k = host.reported + 1;
                assert((k + 1) * islands == k * islands + islands) by (nonlinear_arith);
                assert(total(host.acks) >= k * islands);
                lemma_all_at_bound(host.acks, k);
            }
        },
    }
}

/// The dispatcher of the host is the dispatcher of the routing rules: the
/// acknowledgement that completes a round here is the one for which the
/// rules report the turn done, `confirmations` being what the dispatcher has
/// counted since its last report.
pub proof fn lemma_round_matches_rules(host: SyncedHost, islands: u32, confirmations: u32)
    requires
        host.consistent(),
        host.acks.len() == islands,
        host.handled == host.reported * islands + confirmations,
    ensures
        confirmations < islands,
        host.completes_round() <==> completes_turn(islands, confirmations),
{
    assert((host.reported + 1) * islands == host.reported * islands + islands)
        by (nonlinear_arith);
}

/// Every state that a host comes to is consistent.
pub proof fn law_consistent_throughout(islands: nat, events: Seq<SyncedEvent>)
    requires
        islands > 0,
    ensures
        SyncedHost::fresh(islands).run(events).consistent(),
    decreases events.len(),
{
    if events.len() == 0 {
        lemma_fresh_is_consistent(islands);
    } else {
        law_consistent_throughout(islands, events.drop_last());
        let before = SyncedHost::fresh(islands).run(events.drop_last());
        if before.enabled(events.last()) {
            law_global_sync_ordering(before, events.last());
        }
    }
}

} // verus!
