use vstd::prelude::*;
use crate::message::Message;
use crate::message::Ip;
use crate::message::Port;
use crate::chance::random_index;
use crate::text::address_key;
use crate::text::key_text;
use crate::text::BROADCAST_KEY;
use vstd::string::StringExecFns;

verus! {

/// Address of a host: where its publisher listens.
pub type Addr = (Ip, Port);

/// What an island or the collector asks the dispatcher to do with a message.
#[derive(Debug, PartialEq, Eq)]
pub enum DispatcherMessage {
    /// Send to one host of the membership table, picked at random.
    UnicastRandom(Message),
    /// Send to the host at the given address.
    Unicast(Message, Addr),
    /// Send to every host.
    Broadcast(Message),
    /// A notice for the dispatcher itself.
    Info(Message),
}

impl DispatcherMessage {
    /// The message inside the envelope.
    pub open spec fn payload(self) -> Message {
        match self {
            DispatcherMessage::UnicastRandom(msg) => msg,
            DispatcherMessage::Unicast(msg, _) => msg,
            DispatcherMessage::Broadcast(msg) => msg,
            DispatcherMessage::Info(msg) => msg,
        }
    }

    /// Opens the envelope.
    pub fn into(self) -> (msg: Message)
        ensures
            msg == self.payload(),
    {
        match self {
            DispatcherMessage::UnicastRandom(msg) => msg,
            DispatcherMessage::Unicast(msg, _addr) => msg,
            DispatcherMessage::Broadcast(msg) => msg,
            DispatcherMessage::Info(msg) => msg,
        }
    }
}

/// What the owner of the sockets has to do after the dispatcher has looked at
/// one command.
#[derive(Debug, PartialEq, Eq)]
pub enum Dispatch {
    /// Publish the record `topic`, `from`, `msg` on the publisher socket.
    Publish { topic: String, from: String, msg: Message },
    /// Send the record `from`, `msg` to the sync server and wait for its reply.
    Request { from: String, msg: Message },
    /// An island's acknowledgement was counted; nothing goes out yet.
    Counted,
    /// The command leads nowhere; it is handed back so that it is not lost
    /// in silence.
    Undelivered(DispatcherMessage),
    /// The simulation is over: stop.
    Finish,
}

/// The single task of a host through which every message leaves it.
pub struct Dispatcher {
    /// This host's own key, `ip:port`, sent along as the sender's identity.
    pub identity: String,
    /// The other hosts of the cluster.
    pub ip_table: Vec<Addr>,
    /// Number of islands on this host.
    pub islands: u32,
    /// Islands that have acknowledged the current turn.
    pub confirmations: u32,
    /// Set once the end of the simulation was announced.
    pub finished: bool,
}

/// Whether `cmd` is an island's acknowledgement of a turn.
pub open spec fn is_turn_ack(cmd: DispatcherMessage) -> bool {
    cmd matches DispatcherMessage::Info(Message::TurnDone)
}

/// Whether `cmd` announces the end of the simulation.
pub open spec fn is_fin(cmd: DispatcherMessage) -> bool {
    cmd matches DispatcherMessage::Info(Message::FinSim)
}

/// Whether an acknowledgement that arrives when `confirmations` islands have
/// acknowledged already completes the turn for a host of `islands` islands.
pub open spec fn completes_turn(islands: u32, confirmations: u32) -> bool {
    islands > 0 && confirmations + 1 == islands
}

/// `action` publishes `msg` under the key of the host at `addr`, in the name
/// of `identity`.
pub open spec fn publishes_to(action: Dispatch, identity: String, addr: Addr, msg: Message) -> bool {
    match action {
        Dispatch::Publish { topic, from, msg: m } => {
            &&& topic@ == key_text(addr.0@, addr.1)
            &&& from == identity
            &&& m == msg
        },
        _ => false,
    }
}

/// `action` publishes `msg` to every host, in the name of `identity`.
pub open spec fn publishes_to_all(action: Dispatch, identity: String, msg: Message) -> bool {
    match action {
        Dispatch::Publish { topic, from, msg: m } => {
            &&& topic@ == BROADCAST_KEY@
            &&& from == identity
            &&& m == msg
        },
        _ => false,
    }
}

/// `action` sends `msg` to the sync server, in the name of `identity`.
pub open spec fn requests(action: Dispatch, identity: String, msg: Message) -> bool {
    match action {
        Dispatch::Request { from, msg: m } => from == identity && m == msg,
        _ => false,
    }
}

/// The routing rules. A dispatcher in state `before` that looks at `cmd`,
/// with `pick` as the number it drew, ends in state `after` and asks for
/// `action`.
pub open spec fn routed(
    before: Dispatcher,
    cmd: DispatcherMessage,
    pick: int,
    after: Dispatcher,
    action: Dispatch,
) -> bool {
    &&& after.identity == before.identity
    &&& after.ip_table == before.ip_table
    &&& after.islands == before.islands
    &&& if before.finished {
        after.finished && after.confirmations == before.confirmations && action
            == Dispatch::Undelivered(cmd)
    } else {
        match cmd {
            DispatcherMessage::UnicastRandom(msg) => {
                &&& !after.finished
                &&& after.confirmations == before.confirmations
                &&& if 0 <= pick < before.ip_table@.len() {
                    publishes_to(action, before.identity, before.ip_table@[pick], msg)
                } else {
                    action == Dispatch::Undelivered(cmd)
                }
            },
            DispatcherMessage::Unicast(msg, addr) => {
                &&& !after.finished
                &&& after.confirmations == before.confirmations
                &&& publishes_to(action, before.identity, addr, msg)
            },
            DispatcherMessage::Broadcast(msg) => {
                &&& !after.finished
                &&& after.confirmations == before.confirmations
                &&& publishes_to_all(action, before.identity, msg)
            },
            DispatcherMessage::Info(Message::HostReady) => {
                &&& !after.finished
                &&& after.confirmations == before.confirmations
                &&& requests(action, before.identity, Message::HostReady)
            },
            DispatcherMessage::Info(Message::TurnDone) => {
                &&& !after.finished
                &&& if completes_turn(before.islands, before.confirmations) {
                    after.confirmations == 0 && requests(
                        action,
                        before.identity,
                        Message::TurnDone,
                    )
                } else if before.islands == 0 {
                    after.confirmations == before.confirmations && action == Dispatch::Counted
                } else {
                    after.confirmations == before.confirmations + 1 && action
                        == Dispatch::Counted
                }
            },
            DispatcherMessage::Info(Message::FinSim) => {
                &&& after.finished
                &&& after.confirmations == before.confirmations
                &&& action == Dispatch::Finish
            },
            DispatcherMessage::Info(_) => {
                &&& !after.finished
                &&& after.confirmations == before.confirmations
                &&& action == Dispatch::Undelivered(cmd)
            },
        }
    }
}

impl Dispatcher {
    /// Fewer islands have acknowledged than there are.
    pub open spec fn well_formed(&self) -> bool {
        self.islands > 0 ==> self.confirmations < self.islands
    }

    /// A dispatcher for a host of `islands` islands that is known to the
    /// others as `identity` and knows them as `ip_table`.
    pub fn new(identity: String, ip_table: Vec<Addr>, islands: u32) -> (dispatcher: Dispatcher)
        ensures
            dispatcher.well_formed(),
            dispatcher.identity == identity,
            dispatcher.ip_table == ip_table,
            dispatcher.islands == islands,
            dispatcher.confirmations == 0,
            !dispatcher.finished,
    {
        Dispatcher { identity, ip_table, islands, confirmations: 0, finished: false }
    }

    /// Applies the routing rules to `cmd`, with `pick` as the number drawn
    /// for a random unicast.
    pub fn route(&mut self, cmd: DispatcherMessage, pick: usize) -> (action: Dispatch)
        requires
            old(self).well_formed(),
        ensures
            final(self).well_formed(),
            routed(*old(self), cmd, pick as int, *final(self), action),
    {
        if self.finished {
            return Dispatch::Undelivered(cmd);
        }
        match cmd {
            DispatcherMessage::UnicastRandom(msg) => {
                if pick < self.ip_table.len() {
                    let topic = address_key(
                        self.ip_table[pick].0.as_str(),
                        self.ip_table[pick].1,
                    );
                    Dispatch::Publish { topic, from: self.identity.clone(), msg }
                } else {
                    Dispatch::Undelivered(DispatcherMessage::UnicastRandom(msg))
                }
            },
            DispatcherMessage::Unicast(msg, addr) => {
                let topic = address_key(addr.0.as_str(), addr.1);
                Dispatch::Publish { topic, from: self.identity.clone(), msg }
            },
            DispatcherMessage::Broadcast(msg) => {
                let topic = String::from_str(BROADCAST_KEY);
                Dispatch::Publish { topic, from: self.identity.clone(), msg }
            },
            DispatcherMessage::Info(Message::HostReady) => {
                Dispatch::Request { from: self.identity.clone(), msg: Message::HostReady }
            },
            DispatcherMessage::Info(Message::TurnDone) => {
                if self.islands == 0 {
                    Dispatch::Counted
                } else if self.confirmations + 1 == self.islands {
                    self.confirmations = 0;
                    Dispatch::Request { from: self.identity.clone(), msg: Message::TurnDone }
                } else {
                    self.confirmations = self.confirmations + 1;
                    Dispatch::Counted
                }
            },
            DispatcherMessage::Info(Message::FinSim) => {
                self.finished = true;
                Dispatch::Finish
            },
            DispatcherMessage::Info(other) => {
                Dispatch::Undelivered(DispatcherMessage::Info(other))
            },
        }
    }

    /// Looks at one command of the queue: draws a host where the command asks
    /// for a random one, and applies the routing rules.
    pub fn handle(&mut self, cmd: DispatcherMessage) -> (action: Dispatch)
        requires
            old(self).well_formed(),
        ensures
            final(self).well_formed(),
            exists|pick: int|
                {
                    &&& 0 <= pick
                    &&& old(self).ip_table@.len() > 0 ==> pick < old(self).ip_table@.len()
                    &&& #[trigger] routed(*old(self), cmd, pick, *final(self), action)
                },
    {
        let pick = if self.ip_table.len() > 0 {
            random_index(self.ip_table.len())
        } else {
            0
        };
        self.route(cmd, pick)
    }
}

/// What a dispatcher has come to after a run of commands: how many islands
/// have acknowledged the turn in progress, how many times it has told the
/// sync server that a turn is done, and whether it has stopped.
pub struct Tally {
    pub confirmations: u32,
    pub emitted: nat,
    pub finished: bool,
}

/// The tally of a dispatcher after one more command.
pub open spec fn tally_step(islands: u32, prev: Tally, cmd: DispatcherMessage) -> Tally {
    if prev.finished {
        prev
    } else if is_fin(cmd) {
        Tally { finished: true, ..prev }
    } else if is_turn_ack(cmd) {
        if completes_turn(islands, prev.confirmations) {
            Tally { confirmations: 0, emitted: prev.emitted + 1, finished: false }
        } else if islands == 0 {
            prev
        } else {
            Tally { confirmations: (prev.confirmations + 1) as u32, ..prev }
        }
    } else {
        prev
    }
}

/// The tally of a fresh dispatcher of a host of `islands` islands after the
/// commands `cmds`, in this order.
pub open spec fn tally(islands: u32, cmds: Seq<DispatcherMessage>) -> Tally
    decreases cmds.len(),
{
    if cmds.len() == 0 {
        Tally { confirmations: 0, emitted: 0, finished: false }
    } else {
        tally_step(islands, tally(islands, cmds.drop_last()), cmds.last())
    }
}

/// Number of acknowledgements among `cmds` that reach the dispatcher before
/// it stops.
pub open spec fn acks_counted(cmds: Seq<DispatcherMessage>) -> nat
    decreases cmds.len(),
{
    if cmds.len() == 0 {
        0
    } else if acks_stopped(cmds.drop_last()) || !is_turn_ack(cmds.last()) {
        acks_counted(cmds.drop_last())
    } else {
        acks_counted(cmds.drop_last()) + 1
    }
}

/// Whether the end of the simulation is announced among `cmds`.
pub open spec fn acks_stopped(cmds: Seq<DispatcherMessage>) -> bool
    decreases cmds.len(),
{
    cmds.len() > 0 && (acks_stopped(cmds.drop_last()) || is_fin(cmds.last()))
}

/// Sum of the numbers in `counts`.
pub open spec fn total(counts: Seq<nat>) -> nat
    decreases counts.len(),
{
    if counts.len() == 0 {
        0
    } else {
        total(counts.drop_last()) + counts.last()
    }
}

/// The routing rules move a dispatcher as `tally_step` says, and a turn is
/// reported to the sync server exactly when the tally counts one more report.
pub proof fn law_route_follows_tally(
    before: Dispatcher,
    cmd: DispatcherMessage,
    pick: int,
    after: Dispatcher,
    action: Dispatch,
    prev: Tally,
)
    requires
        before.well_formed(),
        routed(before, cmd, pick, after, action),
        prev.confirmations == before.confirmations,
        prev.finished == before.finished,
    ensures
        tally_step(before.islands, prev, cmd).confirmations == after.confirmations,
        tally_step(before.islands, prev, cmd).finished == after.finished,
        tally_step(before.islands, prev, cmd).emitted == prev.emitted + 1 <==> requests(
            action,
            before.identity,
            Message::TurnDone,
        ),
        tally_step(before.islands, prev, cmd).emitted == prev.emitted || tally_step(
            before.islands,
            prev,
            cmd,
        ).emitted == prev.emitted + 1,
{
}

/// A host reports a turn once for every `islands` acknowledgements: after any
/// run of commands, the reports made, times the number of islands, plus the
/// acknowledgements still waiting, are the acknowledgements received.
pub proof fn law_one_report_per_round(islands: u32, cmds: Seq<DispatcherMessage>)
    requires
        islands > 0,
    ensures
        tally(islands, cmds).confirmations < islands,
        tally(islands, cmds).finished == acks_stopped(cmds),
        tally(islands, cmds).emitted * islands + tally(islands, cmds).confirmations
            == acks_counted(cmds),
    decreases cmds.len(),
{
    if cmds.len() > 0 {
        law_one_report_per_round(islands, cmds.drop_last());
        let prev = tally(islands, cmds.drop_last());
        assert((prev.emitted + 1) * islands == prev.emitted * islands + islands)
            by (nonlinear_arith);
    }
}

/// If no number in `counts` is above `k` and their sum is at least `k` for
/// each, every one of them is `k`.
pub proof fn lemma_all_at_bound(counts: Seq<nat>, k: nat)
    requires
        forall|i: int| 0 <= i < counts.len() ==> counts[i] <= k,
        total(counts) >= k * counts.len(),
    ensures
        total(counts) == k * counts.len(),
        forall|i: int| 0 <= i < counts.len() ==> counts[i] == k,
    decreases counts.len(),
{
    if counts.len() > 0 {
        let head = counts.drop_last();
        lemma_total_bounded(head, k);
        assert(k * counts.len() == k * head.len() + k) by (nonlinear_arith)
            requires
                counts.len() == head.len() + 1,
        ;
        lemma_all_at_bound(head, k);
        assert forall|i: int| 0 <= i < counts.len() implies counts[i] == k by {
            if i < head.len() {
                assert(head[i] == counts[i]);
            }
        }
    } else {
        assert(k * counts.len() == 0) by (nonlinear_arith)
            requires
                counts.len() == 0,
        ;
    }
}

/// A sum of numbers that are at most `k` is at most `k` for each.
pub proof fn lemma_total_bounded(counts: Seq<nat>, k: nat)
    requires
        forall|i: int| 0 <= i < counts.len() ==> counts[i] <= k,
    ensures
        total(counts) <= k * counts.len(),
    decreases counts.len(),
{
    if counts.len() > 0 {
        let head = counts.drop_last();
        lemma_total_bounded(head, k);
        assert(k * counts.len() == k * head.len() + k) by (nonlinear_arith)
            requires
                counts.len() == head.len() + 1,
        ;
    } else {
        assert(k * counts.len() == 0) by (nonlinear_arith)
            requires
                counts.len() == 0,
        ;
    }
}

/// The `k`-th report of a turn leaves a host only after every island of the
/// host has acknowledged its `k`-th turn. `acks[i]` is the number of
/// acknowledgements that island `i` has sent; no island is ahead of turn `k`,
/// since turn `k + 1` is released only after the `k`-th report.
pub proof fn law_report_after_every_island(
    islands: u32,
    cmds: Seq<DispatcherMessage>,
    acks: Seq<nat>,
    k: nat,
)
    requires
        islands > 0,
        acks.len() == islands,
        total(acks) == acks_counted(cmds),
        forall|i: int| 0 <= i < acks.len() ==> acks[i] <= k,
        tally(islands, cmds).emitted >= k,
    ensures
        tally(islands, cmds).emitted == k,
        tally(islands, cmds).confirmations == 0,
        forall|i: int| 0 <= i < acks.len() ==> acks[i] == k,
{
    law_one_report_per_round(islands, cmds);
    lemma_total_bounded(acks, k);
    let emitted = tally(islands, cmds).emitted;
    assert(emitted * islands >= k * islands) by (nonlinear_arith)
        requires
            emitted >= k,
            islands > 0,
    ;
    lemma_all_at_bound(acks, k);
    assert(emitted == k) by (nonlinear_arith)
        requires
            emitted * islands <= k * islands,
            emitted >= k,
            islands > 0,
    ;
}

} // verus!
