use vstd::prelude::*;
use std::sync::mpsc::Sender;
use crate::channel::hand_over;
use crate::dispatcher::DispatcherMessage;
use crate::message::Message;

verus! {

/// Where an island stands in its life.
#[derive(Clone, Copy, Debug, PartialEq, Eq, Structural)]
pub enum IslandState {
    /// Made, not yet started.
    Init,
    /// Started; turns are being run.
    Running,
    /// No turn will follow; the island is being told so.
    Finished,
    /// Nothing is left to do.
    Terminal,
}

/// What the task that owns an island has to do next when the host counts the
/// turns itself.
#[derive(Clone, Copy, Debug, PartialEq, Eq, Structural)]
pub enum LocalStep {
    /// Call `on_start`.
    Start,
    /// Empty the mailbox and call `do_turn` with this number and what was in
    /// the mailbox.
    Turn(u32),
    /// Wait until every island of the host has run the turn.
    Sync,
    /// Call `on_finish`.
    Finish,
    /// Leave.
    Done,
}

/// The turn loop of an island on a host that counts the turns itself.
#[derive(Clone, Copy, Debug)]
pub struct LocalLoop {
    /// Number of turns to run.
    pub turns: u32,
    /// Whether the islands of the host wait for one another after each turn.
    pub islands_sync: bool,
    pub state: IslandState,
    /// Number of turns that have been asked for so far.
    pub turn: u32,
    /// Whether the wait after a turn is still due.
    pub at_barrier: bool,
}

/// The calls that an island has received.
pub struct Calls {
    pub starts: nat,
    pub turns: nat,
    pub finishes: nat,
}

impl Calls {
    /// No call at all.
    pub open spec fn none() -> Calls {
        Calls { starts: 0, turns: 0, finishes: 0 }
    }

    /// These calls and those of `other`.
    pub open spec fn plus(self, other: Calls) -> Calls {
        Calls {
            starts: self.starts + other.starts,
            turns: self.turns + other.turns,
            finishes: self.finishes + other.finishes,
        }
    }

    /// The calls that one step stands for.
    pub open spec fn of(step: LocalStep) -> Calls {
        match step {
            LocalStep::Start => Calls { starts: 1, turns: 0, finishes: 0 },
            LocalStep::Turn(_) => Calls { starts: 0, turns: 1, finishes: 0 },
            LocalStep::Finish => Calls { starts: 0, turns: 0, finishes: 1 },
            _ => Calls::none(),
        }
    }
}

impl LocalLoop {
    /// No more turns were asked for than are to be run, and a wait is due
    /// only between two turns of islands that wait for one another.
    pub open spec fn well_formed(&self) -> bool {
        &&& self.turn <= self.turns
        &&& self.at_barrier ==> self.state == IslandState::Running && self.islands_sync
    }

    /// The loop of an island that has just been made.
    pub open spec fn fresh(turns: u32, islands_sync: bool) -> LocalLoop {
        LocalLoop { turns, islands_sync, state: IslandState::Init, turn: 0, at_barrier: false }
    }

    /// One step of the loop: the state that follows and what is to be done.
    pub open spec fn advance(self) -> (LocalLoop, LocalStep) {
        match self.state {
            IslandState::Init => (
                LocalLoop { state: IslandState::Running, ..self },
                LocalStep::Start,
            ),
            IslandState::Running => if self.at_barrier {
                (LocalLoop { at_barrier: false, ..self }, LocalStep::Sync)
            } else if self.turn < self.turns {
                (
                    LocalLoop {
                        turn: (self.turn + 1) as u32,
                        at_barrier: self.islands_sync,
                        ..self
                    },
                    LocalStep::Turn(self.turn),
                )
            } else {
                (LocalLoop { state: IslandState::Finished, ..self }, LocalStep::Finish)
            },
            IslandState::Finished => (
                LocalLoop { state: IslandState::Terminal, ..self },
                LocalStep::Done,
            ),
            IslandState::Terminal => (self, LocalStep::Done),
        }
    }

    /// The state after `n` steps, and the calls that these steps stand for.
    pub open spec fn run(self, n: nat) -> (LocalLoop, Calls)
        decreases n,
    {
        if n == 0 {
            (self, Calls::none())
        } else {
            let (next, step) = self.advance();
            let (end, calls) = next.run((n - 1) as nat);
            (end, Calls::of(step).plus(calls))
        }
    }

    /// Number of steps from the making of an island to its last call.
    pub open spec fn schedule_len(turns: u32, islands_sync: bool) -> nat {
        if islands_sync {
            (2 + 2 * turns) as nat
        } else {
            (2 + turns) as nat
        }
    }

    /// The loop of an island that is to run `turns` turns.
    pub fn new(turns: u32, islands_sync: bool) -> (r: LocalLoop)
        ensures
            r == Self::fresh(turns, islands_sync),
            r.well_formed(),
    {
        LocalLoop { turns, islands_sync, state: IslandState::Init, turn: 0, at_barrier: false }
    }

    /// Says what is to be done next, and moves on.
    pub fn next(&mut self) -> (step: LocalStep)
        requires
            old(self).well_formed(),
        ensures
            final(self).well_formed(),
            (*final(self), step) == old(self).advance(),
    {
        match self.state {
            IslandState::Init => {
                self.state = IslandState::Running;
                LocalStep::Start
            },
            IslandState::Running => {
                if self.at_barrier {
                    self.at_barrier = false;
                    LocalStep::Sync
                } else if self.turn < self.turns {
                    let number = self.turn;
                    self.turn = self.turn + 1;
                    self.at_barrier = self.islands_sync;
                    LocalStep::Turn(number)
                } else {
                    self.state = IslandState::Finished;
                    LocalStep::Finish
                }
            },
            IslandState::Finished => {
                self.state = IslandState::Terminal;
                LocalStep::Done
            },
            IslandState::Terminal => LocalStep::Done,
        }
    }
}

/// Running `a` steps and then `b` more is running `a + b` steps.
pub proof fn lemma_run_split(s: LocalLoop, a: nat, b: nat)
    ensures
        s.run(a + b).0 == s.run(a).0.run(b).0,
        s.run(a + b).1 == s.run(a).1.plus(s.run(a).0.run(b).1),
    decreases a,
{
    if a == 0 {
    } else {
        let (next, step) = s.advance();
        lemma_run_split(next, (a - 1) as nat, b);
        assert((a + b - 1) as nat == (a - 1) as nat + b);
    }
}

/// From a running island with `k` turns to go, the loop asks for exactly
/// these `k` turns, then for the last call.
proof fn lemma_remaining_turns(s: LocalLoop, k: nat)
    requires
        s.well_formed(),
        s.state == IslandState::Running,
        !s.at_barrier,
        s.turn + k == s.turns,
    ensures
        ({
            let steps = if s.islands_sync {
                2 * k + 1
            } else {
                k + 1
            };
            let (end, calls) = s.run(steps as nat);
            &&& end.state == IslandState::Finished
            &&& end.turn == s.turns
            &&& calls == Calls { starts: 0, turns: k, finishes: 1 }
        }),
    decreases k,
{
    reveal_with_fuel(LocalLoop::run, 3);
    if k == 0 {
    } else {
        let (turned, _) = s.advance();
        if s.islands_sync {
            let (synced, _) = turned.advance();
            lemma_remaining_turns(synced, (k - 1) as nat);
            lemma_run_split(s, 2, (2 * (k - 1) + 1) as nat);
        } else {
            lemma_remaining_turns(turned, (k - 1) as nat);
            lemma_run_split(s, 1, k);
        }
    }
}

/// An island is started once, runs as many turns as were configured, and is
/// finished once; after that nothing more is asked of it.
pub proof fn law_turn_count(turns: u32, islands_sync: bool)
    ensures
        ({
            let fresh = LocalLoop::fresh(turns, islands_sync);
            let (end, calls) = fresh.run(LocalLoop::schedule_len(turns, islands_sync));
            &&& end.state == IslandState::Finished
            &&& calls == Calls { starts: 1, turns: turns as nat, finishes: 1 }
            &&& forall|more: nat| (#[trigger] end.run(more)).1 == Calls::none()
        }),
{
    let fresh = LocalLoop::fresh(turns, islands_sync);
    let (started, _) = fresh.advance();
    lemma_remaining_turns(started, turns as nat);
    reveal_with_fuel(LocalLoop::run, 2);
    lemma_run_split(fresh, 1, (LocalLoop::schedule_len(turns, islands_sync) - 1) as nat);
    let (end, _) = fresh.run(LocalLoop::schedule_len(turns, islands_sync));
    assert forall|more: nat| (#[trigger] end.run(more)).1 == Calls::none() by {
        lemma_nothing_after_finish(end, more);
    }
}

/// Once the last call is made, no step stands for a call.
proof fn lemma_nothing_after_finish(s: LocalLoop, n: nat)
    requires
        s.state == IslandState::Finished || s.state == IslandState::Terminal,
    ensures
        s.run(n).1 == Calls::none(),
    decreases n,
{
    if n > 0 {
        let (next, _) = s.advance();
        lemma_nothing_after_finish(next, (n - 1) as nat);
    }
}

/// What an island on a host that follows the sync server is in the middle
/// of.
#[derive(Clone, Copy, Debug, PartialEq, Eq, Structural)]
pub enum SyncedState {
    /// Made, not yet started.
    Init,
    /// Started and waiting for the sync server to release a turn.
    Waiting,
    /// Running the turn of this number; its end is not yet acknowledged.
    InTurn(u32),
    /// The end of the simulation was seen.
    Finished,
    /// Nothing is left to do.
    Terminal,
}

/// What a message from the mailbox sets free.
#[derive(Debug, PartialEq, Eq)]
pub enum Released {
    /// The message was put aside for the next turn.
    Nothing,
    /// A turn: call `do_turn` with this number and these messages.
    Turn(u32, Vec<Message>),
    /// The end: no turn follows. The messages that waited for one are handed
    /// over so that they are not lost in silence.
    Finish(Vec<Message>),
}

/// The turn loop of an island on a host that follows the sync server.
pub struct SyncedLoop {
    pub state: SyncedState,
    /// Messages that wait for the next turn, oldest first.
    pub batch: Vec<Message>,
}

impl SyncedLoop {
    /// The loop of an island that has just been made.
    pub fn new() -> (r: SyncedLoop)
        ensures
            r.state == SyncedState::Init,
            r.batch@.len() == 0,
    {
        SyncedLoop { state: SyncedState::Init, batch: Vec::new() }
    }

    /// Records that `on_start` was called.
    pub fn start(&mut self)
        requires
            old(self).state == SyncedState::Init,
        ensures
            final(self).state == SyncedState::Waiting,
            final(self).batch == old(self).batch,
    {
        self.state = SyncedState::Waiting;
    }

    /// Takes one message from the mailbox. A `NextTurn` releases the turn
    /// with all that was put aside; a `FinSim` ends the loop; anything else
    /// is put aside.
    pub fn on_message(&mut self, msg: Message) -> (released: Released)
        requires
            old(self).state == SyncedState::Waiting,
        ensures
            match msg {
                Message::NextTurn(number) => {
                    &&& final(self).state == SyncedState::InTurn(number)
                    &&& final(self).batch@.len() == 0
                    &&& released == Released::Turn(number, old(self).batch)
                },
                Message::FinSim => {
                    &&& final(self).state == SyncedState::Finished
                    &&& final(self).batch@.len() == 0
                    &&& released == Released::Finish(old(self).batch)
                },
                _ => {
                    &&& final(self).state == SyncedState::Waiting
                    &&& final(self).batch@ == old(self).batch@.push(msg)
                    &&& released == Released::Nothing
                },
            },
    {
        match msg {
            Message::NextTurn(number) => {
                let mut batch: Vec<Message> = Vec::new();
                std::mem::swap(&mut batch, &mut self.batch);
                self.state = SyncedState::InTurn(number);
                Released::Turn(number, batch)
            },
            Message::FinSim => {
                let mut batch: Vec<Message> = Vec::new();
                std::mem::swap(&mut batch, &mut self.batch);
                self.state = SyncedState::Finished;
                Released::Finish(batch)
            },
            other => {
                self.batch.push(other);
                Released::Nothing
            },
        }
    }

    /// Tells the dispatcher that the turn in progress is done, and goes back
    /// to waiting. To be called once `do_turn` has returned, and after the
    /// wait for the other islands where there is one. Says whether the
    /// dispatcher took the notice.
    pub fn turn_done(&mut self, dispatcher_tx: &Sender<DispatcherMessage>) -> (told: bool)
        requires
            old(self).state is InTurn,
        ensures
            final(self).state == SyncedState::Waiting,
            final(self).batch == old(self).batch,
    {
        let told = hand_over(dispatcher_tx, turn_done_notice()).is_ok();
        self.state = SyncedState::Waiting;
        told
    }

    /// Takes note that the mailbox is closed: every sender is gone, so no
    /// signal can come any more. The loop ends as it does on `FinSim`.
    pub fn on_closed(&mut self) -> (released: Released)
        requires
            old(self).state == SyncedState::Waiting,
        ensures
            final(self).state == SyncedState::Finished,
            final(self).batch@.len() == 0,
            released == Released::Finish(old(self).batch),
    {
        self.on_message(Message::FinSim)
    }

    /// Records that `on_finish` was called.
    pub fn finish(&mut self)
        requires
            old(self).state == SyncedState::Finished,
        ensures
            final(self).state == SyncedState::Terminal,
            final(self).batch == old(self).batch,
    {
        self.state = SyncedState::Terminal;
    }
}

/// The notice by which an island tells the dispatcher that it has run the
/// turn in progress.
pub fn turn_done_notice() -> (notice: DispatcherMessage)
    ensures
        notice == DispatcherMessage::Info(Message::TurnDone),
{
    DispatcherMessage::Info(Message::TurnDone)
}

/// Whether a message is for the island itself, and not a signal for its
/// turn loop.
pub open spec fn is_payload(msg: Message) -> bool {
    !(msg is NextTurn) && !(msg is FinSim)
}

/// What a turn loop has made of the messages of a mailbox.
pub struct Intake {
    /// Messages that were handed over, with a turn or at the end, oldest
    /// first.
    pub handed: Seq<Message>,
    /// Messages that wait for the next turn, oldest first.
    pub batch: Seq<Message>,
    /// Whether the end of the simulation was seen.
    pub finished: bool,
}

/// What a turn loop makes of one more message, by the rules of
/// [`SyncedLoop::on_message`]: a signal hands over what has waited, anything
/// else waits. After the end nothing is taken in.
pub open spec fn take_in(before: Intake, msg: Message) -> Intake {
    if before.finished {
        before
    } else if msg is NextTurn {
        Intake { handed: before.handed + before.batch, batch: Seq::empty(), finished: false }
    } else if msg is FinSim {
        Intake { handed: before.handed + before.batch, batch: Seq::empty(), finished: true }
    } else {
        Intake { batch: before.batch.push(msg), ..before }
    }
}

/// What a turn loop that starts with nothing makes of the messages `msgs`,
/// in this order.
pub open spec fn intake(msgs: Seq<Message>) -> Intake
    decreases msgs.len(),
{
    if msgs.len() == 0 {
        Intake { handed: Seq::empty(), batch: Seq::empty(), finished: false }
    } else {
        take_in(intake(msgs.drop_last()), msgs.last())
    }
}

/// The messages for the island among `msgs`, up to the end of the
/// simulation, in the same order.
pub open spec fn payloads(msgs: Seq<Message>) -> Seq<Message>
    decreases msgs.len(),
{
    if msgs.len() == 0 {
        Seq::empty()
    } else if intake(msgs.drop_last()).finished || !is_payload(msgs.last()) {
        payloads(msgs.drop_last())
    } else {
        payloads(msgs.drop_last()).push(msgs.last())
    }
}

/// Nothing that reaches a mailbox before the end is lost or reordered: what
/// has been handed to the island, followed by what still waits, is what came
/// in for the island, one for one. At the end nothing waits.
pub proof fn law_nothing_lost(msgs: Seq<Message>)
    ensures
        intake(msgs).handed + intake(msgs).batch == payloads(msgs),
        intake(msgs).finished ==> intake(msgs).batch.len() == 0,
    decreases msgs.len(),
{
    if msgs.len() == 0 {
        assert(intake(msgs).handed + intake(msgs).batch =~= payloads(msgs));
    } else {
        law_nothing_lost(msgs.drop_last());
        let before = intake(msgs.drop_last());
        let after = intake(msgs);
        if before.finished {
        } else if is_payload(msgs.last()) {
            assert(after.handed + after.batch =~= (before.handed + before.batch).push(
                msgs.last(),
            ));
        } else {
            assert(after.handed + after.batch =~= before.handed + before.batch);
        }
    }
}

} // verus!
