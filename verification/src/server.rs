use vstd::prelude::*;
use crate::message::Message;

verus! {

/// The clock of the sync server: it releases a turn, waits until every host
/// has reported the turn done, and releases the next; after the last turn it
/// announces the end.
#[derive(Clone, Copy, Debug)]
pub struct TurnClock {
    /// Number of hosts that the server drives.
    pub hosts: u32,
    /// Number of turns to release.
    pub turns: u32,
    /// Number of turns released so far; also the number of the turn in
    /// progress.
    pub turn: u32,
    /// Hosts that have reported the turn in progress done.
    pub confirmations: u32,
    /// Whether reports for the turn in progress are still missing.
    pub waiting: bool,
    /// Whether the end was announced.
    pub finished: bool,
}

impl TurnClock {
    /// The clock waits exactly while reports of the turn in progress are
    /// missing, and has announced the end only after the last turn.
    pub open spec fn well_formed(&self) -> bool {
        &&& self.turn <= self.turns
        &&& self.confirmations <= self.hosts
        &&& self.waiting <==> self.turn > 0 && self.confirmations < self.hosts
        &&& self.turn == 0 ==> self.confirmations == 0
        &&& self.finished ==> self.turn == self.turns && !self.waiting
    }

    /// Number of reports that the clock has counted since it was made.
    pub open spec fn reports(self) -> nat {
        if self.turn == 0 {
            0
        } else {
            ((self.turn - 1) * self.hosts + self.confirmations) as nat
        }
    }

    /// The clock before the first turn.
    pub open spec fn fresh(hosts: u32, turns: u32) -> TurnClock {
        TurnClock { hosts, turns, turn: 0, confirmations: 0, waiting: false, finished: false }
    }

    /// What the clock publishes next, if anything, and its state after that.
    pub open spec fn release(self) -> (TurnClock, Option<Message>) {
        if self.finished || self.waiting {
            (self, None)
        } else if self.turn < self.turns {
            (
                TurnClock {
                    turn: (self.turn + 1) as u32,
                    confirmations: 0,
                    waiting: self.hosts > 0,
                    ..self
                },
                Some(Message::NextTurn((self.turn + 1) as u32)),
            )
        } else {
            (TurnClock { finished: true, ..self }, Some(Message::FinSim))
        }
    }

    /// Whether the clock counts `msg` as the report of one more host.
    pub open spec fn counts(self, msg: Message) -> bool {
        self.waiting && msg is TurnDone
    }

    /// The state of the clock after a request, and its reply.
    pub open spec fn answer(self, msg: Message) -> (TurnClock, Message) {
        if self.counts(msg) {
            (
                TurnClock {
                    confirmations: (self.confirmations + 1) as u32,
                    waiting: self.confirmations + 1 < self.hosts,
                    ..self
                },
                Message::Okay,
            )
        } else {
            (self, Message::Error)
        }
    }

    /// A clock that drives `hosts` hosts through `turns` turns.
    pub fn new(hosts: u32, turns: u32) -> (clock: TurnClock)
        ensures
            clock == Self::fresh(hosts, turns),
            clock.well_formed(),
    {
        TurnClock { hosts, turns, turn: 0, confirmations: 0, waiting: false, finished: false }
    }

    /// Gives the next message to publish. To be called until it gives
    /// nothing: then the clock waits for reports, or has announced the end.
    pub fn publish_next(&mut self) -> (publication: Option<Message>)
        requires
            old(self).well_formed(),
        ensures
            final(self).well_formed(),
            (*final(self), publication) == old(self).release(),
    {
        if self.finished || self.waiting {
            None
        } else if self.turn < self.turns {
            self.turn = self.turn + 1;
            self.confirmations = 0;
            self.waiting = self.hosts > 0;
            Some(Message::NextTurn(self.turn))
        } else {
            self.finished = true;
            Some(Message::FinSim)
        }
    }

    /// Answers one request. While reports are missing, a `TurnDone` is
    /// counted and answered `Okay`; anything else is answered `Error` and
    /// changes nothing.
    pub fn on_request(&mut self, msg: &Message) -> (reply: Message)
        requires
            old(self).well_formed(),
        ensures
            final(self).well_formed(),
            (*final(self), reply) == old(self).answer(*msg),
    {
        if !self.waiting {
            return Message::Error;
        }
        match msg {
            Message::TurnDone => {
                self.confirmations = self.confirmations + 1;
                self.waiting = self.confirmations < self.hosts;
                Message::Okay
            },
            _ => Message::Error,
        }
    }
}

/// A turn is released only when every host has reported every turn before
/// it: the clock publishes `NextTurn(k + 1)`, or the end after the last turn,
/// only once it has counted `k` reports from each of its hosts.
pub proof fn law_release_after_reports(clock: TurnClock)
    requires
        clock.well_formed(),
        clock.release().1 is Some,
    ensures
        clock.reports() == clock.turn * clock.hosts,
        clock.release().1 == if clock.turn < clock.turns {
            Some(Message::NextTurn((clock.turn + 1) as u32))
        } else {
            Some(Message::FinSim)
        },
        clock.release().0.reports() == clock.reports(),
{
    if clock.turn > 0 {
        assert((clock.turn - 1) * clock.hosts + clock.hosts == clock.turn * clock.hosts)
            by (nonlinear_arith);
    } else {
        assert(clock.turn * clock.hosts == 0) by (nonlinear_arith)
            requires
                clock.turn == 0,
        ;
    }
}

/// A request adds one to the reports that the clock has counted exactly when
/// it is answered `Okay`, and that is when it is a `TurnDone` for a turn that
/// is still waited for.
pub proof fn law_report_counted(clock: TurnClock, msg: Message)
    requires
        clock.well_formed(),
    ensures
        clock.answer(msg).0.well_formed(),
        clock.answer(msg).1 == Message::Okay <==> clock.counts(msg),
        clock.answer(msg).0.reports() == clock.reports() + if clock.counts(msg) {
            1nat
        } else {
            0nat
        },
        clock.answer(msg).0.turn == clock.turn,
{
}

} // verus!
