use vstd::prelude::*;
use crate::address_book::AddressBook;
use crate::channel::hand_over;
use crate::dispatcher::DispatcherMessage;
use crate::message::Message;
use crate::seq_util::is_subsequence;
use crate::seq_util::lemma_subsequence_refl;

verus! {

/// What became of one message that reached the collector.
#[derive(Debug, PartialEq, Eq)]
pub enum Collected {
    /// It was handed to the islands it was meant for.
    Delivered,
    /// No island is left to take it; it is handed back so that it is not
    /// lost in silence.
    NoIslands(Message),
    /// The collector has no use for it; it is handed back.
    Unexpected(Message),
    /// The host asked the collector to stop. `islands_told` says whether an
    /// island was left to hear of it.
    Stopped { islands_told: bool },
    /// The end of the simulation came in from the network. `islands_told`
    /// says whether an island was left to hear of it, `dispatcher_told`
    /// whether the dispatcher took the notice.
    Finished { islands_told: bool, dispatcher_told: bool },
}

/// The single task of a host through which every message from the network
/// reaches its islands.
pub struct Collector {
    /// The islands of this host and the dispatcher.
    pub address_book: AddressBook,
    /// This host's own key.
    pub identity: String,
    /// Set once the end of the simulation was seen.
    pub finished: bool,
}

/// What the collector passes on when the end of the simulation comes in:
/// `FinSim` for every island of the host and, where the end came in from the
/// network, the notice of it for the dispatcher.
pub fn closing_messages() -> (passed_on: (Message, DispatcherMessage))
    ensures
        passed_on == (Message::FinSim, DispatcherMessage::Info(Message::FinSim)),
{
    (Message::FinSim, DispatcherMessage::Info(Message::FinSim))
}

/// Whether the collector passes `msg` on to its islands.
pub open spec fn is_for_islands(msg: Message) -> bool {
    msg is NextTurn || msg is Agent
}

impl Collector {
    /// The address book is aligned.
    pub open spec fn well_formed(&self) -> bool {
        self.address_book.well_formed()
    }

    /// `after` is `before` but for the islands that were evicted.
    pub open spec fn shrunk_from(after: Collector, before: Collector) -> bool {
        &&& after.well_formed()
        &&& after.identity == before.identity
        &&& after.address_book.dispatcher_tx == before.address_book.dispatcher_tx
        &&& is_subsequence(after.address_book@, before.address_book@)
    }

    /// A collector for the host known as `identity`, with the mailboxes of
    /// all of its islands in `address_book`.
    pub fn new(address_book: AddressBook, identity: String) -> (collector: Collector)
        requires
            address_book.well_formed(),
        ensures
            collector.well_formed(),
            collector.address_book == address_book,
            collector.identity == identity,
            !collector.finished,
    {
        Collector { address_book, identity, finished: false }
    }

    /// Handles a message of the collector's own mailbox, on which the host
    /// tells it to stop.
    pub fn on_control(&mut self, msg: Message) -> (outcome: Collected)
        requires
            old(self).well_formed(),
        ensures
            Self::shrunk_from(*final(self), *old(self)),
            if !old(self).finished && msg is FinSim {
                &&& final(self).finished
                &&& outcome == (Collected::Stopped {
                    islands_told: final(self).address_book@.len() > 0,
                })
            } else {
                &&& *final(self) == *old(self)
                &&& outcome == Collected::Unexpected(msg)
            },
    {
        proof {
            lemma_subsequence_refl(self.address_book@);
        }
        if self.finished {
            return Collected::Unexpected(msg);
        }
        match msg {
            Message::FinSim => {
                let (for_islands, _) = closing_messages();
                let islands_told = self.address_book.send_to_all_local(for_islands).is_ok();
                self.finished = true;
                Collected::Stopped { islands_told }
            },
            other => Collected::Unexpected(other),
        }
    }

    /// Handles a message that came in from the network.
    pub fn on_wire(&mut self, msg: Message) -> (outcome: Collected)
        requires
            old(self).well_formed(),
        ensures
            Self::shrunk_from(*final(self), *old(self)),
            if old(self).finished {
                *final(self) == *old(self) && outcome == Collected::Unexpected(msg)
            } else if is_for_islands(msg) {
                &&& !final(self).finished
                &&& if final(self).address_book@.len() > 0 {
                    outcome == Collected::Delivered
                } else {
                    outcome == Collected::NoIslands(msg)
                }
            } else if msg is FinSim {
                &&& final(self).finished
                &&& outcome matches Collected::Finished { islands_told, .. }
                &&& islands_told == (final(self).address_book@.len() > 0)
            } else {
                *final(self) == *old(self) && outcome == Collected::Unexpected(msg)
            },
    {
        proof {
            lemma_subsequence_refl(self.address_book@);
        }
        if self.finished {
            return Collected::Unexpected(msg);
        }
        match msg {
            Message::NextTurn(turn) => {
                match self.address_book.send_to_all_local(Message::NextTurn(turn)) {
                    Ok(()) => Collected::Delivered,
                    Err(e) => Collected::NoIslands(e.0),
                }
            },
            Message::Agent(payload) => {
                match self.address_book.send_to_rnd_local(Message::Agent(payload)) {
                    Ok(()) => Collected::Delivered,
                    Err(e) => Collected::NoIslands(e.0),
                }
            },
            Message::FinSim => {
                let (for_islands, notice) = closing_messages();
                let islands_told = self.address_book.send_to_all_local(for_islands).is_ok();
                let dispatcher_told = hand_over(&self.address_book.dispatcher_tx, notice).is_ok();
                self.finished = true;
                Collected::Finished { islands_told, dispatcher_told }
            },
            other => Collected::Unexpected(other),
        }
    }
}

} // verus!
