use vstd::prelude::*;
use std::time::Instant;
use crate::address_book::AddressBook;
use crate::address_book::SendError;
use crate::dispatcher::Addr;
use crate::ids::IslandId;
use crate::message::Message;
use crate::seq_util::is_subsequence;

verus! {

/// A point in time, as the clock of the machine gives it. Nothing of it is
/// visible to proofs.
#[verifier::external_type_specification]
#[verifier::external_body]
pub struct ExInstant(Instant);

/// What the runtime hands to an island: the ways to reach the other islands
/// and the time at which the island was set up.
pub struct IslandEnv {
    pub address_book: AddressBook,
    pub start_time: Instant,
}

impl IslandEnv {
    /// The address book is aligned.
    pub open spec fn well_formed(&self) -> bool {
        self.address_book.well_formed()
    }

    /// The environment of an island that reaches its peers through
    /// `address_book` and was set up at `start_time`.
    pub fn new(address_book: AddressBook, start_time: Instant) -> (env: IslandEnv)
        requires
            address_book.well_formed(),
        ensures
            env.well_formed(),
            env.address_book == address_book,
            env.start_time == start_time,
    {
        IslandEnv { address_book, start_time }
    }

    /// See [`AddressBook::send_to_rnd_local`].
    pub fn send_to_rnd_local(&mut self, msg: Message) -> (r: Result<(), SendError<Message>>)
        requires
            old(self).well_formed(),
        ensures
            final(self).well_formed(),
            final(self).start_time == old(self).start_time,
            final(self).address_book.dispatcher_tx == old(self).address_book.dispatcher_tx,
            is_subsequence(final(self).address_book@, old(self).address_book@),
            r is Err <==> final(self).address_book@.len() == 0,
            r matches Err(e) ==> e.0 == msg,
    {
        self.address_book.send_to_rnd_local(msg)
    }

    /// See [`AddressBook::send_to_all_local`].
    pub fn send_to_all_local(&mut self, msg: Message) -> (r: Result<(), SendError<Message>>)
        requires
            old(self).well_formed(),
        ensures
            final(self).well_formed(),
            final(self).start_time == old(self).start_time,
            final(self).address_book.dispatcher_tx == old(self).address_book.dispatcher_tx,
            is_subsequence(final(self).address_book@, old(self).address_book@),
            r is Ok <==> final(self).address_book@.len() > 0,
            r matches Err(e) ==> e.0 == msg,
    {
        self.address_book.send_to_all_local(msg)
    }

    /// See [`AddressBook::send_to_local`].
    pub fn send_to_local(&mut self, island_id: IslandId, msg: Message) -> (r: Result<
        (),
        SendError<Message>,
    >)
        requires
            old(self).well_formed(),
        ensures
            *final(self) == *old(self),
            !old(self).address_book.islands@.contains(island_id) ==> r is Err,
            r matches Err(e) ==> e.0 == msg,
    {
        self.address_book.send_to_local(island_id, msg)
    }

    /// See [`AddressBook::send_to_rnd_global`].
    pub fn send_to_rnd_global(&mut self, msg: Message) -> (r: Result<(), SendError<Message>>)
        ensures
            *final(self) == *old(self),
            r matches Err(e) ==> e.0 == msg,
    {
        self.address_book.send_to_rnd_global(msg)
    }

    /// See [`AddressBook::send_to_all_global`].
    pub fn send_to_all_global(&mut self, msg: Message) -> (r: Result<(), SendError<Message>>)
        ensures
            *final(self) == *old(self),
            r matches Err(e) ==> e.0 == msg,
    {
        self.address_book.send_to_all_global(msg)
    }

    /// See [`AddressBook::send_to_global`].
    pub fn send_to_global(&mut self, addr: Addr, msg: Message) -> (r: Result<
        (),
        SendError<Message>,
    >)
        ensures
            *final(self) == *old(self),
            r matches Err(e) ==> e.0 == msg,
    {
        self.address_book.send_to_global(addr, msg)
    }

    /// Number of peers that have not been found gone, as far as an `i32` can
    /// tell.
    pub fn get_active_islands_number(&self) -> (n: i32)
        ensures
            n == if self.address_book.islands@.len() <= i32::MAX {
                self.address_book.islands@.len() as int
            } else {
                i32::MAX as int
            },
    {
        let len = self.address_book.islands.len();
        if len <= i32::MAX as usize {
            len as i32
        } else {
            i32::MAX
        }
    }
}

/// What the user of the runtime writes: one simulation unit.
pub trait Island: Send {
    /// Called once, before any turn.
    fn on_start(&mut self);

    /// Called once per turn, with the messages that have arrived since the
    /// turn before.
    fn do_turn(&mut self, turn_number: u32, messages: Vec<Message>);

    /// Called once, after the last turn.
    fn on_finish(&mut self);
}

/// Makes the islands of a host.
pub trait IslandFactory {
    /// The kind of island that this factory makes.
    type Made: Island;

    fn create(&self, island_id: IslandId, island_env: IslandEnv) -> Self::Made;
}

} // verus!
