use vstd::prelude::*;
use std::sync::mpsc::Sender;
use crate::address_book::paired;
use crate::address_book::AddressBook;
use crate::channel::hand_over;
use crate::dispatcher::DispatcherMessage;
use crate::ids::IslandId;
use crate::message::Message;
use crate::settings::ClientSettings;

verus! {

/// What a host does to set its islands up and to take them down.
pub struct Simulation;

impl Simulation {
    /// Number of long-lived tasks of a host: one for each island, the
    /// dispatcher, the collector, and the one that started them.
    pub fn task_count(settings: &ClientSettings) -> (count: u64)
        ensures
            count == settings.islands + 3,
    {
        settings.islands as u64 + 3
    }

    /// Draws a name for each of the islands of a host.
    pub fn create_island_ids(islands_number: u32) -> (island_ids: Vec<IslandId>)
        ensures
            island_ids@.len() == islands_number,
            forall|i: int|
                0 <= i < island_ids@.len() ==> (#[trigger] island_ids@[i].0 >> 76u32) & 0xf == 4
                    && (island_ids@[i].0 >> 62u32) & 0x3 == 2,
    {
        let mut island_ids: Vec<IslandId> = Vec::new();
        let mut i: u32 = 0;
        while i < islands_number
            invariant
                i <= islands_number,
                island_ids@.len() == i,
                forall|k: int|
                    0 <= k < island_ids@.len() ==> (#[trigger] island_ids@[k].0 >> 76u32) & 0xf
                        == 4 && (island_ids@[k].0 >> 62u32) & 0x3 == 2,
            decreases islands_number - i,
        {
            island_ids.push(IslandId::random());
            i += 1;
        }
        island_ids
    }

    /// The address book of the island at `island_no`: every island of the
    /// host but itself, and the dispatcher. `txes` are handles of the
    /// mailboxes of all islands of the host and `island_ids` their names,
    /// index by index; the book takes them over.
    pub fn create_address_book(
        txes: Vec<Sender<Message>>,
        island_ids: Vec<IslandId>,
        island_no: usize,
        dispatcher_tx: Sender<DispatcherMessage>,
    ) -> (book: AddressBook)
        requires
            txes@.len() == island_ids@.len(),
            island_no < island_ids@.len(),
        ensures
            book.well_formed(),
            book@ == paired(island_ids@, txes@).remove(island_no as int),
            book.dispatcher_tx == dispatcher_tx,
    {
        let mut peer_txes = txes;
        let mut peer_ids = island_ids;
        let _ = peer_txes.remove(island_no);
        let _ = peer_ids.remove(island_no);
        let book = AddressBook::new(dispatcher_tx, peer_txes, peer_ids);
        assert(book@ =~= paired(island_ids@, txes@).remove(island_no as int));
        book
    }

    /// Takes the host down once its islands have left. On a host that counts
    /// the turns itself, the dispatcher and the collector are told that the
    /// simulation is over; on a host that follows the sync server they hear
    /// of it from the server. Says for each of the two whether it was told.
    pub fn finish(
        settings: &ClientSettings,
        dispatcher_tx: &Sender<DispatcherMessage>,
        collector_tx: &Sender<Message>,
    ) -> (told: (bool, bool))
        ensures
            settings.network.global_sync.sync ==> told == (false, false),
    {
        match Self::closing_notices(settings) {
            None => (false, false),
            Some((for_dispatcher, for_collector)) => {
                let dispatcher_told = hand_over(dispatcher_tx, for_dispatcher).is_ok();
                let collector_told = hand_over(collector_tx, for_collector).is_ok();
                (dispatcher_told, collector_told)
            },
        }
    }

    /// What the driver of a host puts on the queues of the dispatcher and of
    /// the collector once its islands have left: the end of the simulation
    /// for both on a host that counts the turns itself, nothing on a host
    /// that follows the sync server.
    pub fn closing_notices(settings: &ClientSettings) -> (notices: Option<
        (DispatcherMessage, Message),
    >)
        ensures
            notices == if settings.network.global_sync.sync {
                None::<(DispatcherMessage, Message)>
            } else {
                Some((DispatcherMessage::Info(Message::FinSim), Message::FinSim))
            },
    {
        if settings.network.global_sync.sync {
            None
        } else {
            Some((DispatcherMessage::Info(Message::FinSim), Message::FinSim))
        }
    }
}

/// On a host whose islands bear different names and own different
/// mailboxes, the address book of island `a` holds neither the name of `a`
/// nor the handle of its mailbox, and the one peer in it that bears the name
/// of another island `b` comes with the handle of `b`'s own mailbox: what `a`
/// sends to `b` by name is offered to the mailbox of `b` and to no other,
/// and never to that of `a`.
pub proof fn law_routing_exclusive(
    ids: Seq<IslandId>,
    txes: Seq<Sender<Message>>,
    a: int,
    b: int,
)
    requires
        ids.no_duplicates(),
        txes.no_duplicates(),
        ids.len() == txes.len(),
        0 <= a < ids.len(),
        0 <= b < ids.len(),
        a != b,
    ensures
        ({
            let book = paired(ids, txes).remove(a);
            let at = if b < a {
                b
            } else {
                b - 1
            };
            &&& forall|k: int|
                0 <= k < book.len() ==> (#[trigger] book[k]).0 != ids[a] && book[k].1 != txes[a]
            &&& 0 <= at < book.len()
            &&& book[at] == (ids[b], txes[b])
            &&& forall|k: int| 0 <= k < book.len() && k != at ==> (#[trigger] book[k]).0 != ids[b]
        }),
{
    let all = paired(ids, txes);
    let book = all.remove(a);
    let at = if b < a {
        b
    } else {
        b - 1
    };
    assert forall|k: int| 0 <= k < book.len() implies (#[trigger] book[k]).0 != ids[a] && book[k].1
        != txes[a] && (k != at ==> book[k].0 != ids[b]) by {
        let from = if k < a {
            k
        } else {
            k + 1
        };
        assert(book[k] == all[from]);
        assert(all[from] == (ids[from], txes[from]));
    }
}

} // verus!
