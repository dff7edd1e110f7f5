use vstd::prelude::*;
use std::sync::mpsc::Sender;
use crate::channel::hand_over;
use crate::dispatcher::DispatcherMessage;
use crate::ids::IslandId;
use crate::message::Message;
use crate::chance::random_index;
use crate::dispatcher::Addr;
use crate::seq_util::is_subsequence;
use crate::seq_util::keep;
use crate::seq_util::lemma_keep_is_subsequence;
use crate::seq_util::lemma_keep_marked;
use crate::seq_util::lemma_keep_nonempty;
use crate::seq_util::lemma_subsequence_trans;
use crate::seq_util::marked;
use crate::seq_util::lemma_subsequence_refl;
use crate::seq_util::lemma_subsequence_remove;

verus! {

/// A message that could not be delivered, handed back to the caller.
#[derive(Debug, PartialEq, Eq)]
pub struct SendError<T>(pub T);

/// One peer as an island sees it: its name and the handle of its mailbox.
pub type Peer = (IslandId, Sender<Message>);

/// The peers named by `ids`, each with the handle at the same index.
pub open spec fn paired(ids: Seq<IslandId>, handles: Seq<Sender<Message>>) -> Seq<Peer> {
    Seq::new(ids.len(), |i: int| (ids[i], handles[i]))
}

/// The peers that are left after the peer at `index` was offered a message:
/// all of them where it accepted, all but itself where it refused.
pub open spec fn settled(peers: Seq<Peer>, index: int, accepted: bool) -> Seq<Peer> {
    if accepted {
        peers
    } else {
        peers.remove(index)
    }
}

/// What one island, or the collector, knows of the other islands of its host.
pub struct AddressBook {
    /// Handle of the dispatcher's queue.
    pub dispatcher_tx: Sender<DispatcherMessage>,
    /// Handles of the peers' mailboxes.
    pub addresses: Vec<Sender<Message>>,
    /// Names of the peers, index by index with `addresses`.
    pub islands: Vec<IslandId>,
}

impl View for AddressBook {
    type V = Seq<Peer>;

    open spec fn view(&self) -> Seq<Peer> {
        paired(self.islands@, self.addresses@)
    }
}

impl AddressBook {
    /// The two sequences are aligned: one handle for each name.
    pub open spec fn well_formed(&self) -> bool {
        self.addresses@.len() == self.islands@.len()
    }

    /// A book of the peers named by `islands`, each with the handle at the
    /// same index of `addresses`.
    pub fn new(
        dispatcher_tx: Sender<DispatcherMessage>,
        addresses: Vec<Sender<Message>>,
        islands: Vec<IslandId>,
    ) -> (book: AddressBook)
        requires
            addresses@.len() == islands@.len(),
        ensures
            book.well_formed(),
            book.islands == islands,
            book.addresses == addresses,
            book.dispatcher_tx == dispatcher_tx,
    {
        AddressBook { dispatcher_tx, addresses, islands }
    }

    /// Takes the peer at `index` out of the book.
    pub fn evict(&mut self, index: usize)
        requires
            old(self).well_formed(),
            index < old(self)@.len(),
        ensures
            final(self).well_formed(),
            final(self)@ == old(self)@.remove(index as int),
            final(self).dispatcher_tx == old(self).dispatcher_tx,
    {
        let _ = self.addresses.remove(index);
        let _ = self.islands.remove(index);
        assert(self@ =~= old(self)@.remove(index as int));
    }

    /// Index of the first peer named `island_id`.
    pub fn position(&self, island_id: IslandId) -> (r: Option<usize>)
        ensures
            match r {
                Some(i) => {
                    &&& i < self.islands@.len()
                    &&& self.islands@[i as int] == island_id
                    &&& forall|j: int| 0 <= j < i ==> self.islands@[j] != island_id
                },
                None => !self.islands@.contains(island_id),
            },
    {
        let mut i: usize = 0;
        while i < self.islands.len()
            invariant
                i <= self.islands@.len(),
                forall|j: int| 0 <= j < i ==> self.islands@[j] != island_id,
            decreases self.islands@.len() - i,
        {
            if self.islands[i] == island_id {
                return Some(i);
            }
            i += 1;
        }
        None
    }

    /// Takes note of what became of a message that was offered to the peer
    /// at `index`: a peer that refused is evicted, and the message that it
    /// handed back is still to be delivered.
    pub fn settle(&mut self, index: usize, outcome: Result<(), Message>) -> (pending: Option<
        Message,
    >)
        requires
            old(self).well_formed(),
            index < old(self)@.len(),
        ensures
            final(self).well_formed(),
            final(self).dispatcher_tx == old(self).dispatcher_tx,
            final(self)@ == settled(old(self)@, index as int, outcome is Ok),
            match outcome {
                Ok(()) => pending is None,
                Err(back) => pending == Some(back),
            },
    {
        match outcome {
            Ok(()) => None,
            Err(back) => {
                self.evict(index);
                Some(back)
            },
        }
    }

    /// Sends `msg` to one peer picked at random. A peer that refuses is
    /// evicted and another one is tried, until one accepts or none is left.
    pub fn send_to_rnd_local(&mut self, msg: Message) -> (r: Result<(), SendError<Message>>)
        requires
            old(self).well_formed(),
        ensures
            final(self).well_formed(),
            final(self).dispatcher_tx == old(self).dispatcher_tx,
            is_subsequence(final(self)@, old(self)@),
            r is Err <==> final(self)@.len() == 0,
            r matches Err(e) ==> e.0 == msg,
    {
        let mut pending = msg;
        proof {
            lemma_subsequence_refl(self@);
        }
        loop
            invariant
                self.well_formed(),
                self.dispatcher_tx == old(self).dispatcher_tx,
                is_subsequence(self@, old(self)@),
                pending == msg,
            decreases self.addresses@.len(),
        {
            if self.addresses.len() == 0 {
                return Err(SendError(pending));
            }
            let index = random_index(self.addresses.len());
            let outcome = hand_over(&self.addresses[index], pending);
            proof {
                lemma_subsequence_remove(self@, old(self)@, index as int);
            }
            match self.settle(index, outcome) {
                None => {
                    return Ok(());
                },
                Some(back) => {
                    pending = back;
                },
            }
        }
    }

    /// Sends `msg` to the peer named `island_id`. The book stays as it is,
    /// whatever the outcome.
    pub fn send_to_local(&mut self, island_id: IslandId, msg: Message) -> (r: Result<
        (),
        SendError<Message>,
    >)
        requires
            old(self).well_formed(),
        ensures
            *final(self) == *old(self),
            !old(self).islands@.contains(island_id) ==> r is Err,
            r matches Err(e) ==> e.0 == msg,
    {
        match self.position(island_id) {
            Some(index) => match hand_over(&self.addresses[index], msg) {
                Ok(()) => Ok(()),
                Err(back) => Err(SendError(back)),
            },
            None => Err(SendError(msg)),
        }
    }

    /// Keeps the peers whose position is marked in `accepted` and evicts the
    /// others; says whether any is kept.
    pub fn retain_accepted(&mut self, accepted: &Vec<bool>) -> (any: bool)
        requires
            old(self).well_formed(),
            accepted@.len() == old(self)@.len(),
        ensures
            final(self).well_formed(),
            final(self).dispatcher_tx == old(self).dispatcher_tx,
            final(self)@ == keep(old(self)@, accepted@),
            any == (exists|k: int| 0 <= k < accepted@.len() && accepted@[k]),
            any == (final(self)@.len() > 0),
    {
        let mut i: usize = accepted.len();
        let mut any = false;
        assert(self@ =~= old(self)@.take(i as int) + keep(
            old(self)@.skip(i as int),
            accepted@.skip(i as int),
        ));
        while i > 0
            invariant
                i <= accepted@.len(),
                accepted@.len() == old(self)@.len(),
                self.well_formed(),
                self.dispatcher_tx == old(self).dispatcher_tx,
                self@ == old(self)@.take(i as int) + keep(
                    old(self)@.skip(i as int),
                    accepted@.skip(i as int),
                ),
                any == (exists|k: int| i <= k < accepted@.len() && accepted@[k]),
            decreases i,
        {
            i -= 1;
            let ghost rest = keep(old(self)@.skip(i + 1), accepted@.skip(i + 1));
            assert(old(self)@.skip(i as int).drop_first() =~= old(self)@.skip(i + 1));
            assert(accepted@.skip(i as int).drop_first() =~= accepted@.skip(i + 1));
            if accepted[i] {
                any = true;
                assert(self@ =~= old(self)@.take(i as int) + (seq![old(self)@[i as int]] + rest));
            } else {
                self.evict(i);
                assert(self@ =~= old(self)@.take(i as int) + rest);
            }
        }
        proof {
            assert(old(self)@.skip(0) =~= old(self)@);
            assert(accepted@.skip(0) =~= accepted@);
            assert(self@ =~= keep(old(self)@, accepted@));
            lemma_keep_nonempty(old(self)@, accepted@);
        }
        any
    }

    /// Sends a copy of `msg` to every peer and evicts those that refuse.
    /// Fails only when no peer accepted.
    pub fn send_to_all_local(&mut self, msg: Message) -> (r: Result<(), SendError<Message>>)
        requires
            old(self).well_formed(),
        ensures
            final(self).well_formed(),
            final(self).dispatcher_tx == old(self).dispatcher_tx,
            is_subsequence(final(self)@, old(self)@),
            r is Ok <==> final(self)@.len() > 0,
            r matches Err(e) ==> e.0 == msg,
    {
        let mut accepted: Vec<bool> = Vec::new();
        let mut i: usize = 0;
        while i < self.addresses.len()
            invariant
                i <= self.addresses@.len(),
                accepted@.len() == i,
            decreases self.addresses@.len() - i,
        {
            let outcome = hand_over(&self.addresses[i], msg.clone());
            accepted.push(outcome.is_ok());
            i += 1;
        }
        proof {
            lemma_keep_is_subsequence(self@, accepted@);
        }
        if self.retain_accepted(&accepted) {
            Ok(())
        } else {
            Err(SendError(msg))
        }
    }

    /// Asks the dispatcher to send `msg` to the host at `addr`.
    pub fn send_to_global(&mut self, addr: Addr, msg: Message) -> (r: Result<
        (),
        SendError<Message>,
    >)
        ensures
            *final(self) == *old(self),
            r matches Err(e) ==> e.0 == msg,
    {
        handed_back(hand_over(&self.dispatcher_tx, global_command(addr, msg)))
    }

    /// Asks the dispatcher to send `msg` to one host picked at random.
    pub fn send_to_rnd_global(&mut self, msg: Message) -> (r: Result<(), SendError<Message>>)
        ensures
            *final(self) == *old(self),
            r matches Err(e) ==> e.0 == msg,
    {
        handed_back(hand_over(&self.dispatcher_tx, rnd_global_command(msg)))
    }

    /// Asks the dispatcher to send `msg` to every host.
    pub fn send_to_all_global(&mut self, msg: Message) -> (r: Result<(), SendError<Message>>)
        ensures
            *final(self) == *old(self),
            r matches Err(e) ==> e.0 == msg,
    {
        handed_back(hand_over(&self.dispatcher_tx, all_global_command(msg)))
    }
}

/// The envelope that asks the dispatcher to send `msg` to the host at `addr`.
pub fn global_command(addr: Addr, msg: Message) -> (cmd: DispatcherMessage)
    ensures
        cmd == DispatcherMessage::Unicast(msg, addr),
{
    DispatcherMessage::Unicast(msg, addr)
}

/// The envelope that asks the dispatcher to send `msg` to one host picked at
/// random.
pub fn rnd_global_command(msg: Message) -> (cmd: DispatcherMessage)
    ensures
        cmd == DispatcherMessage::UnicastRandom(msg),
{
    DispatcherMessage::UnicastRandom(msg)
}

/// The envelope that asks the dispatcher to send `msg` to every host.
pub fn all_global_command(msg: Message) -> (cmd: DispatcherMessage)
    ensures
        cmd == DispatcherMessage::Broadcast(msg),
{
    DispatcherMessage::Broadcast(msg)
}

/// What a sender is told once the queue of the dispatcher has taken its
/// envelope or refused it: on refusal the message comes out of the envelope
/// and goes back to the sender.
pub fn handed_back(outcome: Result<(), DispatcherMessage>) -> (r: Result<(), SendError<Message>>)
    ensures
        match outcome {
            Ok(()) => r is Ok,
            Err(back) => r == Err::<(), SendError<Message>>(SendError(back.payload())),
        },
{
    match outcome {
        Ok(()) => Ok(()),
        Err(back) => Err(SendError(back.into())),
    }
}

/// The index that a draw stands for in a book of `len` peers.
pub open spec fn drawn(pick: int, len: nat) -> int
    recommends
        len > 0,
{
    pick % (len as int)
}

/// A random delivery, draw by draw. `open` are the peers whose mailbox takes
/// messages and `picks` the numbers drawn. Gives the peers that are left and
/// whether the message was delivered.
pub open spec fn rnd_delivery(peers: Seq<Peer>, open: Set<Peer>, picks: Seq<int>) -> (Seq<Peer>, bool)
    decreases picks.len(),
{
    if peers.len() == 0 || picks.len() == 0 {
        (peers, false)
    } else {
        let index = drawn(picks[0], peers.len());
        if open.contains(peers[index]) {
            (peers, true)
        } else {
            rnd_delivery(settled(peers, index, false), open, picks.drop_first())
        }
    }
}

/// The outcome of a delivery to every peer: the peers of `open` are marked.
pub open spec fn acceptance(peers: Seq<Peer>, open: Set<Peer>) -> Seq<bool> {
    Seq::new(peers.len(), |i: int| open.contains(peers[i]))
}

/// A random delivery makes progress. Whatever is drawn, a peer whose mailbox
/// is open is never evicted; so with a draw for every peer, the message is
/// delivered exactly when some peer is open, and where none is, every peer
/// was tried and evicted.
pub proof fn law_rnd_local_progress(peers: Seq<Peer>, open: Set<Peer>, picks: Seq<int>)
    requires
        picks.len() >= peers.len(),
    ensures
        ({
            let (left, delivered) = rnd_delivery(peers, open, picks);
            &&& delivered <==> exists|i: int| 0 <= i < peers.len() && open.contains(peers[i])
            &&& !delivered ==> left.len() == 0
            &&& is_subsequence(left, peers)
            &&& forall|i: int|
                0 <= i < peers.len() && open.contains(#[trigger] peers[i]) ==> left.contains(
                    peers[i],
                )
        }),
    decreases picks.len(),
{
    lemma_subsequence_refl(peers);
    if peers.len() == 0 || picks.len() == 0 {
    } else {
        let index = drawn(picks[0], peers.len());
        assert(0 <= index < peers.len()) by (nonlinear_arith)
            requires
                index == picks[0] % (peers.len() as int),
                peers.len() > 0,
        ;
        if open.contains(peers[index]) {
            assert forall|i: int| 0 <= i < peers.len() implies peers.contains(
                #[trigger] peers[i],
            ) by {}
        } else {
            let rest = peers.remove(index);
            law_rnd_local_progress(rest, open, picks.drop_first());
            let (left, delivered) = rnd_delivery(rest, open, picks.drop_first());
            lemma_subsequence_remove(peers, peers, index);
            lemma_subsequence_trans(left, rest, peers);
            assert forall|i: int|
                0 <= i < peers.len() && open.contains(#[trigger] peers[i]) implies left.contains(
                peers[i],
            ) by {
                if i < index {
                    assert(rest[i] == peers[i]);
                } else {
                    assert(rest[i - 1] == peers[i]);
                }
            }
            if exists|i: int| 0 <= i < peers.len() && open.contains(peers[i]) {
                let i = choose|i: int| 0 <= i < peers.len() && open.contains(peers[i]);
                if i < index {
                    assert(rest[i] == peers[i]);
                } else {
                    assert(rest[i - 1] == peers[i]);
                }
            }
            if delivered {
                let k = choose|k: int| 0 <= k < rest.len() && open.contains(rest[k]);
                if k < index {
                    assert(peers[k] == rest[k]);
                } else {
                    assert(peers[k + 1] == rest[k]);
                }
            }
        }
    }
}

proof fn lemma_kept_are_open(peers: Seq<Peer>, open: Set<Peer>)
    ensures
        forall|k: int|
            0 <= k < keep(peers, acceptance(peers, open)).len() ==> open.contains(
                #[trigger] keep(peers, acceptance(peers, open))[k],
            ),
    decreases peers.len(),
{
    if peers.len() > 0 {
        let mask = acceptance(peers, open);
        lemma_kept_are_open(peers.drop_first(), open);
        assert(mask.drop_first() =~= acceptance(peers.drop_first(), open));
        let rest = keep(peers.drop_first(), mask.drop_first());
        assert forall|k: int| 0 <= k < keep(peers, mask).len() implies open.contains(
            #[trigger] keep(peers, mask)[k],
        ) by {
            if mask[0] {
                if k > 0 {
                    assert(keep(peers, mask)[k] == rest[k - 1]);
                }
            } else {
                assert(keep(peers, mask)[k] == rest[k]);
            }
        }
    }
}

/// A delivery to every peer succeeds in part. The peers that are left are
/// those whose mailbox is open, each as often and in the order in which it
/// stood in the book; something is left exactly when some peer is open.
pub proof fn law_all_local_partial_success(peers: Seq<Peer>, open: Set<Peer>)
    ensures
        ({
            let left = keep(peers, acceptance(peers, open));
            &&& left.len() > 0 <==> exists|i: int| 0 <= i < peers.len() && open.contains(peers[i])
            &&& is_subsequence(left, peers)
            &&& forall|k: int| 0 <= k < left.len() ==> open.contains(#[trigger] left[k])
            &&& left.len() == marked(acceptance(peers, open))
        }),
{
    let mask = acceptance(peers, open);
    lemma_keep_nonempty(peers, mask);
    lemma_keep_is_subsequence(peers, mask);
    lemma_keep_marked(peers, mask);
    lemma_kept_are_open(peers, open);
    if exists|i: int| 0 <= i < mask.len() && mask[i] {
        let i = choose|i: int| 0 <= i < mask.len() && mask[i];
        assert(open.contains(peers[i]));
    }
    if exists|i: int| 0 <= i < peers.len() && open.contains(peers[i]) {
        let i = choose|i: int| 0 <= i < peers.len() && open.contains(peers[i]);
        assert(mask[i]);
    }
}

} // verus!
