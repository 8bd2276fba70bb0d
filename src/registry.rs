//! The per-object cancellation registry: a table of slot ids, each with the
//! sending half of a one-shot cancellation channel.

use tokio::sync::oneshot::error::RecvError;
use tokio::sync::oneshot::{Receiver, Sender};
use vstd::prelude::*;

verus! {

#[verifier::external_type_specification]
#[verifier::external_body]
#[verifier::reject_recursive_types(T)]
pub struct ExSender<T>(Sender<T>);

#[verifier::external_type_specification]
#[verifier::external_body]
#[verifier::reject_recursive_types(T)]
pub struct ExReceiver<T>(Receiver<T>);

// `Receiver`'s `Future` impl names this error type, so it must be declared
// for `Receiver` to be accepted.
#[verifier::external_type_specification]
#[verifier::external_body]
pub struct ExRecvError(RecvError);

/// Relies on `tokio::sync::oneshot::channel`: a fresh, connected pair of ends.
#[verifier::external_body]
fn open_channel() -> (r: (Sender<()>, Receiver<()>)) {
    tokio::sync::oneshot::channel()
}

/// Relies on `tokio::sync::oneshot::Sender::is_closed`: whether the receiving
/// end has been dropped or closed. That depends on the other side, so nothing
/// is promised of the answer.
#[verifier::external_body]
fn sender_closed(tx: &Sender<()>) -> (r: bool) {
    tx.is_closed()
}

/// Relies on `tokio::sync::oneshot::Sender::send`: fires the signal; a closed
/// channel drops it, which is what cancellation wants.
#[verifier::external_body]
fn fire(tx: Sender<()>) {
    let _ = tx.send(());
}

/// No id occurs twice.
pub open spec fn unique_ids(ids: Seq<u64>) -> bool {
    forall|i: int, j: int| 0 <= i < ids.len() && 0 <= j < ids.len() && i != j ==> ids[i] != ids[j]
}

/// `i` is the first index whose flag is set.
pub open spec fn is_first_set(flags: Seq<bool>, i: int) -> bool {
    &&& 0 <= i < flags.len()
    &&& flags[i]
    &&& forall|j: int| 0 <= j < i ==> !flags[j]
}

/// The ids after a new slot `id` is placed: it takes over the first slot
/// whose channel was seen closed, or is appended when there is none.
pub open spec fn placed(ids: Seq<u64>, closed: Seq<bool>, id: u64) -> Seq<u64> {
    if exists|i: int| is_first_set(closed, i) {
        ids.update(choose|i: int| is_first_set(closed, i), id)
    } else {
        ids.push(id)
    }
}

/// The ids after the slot `id` is taken out (unchanged when it is absent).
pub open spec fn without(ids: Seq<u64>, id: u64) -> Seq<u64> {
    if ids.contains(id) {
        ids.remove(ids.index_of(id))
    } else {
        ids
    }
}

/// There is at most one first set flag.
pub proof fn lemma_first_set_unique(flags: Seq<bool>, i: int)
    requires
        is_first_set(flags, i),
    ensures
        (choose|j: int| is_first_set(flags, j)) == i,
{
    let j = choose|j: int| is_first_set(flags, j);
    assert(is_first_set(flags, j));
    if j < i {
        assert(!flags[j]);
    } else if i < j {
        assert(!flags[i]);
    }
}

/// In a table of unique ids, the index of an id is where it stands.
pub proof fn lemma_index_of_unique(ids: Seq<u64>, i: int)
    requires
        unique_ids(ids),
        0 <= i < ids.len(),
    ensures
        ids.contains(ids[i]),
        ids.index_of(ids[i]) == i,
{
    assert(ids[i] == ids[i]);
    let j = ids.index_of(ids[i]);
    assert(0 <= j < ids.len() && ids[j] == ids[i]);
}

/// One slot of the registry.
struct Slot {
    id: u64,
    tx: Sender<()>,
}

/// The ids of a table, last slot first: the order in which draining the
/// table fires them.
pub open spec fn newest_first(ids: Seq<u64>) -> Seq<u64> {
    Seq::new(ids.len(), |i: int| ids[ids.len() - 1 - i])
}

/// The cancellation registry of one object.
pub struct CancelManager {
    next_id: u64,
    pending: Vec<Slot>,
    /// The ids whose cancellation signal was sent, in order.
    fired: Ghost<Seq<u64>>,
}

/// Finds the first set flag.
pub fn first_set(flags: &Vec<bool>) -> (r: Option<usize>)
    ensures
        match r {
            Some(i) => is_first_set(flags@, i as int),
            None => forall|j: int| 0 <= j < flags@.len() ==> !flags@[j],
        },
{
    let mut k: usize = 0;
    while k < flags.len()
        invariant
            k <= flags@.len(),
            forall|j: int| 0 <= j < k ==> !flags@[j],
        decreases flags@.len() - k,
    {
        if flags[k] {
            return Some(k);
        }
        k = k + 1;
    }
    None
}

impl CancelManager {
    /// The ids of the live slots, in table order.
    pub closed spec fn ids(&self) -> Seq<u64> {
        self.pending@.map_values(|s: Slot| s.id)
    }

    /// The id that the next slot will get.
    pub closed spec fn next(&self) -> u64 {
        self.next_id
    }

    /// The ids whose cancellation signal was sent, in the order sent.
    pub closed spec fn fired(&self) -> Seq<u64> {
        self.fired@
    }

    /// Ids are unique and all were handed out before.
    pub open spec fn wf(&self) -> bool {
        &&& unique_ids(self.ids())
        &&& forall|i: int| 0 <= i < self.ids().len() ==> self.ids()[i] < self.next()
    }

    /// An empty registry.
    pub fn new() -> (r: CancelManager)
        ensures
            r.wf(),
            r.ids() == Seq::<u64>::empty(),
            r.fired() == Seq::<u64>::empty(),
            r.next() == 0,
    {
        let r = CancelManager { next_id: 0, pending: Vec::new(), fired: Ghost(Seq::empty()) };
        assert(r.ids() =~= Seq::<u64>::empty());
        r
    }

    /// The number of slots in the table.
    pub fn len(&self) -> (r: usize)
        ensures
            r == self.ids().len(),
    {
        self.pending.len()
    }

    /// The id that the next slot will get.
    pub fn next_id(&self) -> (r: u64)
        ensures
            r == self.next(),
    {
        self.next_id
    }

    /// Whether a slot with this id is in the table.
    pub fn contains(&self, id: u64) -> (r: bool)
        ensures
            r == self.ids().contains(id),
    {
        self.position(id).is_some()
    }

    fn position(&self, id: u64) -> (r: Option<usize>)
        ensures
            match r {
                Some(i) => i < self.ids().len() && self.ids()[i as int] == id && self.ids().contains(id),
                None => !self.ids().contains(id),
            },
    {
        let mut k: usize = 0;
        while k < self.pending.len()
            invariant
                k <= self.pending@.len(),
                forall|j: int| 0 <= j < k ==> self.ids()[j] != id,
            decreases self.pending@.len() - k,
        {
            if self.pending[k].id == id {
                assert(self.ids()[k as int] == id);
                return Some(k);
            }
            k = k + 1;
        }
        None
    }

    /// Places a new slot holding `tx`, given for each slot whether its
    /// channel was seen closed; returns the new slot's id.
    pub fn place_slot(&mut self, closed: &Vec<bool>, tx: Sender<()>) -> (r: u64)
        requires
            old(self).wf(),
            closed@.len() == old(self).ids().len(),
            old(self).next() < u64::MAX,
        ensures
            final(self).wf(),
            r == old(self).next(),
            final(self).next() == old(self).next() + 1,
            final(self).ids() == placed(old(self).ids(), closed@, r),
            final(self).fired() == old(self).fired(),
    {
        let id = self.next_id;
        self.next_id = self.next_id + 1;
        let ghost old_ids = self.ids();
        match first_set(closed) {
            Some(i) => {
                proof {
                    lemma_first_set_unique(closed@, i as int);
                }
                self.pending.set(i, Slot { id, tx });
                assert(self.ids() =~= old_ids.update(i as int, id));
            },
            None => {
                self.pending.push(Slot { id, tx });
                assert(self.ids() =~= old_ids.push(id));
            },
        }
        id
    }

    /// Opens a new slot: reuses the first slot whose channel is closed, else
    /// appends one. Returns the slot's id and the receiving end of its signal.
    pub fn new_cancel_id(&mut self) -> (r: (u64, Receiver<()>))
        requires
            old(self).wf(),
            old(self).next() < u64::MAX,
        ensures
            final(self).wf(),
            r.0 == old(self).next(),
            final(self).next() == old(self).next() + 1,
            final(self).fired() == old(self).fired(),
            exists|closed: Seq<bool>|
                closed.len() == old(self).ids().len() && final(self).ids() == #[trigger] placed(
                    old(self).ids(),
                    closed,
                    r.0,
                ),
    {
        let mut closed: Vec<bool> = Vec::new();
        let mut k: usize = 0;
        while k < self.pending.len()
            invariant
                k <= self.pending@.len(),
                closed@.len() == k,
            decreases self.pending@.len() - k,
        {
            let c = sender_closed(&self.pending[k].tx);
            closed.push(c);
            k = k + 1;
        }
        let (tx, rx) = open_channel();
        let id = self.place_slot(&closed, tx);
        (id, rx)
    }

    /// Takes the slot `id` out of the table, if it is there, and returns it.
    fn take(&mut self, id: u64) -> (r: Option<Slot>)
        requires
            old(self).wf(),
        ensures
            final(self).wf(),
            final(self).next() == old(self).next(),
            final(self).ids() == without(old(self).ids(), id),
            r.is_some() == old(self).ids().contains(id),
            r.is_some() ==> r->0.id == id,
            final(self).fired() == old(self).fired(),
    {
        match self.position(id) {
            Some(i) => {
                let ghost old_ids = self.ids();
                proof {
                    lemma_index_of_unique(old_ids, i as int);
                }
                let slot = self.pending.remove(i);
                assert(self.ids() =~= old_ids.remove(i as int));
                Some(slot)
            },
            None => None,
        }
    }

    /// Cancels the task of slot `id`: takes the slot out and fires its
    /// signal. Does nothing when no such slot is left.
    pub fn cancel(&mut self, id: u64)
        requires
            old(self).wf(),
        ensures
            final(self).wf(),
            final(self).next() == old(self).next(),
            final(self).ids() == without(old(self).ids(), id),
            final(self).fired() == if old(self).ids().contains(id) {
                old(self).fired().push(id)
            } else {
                old(self).fired()
            },
    {
        if let Some(slot) = self.take(id) {
            self.signal(slot);
        }
    }

    /// Sends the signal of a slot already taken out of the table, and
    /// records its id as fired.
    fn signal(&mut self, slot: Slot)
        ensures
            final(self).fired() == old(self).fired().push(slot.id),
            final(self).ids() == old(self).ids(),
            final(self).next() == old(self).next(),
    {
        let ghost id = slot.id;
        fire(slot.tx);
        self.fired = Ghost(self.fired@.push(id));
    }

    /// Takes the slot `id` out without firing it; true when it was there,
    /// which means that the task was not cancelled.
    pub fn remove(&mut self, id: u64) -> (r: bool)
        requires
            old(self).wf(),
        ensures
            final(self).wf(),
            final(self).next() == old(self).next(),
            final(self).ids() == without(old(self).ids(), id),
            r == old(self).ids().contains(id),
            final(self).fired() == old(self).fired(),
    {
        self.take(id).is_some()
    }

    /// Fires the signal of every slot left and empties the table, as when
    /// the owning object is destroyed.
    pub fn cancel_all(&mut self)
        requires
            old(self).wf(),
        ensures
            final(self).wf(),
            final(self).next() == old(self).next(),
            final(self).ids() == Seq::<u64>::empty(),
            final(self).fired() == old(self).fired() + newest_first(old(self).ids()),
    {
        let ghost ids0 = self.ids();
        let ghost fired0 = self.fired();
        while self.pending.len() > 0
            invariant
                self.wf(),
                self.next() == old(self).next(),
                ids0 == old(self).ids(),
                fired0 == old(self).fired(),
                self.ids() == ids0.take(self.ids().len() as int),
                self.ids().len() <= ids0.len(),
                self.fired() == fired0 + newest_first(ids0).take(ids0.len() - self.ids().len()),
            decreases self.pending@.len(),
        {
            let ghost before = self.ids();
            let ghost fired_before = self.fired();
            let slot = self.pending.pop().unwrap();
            assert(self.ids() =~= before.drop_last());
            assert(slot.id == before[before.len() - 1]);
            self.signal(slot);
            assert(self.ids() =~= ids0.take(self.ids().len() as int));
            assert(newest_first(ids0).take(ids0.len() - self.ids().len()) =~= newest_first(ids0).take(
                ids0.len() - before.len(),
            ).push(before[before.len() - 1]));
            assert(self.fired() =~= fired0 + newest_first(ids0).take(ids0.len() - self.ids().len()));
        }
        assert(self.ids() =~= Seq::<u64>::empty());
        assert(newest_first(ids0).take(ids0.len() as int) =~= newest_first(ids0));
    }
}

} // verus!
