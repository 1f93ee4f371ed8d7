//! The queues between the code that sends and the tasks that write.
//!
//! A queue is an unbounded channel of `tokio::sync::mpsc`. This module is the
//! only place that makes one or puts anything into one.
use tokio::sync::mpsc::{unbounded_channel, UnboundedReceiver, UnboundedSender};
use vstd::prelude::*;

verus! {

/// The sending half of a queue. A value of it stands for the queue that it
/// feeds.
#[verifier::external_type_specification]
#[verifier::external_body]
#[verifier::reject_recursive_types(T)]
pub struct ExUnboundedSender<T>(UnboundedSender<T>);

/// The receiving half of a queue.
#[verifier::external_type_specification]
#[verifier::external_body]
#[verifier::reject_recursive_types(T)]
pub struct ExUnboundedReceiver<T>(UnboundedReceiver<T>);

/// The receipt for one item that was handed to a queue. Only `offer` makes
/// one, so a receipt shows that its item was handed to its queue.
#[verifier::reject_recursive_types(T)]
pub struct Handoff<T> {
    returned: Option<T>,
    queue: Ghost<UnboundedSender<T>>,
    item: Ghost<T>,
    ledger: Ghost<Seq<(UnboundedSender<T>, T)>>,
}

/// The record of what is handed to queues: one entry for each item, with the
/// queue that it is handed to, in the order in which they are handed over.
/// Nothing is handed to a queue without an entry in a ledger.
#[verifier::reject_recursive_types(T)]
pub struct Ledger<T> {
    entries: Ghost<Seq<(UnboundedSender<T>, T)>>,
}

impl<T> View for Ledger<T> {
    type V = Seq<(UnboundedSender<T>, T)>;

    closed spec fn view(&self) -> Seq<(UnboundedSender<T>, T)> {
        self.entries@
    }
}

impl<T> Ledger<T> {
    /// Returns a ledger without entries.
    pub fn new() -> (ledger: Self)
        ensures
            ledger@ == Seq::<(UnboundedSender<T>, T)>::empty(),
    {
        Ledger { entries: Ghost(Seq::empty()) }
    }
}

/// The items that `entries` hand to `queue`, in order.
pub open spec fn handed<T>(
    entries: Seq<(UnboundedSender<T>, T)>,
    queue: UnboundedSender<T>,
) -> Seq<T>
    decreases entries.len(),
{
    if entries.len() == 0 {
        Seq::empty()
    } else {
        let before = handed(entries.drop_last(), queue);
        if entries.last().0 == queue {
            before.push(entries.last().1)
        } else {
            before
        }
    }
}

impl<T> Handoff<T> {
    /// The queue that the item was handed to.
    pub closed spec fn queue(self) -> UnboundedSender<T> {
        self.queue@
    }

    /// The item that was handed to the queue.
    pub closed spec fn item(self) -> T {
        self.item@
    }

    /// The entries of the ledger right after the item was handed over.
    pub closed spec fn ledger(self) -> Seq<(UnboundedSender<T>, T)> {
        self.ledger@
    }

    /// What the queue gave back: nothing if it took the item.
    pub closed spec fn returned(self) -> Option<T> {
        self.returned
    }

    /// Returns whether the queue took the item.
    pub fn accepted(&self) -> (accepted: bool)
        ensures
            accepted == (self.returned() is None),
    {
        self.returned.is_none()
    }
}

/// The receiving half of a queue, for the task that writes to the peer. Only
/// `new_queue` makes one.
#[verifier::reject_recursive_types(T)]
pub struct Outbox<T> {
    items: UnboundedReceiver<T>,
    queue: Ghost<UnboundedSender<T>>,
}

impl<T> Outbox<T> {
    /// The queue that the items come from.
    pub closed spec fn queue(self) -> UnboundedSender<T> {
        self.queue@
    }

    /// What the items are received from.
    pub closed spec fn items(self) -> UnboundedReceiver<T> {
        self.items
    }

    /// Returns what to receive the items from.
    pub fn into_items(self) -> (items: UnboundedReceiver<T>)
        ensures
            items == self.items(),
    {
        self.items
    }
}

/// Calls `UnboundedSender::send`: hands `item` to `queue` without waiting.
///
/// The receipt names both, and the ledger gets one entry for them. The queue
/// either takes the item or, once its receiver is closed or gone, gives the
/// same item back; which of the two depends on the receiving task and is not
/// stated.
#[verifier::external_body]
pub(crate) fn offer<T>(
    ledger: &mut Ledger<T>,
    queue: &UnboundedSender<T>,
    item: T,
) -> (receipt: Handoff<T>)
    ensures
        final(ledger)@ == old(ledger)@.push((*queue, item)),
        receipt.ledger() == final(ledger)@,
        receipt.queue() == *queue,
        receipt.item() == item,
        receipt.returned() is None || receipt.returned() == Some(item),
{
    ledger.entries = Ghost(ledger@.push((*queue, item)));
    let (to, what, all) = (Ghost(*queue), Ghost(item), Ghost(ledger@));
    let returned = queue.send(item).err().map(|e| e.0);
    Handoff { queue: to, item: what, ledger: all, returned }
}

/// Calls `UnboundedSender::clone`: returns another sender that feeds the same
/// queue.
#[verifier::external_body]
pub(crate) fn share_queue<T>(queue: &UnboundedSender<T>) -> (shared: UnboundedSender<T>)
    ensures
        shared == *queue,
{
    queue.clone()
}

/// Calls `unbounded_channel`: makes a queue. The outbox receives what the
/// sender is handed.
#[verifier::external_body]
pub(crate) fn new_queue<T>() -> (halves: (UnboundedSender<T>, Outbox<T>))
    ensures
        halves.1.queue() == halves.0,
{
    let (sender, items) = unbounded_channel();
    (sender, Outbox { queue: Ghost(sender), items })
}

} // verus!
