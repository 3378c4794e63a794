use vstd::prelude::*;

verus! {

/// How many items a request for `n` takes from a queue holding `len`.
pub open spec fn batch_len(len: nat, n: nat) -> nat {
    if n < len {
        n
    } else {
        len
    }
}

/// The items that a request for `n` takes from the front of `q`.
pub open spec fn drained<T>(q: Seq<T>, n: nat) -> Seq<T> {
    q.take(batch_len(q.len(), n) as int)
}

/// What is left of `q` after a request for `n`.
pub open spec fn remaining<T>(q: Seq<T>, n: nat) -> Seq<T> {
    q.skip(batch_len(q.len(), n) as int)
}

/// The batches that successive requests for `ns[0]`, `ns[1]`, ... items
/// take from a queue that holds `q` when the first of them is made.
pub open spec fn drain_batches<T>(q: Seq<T>, ns: Seq<nat>) -> Seq<Seq<T>>
    decreases ns.len(),
{
    if ns.len() == 0 {
        Seq::empty()
    } else {
        seq![drained(q, ns[0])] + drain_batches(remaining(q, ns[0]), ns.drop_first())
    }
}

/// What a queue that holds `q` keeps after the requests `ns`.
pub open spec fn remaining_after<T>(q: Seq<T>, ns: Seq<nat>) -> Seq<T>
    decreases ns.len(),
{
    if ns.len() == 0 {
        q
    } else {
        remaining_after(remaining(q, ns[0]), ns.drop_first())
    }
}

/// The number of items asked for by the requests `ns` together.
pub open spec fn total_requested(ns: Seq<nat>) -> nat
    decreases ns.len(),
{
    if ns.len() == 0 {
        0
    } else {
        ns[0] + total_requested(ns.drop_first())
    }
}

/// Drains served one after another, in whatever order the lock that shares
/// a `SafeQueue` grants them (each `SafeQueue::drain` takes `drained` and
/// leaves `remaining`), hand out the front of the queue: together the batches are the first
/// `min(|q|, total requested)` items, each exactly once and in order, and the
/// queue keeps the rest. So no item is handed out twice and none is lost.
pub proof fn lemma_drains_partition_queue<T>(q: Seq<T>, ns: Seq<nat>)
    ensures
        drain_batches(q, ns).flatten() == drained(q, total_requested(ns)),
        drain_batches(q, ns).flatten().len() == batch_len(q.len(), total_requested(ns)),
        drain_batches(q, ns).flatten() + remaining_after(q, ns) == q,
    decreases ns.len(),
{
    if ns.len() == 0 {
        assert(drained(q, 0) =~= Seq::<T>::empty());
        assert(Seq::<Seq<T>>::empty().flatten() =~= Seq::<T>::empty());
        assert(Seq::<T>::empty() + q =~= q);
    } else {
        let n0 = ns[0];
        let rest = ns.drop_first();
        let r0 = remaining(q, n0);
        lemma_drains_partition_queue(r0, rest);
        let b = drain_batches(q, ns);
        assert(b.first() == drained(q, n0));
        assert(b.drop_first() =~= drain_batches(r0, rest));
        assert(b.flatten() == drained(q, n0) + drain_batches(r0, rest).flatten());
        assert(remaining_after(q, ns) == remaining_after(r0, rest));
        assert(b.flatten() =~= drained(q, total_requested(ns)));
        let f1 = drain_batches(r0, rest).flatten();
        assert(drained(q, n0) + r0 =~= q);
        assert(b.flatten() + remaining_after(q, ns) =~= drained(q, n0) + (f1 + remaining_after(
            r0,
            rest,
        )));
    }
}

/// Removes the first `n` items of `items` (all of them, when there are
/// fewer) and returns them in their order.
pub fn drain_front<T>(items: &mut Vec<T>, n: usize) -> (r: Vec<T>)
    ensures
        r@ == drained(old(items)@, n as nat),
        final(items)@ == remaining(old(items)@, n as nat),
{
    let k: usize = if n < items.len() {
        n
    } else {
        items.len()
    };
    let mut rest = items.split_off(k);
    std::mem::swap(items, &mut rest);
    rest
}

/// One operation on a queue, as it is applied in the order the calls happen.
pub enum QueueOp<T> {
    Push(T),
    Drain(usize),
}

/// Applies `ops` in order to a queue that holds `q`: the items handed out by
/// the drains, concatenated in order, and what the queue holds at the end.
pub open spec fn run_queue<T>(q: Seq<T>, ops: Seq<QueueOp<T>>) -> (Seq<T>, Seq<T>)
    decreases ops.len(),
{
    if ops.len() == 0 {
        (Seq::empty(), q)
    } else {
        let (out, left) = run_queue(q, ops.drop_last());
        match ops.last() {
            QueueOp::Push(x) => (out, left.push(x)),
            QueueOp::Drain(n) => (out + drained(left, n as nat), remaining(left, n as nat)),
        }
    }
}

/// The items pushed by `ops`, in order.
pub open spec fn pushed_items<T>(ops: Seq<QueueOp<T>>) -> Seq<T>
    decreases ops.len(),
{
    if ops.len() == 0 {
        Seq::empty()
    } else {
        match ops.last() {
            QueueOp::Push(x) => pushed_items(ops.drop_last()).push(x),
            QueueOp::Drain(_) => pushed_items(ops.drop_last()),
        }
    }
}

/// Across any mix of pushes and drains on a queue that starts empty, the
/// items pushed are exactly the items drained followed by what the queue
/// still holds, in the order they were pushed: none is lost, none is handed
/// out twice. `SafeQueue::push` and `SafeQueue::drain` change the queue as
/// `run_queue` says, so this holds of every run of them.
pub proof fn lemma_queue_keeps_every_item<T>(ops: Seq<QueueOp<T>>)
    ensures
        run_queue(Seq::empty(), ops).0 + run_queue(Seq::empty(), ops).1 == pushed_items(ops),
    decreases ops.len(),
{
    if ops.len() == 0 {
        assert(Seq::<T>::empty() + Seq::<T>::empty() =~= Seq::<T>::empty());
    } else {
        lemma_queue_keeps_every_item(ops.drop_last());
        let (out, left) = run_queue(Seq::<T>::empty(), ops.drop_last());
        match ops.last() {
            QueueOp::Push(x) => {
                assert(out + left.push(x) =~= (out + left).push(x));
            },
            QueueOp::Drain(n) => {
                assert(drained(left, n as nat) + remaining(left, n as nat) =~= left);
                assert(out + drained(left, n as nat) + remaining(left, n as nat) =~= out + left);
            },
        }
    }
}

/// A first-in first-out queue of work items. Threads that share it hold it
/// behind one lock, so each call acts on the queue as a whole.
pub struct SafeQueue<T> {
    items: Vec<T>,
}

impl<T> View for SafeQueue<T> {
    /// The queued items, front first.
    type V = Seq<T>;

    closed spec fn view(&self) -> Seq<T> {
        self.items@
    }
}

impl<T> SafeQueue<T> {
    /// A new, empty queue.
    pub fn new() -> (r: SafeQueue<T>)
        ensures
            r@ == Seq::<T>::empty(),
    {
        SafeQueue { items: Vec::new() }
    }

    /// A queue holding `items`, the first of them at the front.
    pub fn from_items(items: Vec<T>) -> (r: SafeQueue<T>)
        ensures
            r@ == items@,
    {
        SafeQueue { items }
    }

    /// Whether the queue holds no items.
    pub fn is_empty(&self) -> (r: bool)
        ensures
            r == (self@.len() == 0),
    {
        self.items.len() == 0
    }

    /// Appends `item` at the back of the queue.
    pub fn push(&mut self, item: T)
        ensures
            final(self)@ == old(self)@.push(item),
    {
        self.items.push(item);
    }

    /// The number of queued items.
    pub fn len(&self) -> (r: usize)
        ensures
            r == self@.len(),
    {
        self.items.len()
    }

    /// Removes and returns the first `n_elements` items (all of them when
    /// fewer are queued), in the order they were pushed.
    pub fn drain(&mut self, n_elements: usize) -> (r: Vec<T>)
        ensures
            r@ == drained(old(self)@, n_elements as nat),
            final(self)@ == remaining(old(self)@, n_elements as nat),
    {
        drain_front(&mut self.items, n_elements)
    }
}

} // verus!
