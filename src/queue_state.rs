use vstd::prelude::*;

verus! {

/// The item a pop hands out: the newest one, if any.
///
/// Items are kept oldest first, so a pop takes from the end (stack order).
pub open spec fn popped<T>(items: Seq<T>) -> Option<T> {
    if items.len() == 0 {
        None
    } else {
        Some(items.last())
    }
}

/// The items that remain after a pop.
pub open spec fn after_pop<T>(items: Seq<T>) -> Seq<T> {
    if items.len() == 0 {
        items
    } else {
        items.drop_last()
    }
}

/// A blocking consumer has to wait exactly while there is nothing to take
/// and the queue is still open.
pub open spec fn must_wait_on<T>(items: Seq<T>, closed: bool) -> bool {
    items.len() == 0 && !closed
}

/// The items after pushing each of `xs` in turn, first to last.
pub open spec fn after_pushes<T>(items: Seq<T>, xs: Seq<T>) -> Seq<T>
    decreases xs.len(),
{
    if xs.len() == 0 {
        items
    } else {
        after_pushes(items.push(xs[0]), xs.drop_first())
    }
}

/// What `n` pops in a row hand out, in the order they hand it out.
pub open spec fn pop_results<T>(items: Seq<T>, n: nat) -> Seq<Option<T>>
    decreases n,
{
    if n == 0 {
        Seq::empty()
    } else {
        seq![popped(items)] + pop_results(after_pop(items), (n - 1) as nat)
    }
}

/// The items left after `n` pops in a row.
pub open spec fn after_pops<T>(items: Seq<T>, n: nat) -> Seq<T>
    decreases n,
{
    if n == 0 {
        items
    } else {
        after_pops(after_pop(items), (n - 1) as nat)
    }
}

proof fn lemma_after_pushes_appends<T>(items: Seq<T>, xs: Seq<T>)
    ensures
        after_pushes(items, xs) == items + xs,
    decreases xs.len(),
{
    if xs.len() > 0 {
        lemma_after_pushes_appends(items.push(xs[0]), xs.drop_first());
        assert(items.push(xs[0]) + xs.drop_first() =~= items + xs);
    } else {
        assert(items + xs =~= items);
    }
}

proof fn lemma_pops_undo_pushes<T>(base: Seq<T>, xs: Seq<T>)
    ensures
        pop_results(base + xs, xs.len()).len() == xs.len(),
        forall|i: int|
            0 <= i < xs.len() ==> pop_results(base + xs, xs.len())[i] == Some(
                xs[xs.len() - 1 - i],
            ),
        after_pops(base + xs, xs.len()) == base,
    decreases xs.len(),
{
    if xs.len() == 0 {
        assert(base + xs =~= base);
    } else {
        let rest = xs.drop_last();
        assert((base + xs).drop_last() =~= base + rest);
        lemma_pops_undo_pushes(base, rest);
        let tail = pop_results(base + rest, rest.len());
        assert(pop_results(base + xs, xs.len()) == seq![Some(xs.last())] + tail);
        assert forall|i: int| 0 <= i < xs.len() implies pop_results(base + xs, xs.len())[i]
            == Some(xs[xs.len() - 1 - i]) by {
            if i > 0 {
                assert(tail[i - 1] == Some(rest[rest.len() - 1 - (i - 1)]));
            }
        }
    }
}

/// Stack order: pushing `xs` onto an empty queue and then popping as many
/// times hands the values back newest first, and leaves the queue empty.
pub proof fn lemma_stack_order<T>(xs: Seq<T>)
    ensures
        pop_results(after_pushes(Seq::empty(), xs), xs.len()).len() == xs.len(),
        forall|i: int|
            0 <= i < xs.len() ==> pop_results(after_pushes(Seq::empty(), xs), xs.len())[i]
                == Some(xs[xs.len() - 1 - i]),
        after_pops(after_pushes(Seq::empty(), xs), xs.len()) == Seq::<T>::empty(),
{
    lemma_after_pushes_appends(Seq::empty(), xs);
    lemma_pops_undo_pushes(Seq::empty(), xs);
    assert(Seq::<T>::empty() + xs =~= xs);
}

/// Blocking: on an empty, open queue a blocking consumer waits; a push lets
/// it go and it takes the pushed item; closing lets every waiter go; and once
/// a consumer may go, it comes back without an item exactly when the queue
/// is empty and closed.
pub proof fn lemma_wait_ends_on_push_or_close<T>(items: Seq<T>, closed: bool, x: T)
    ensures
        must_wait_on(Seq::<T>::empty(), false),
        !must_wait_on(items.push(x), closed),
        popped(items.push(x)) == Some(x),
        !must_wait_on(items, true),
        !must_wait_on(items, closed) ==> (popped(items) is None <==> (items.len() == 0
            && closed)),
{
}

/// The state that a synchronized queue guards: the pending items, oldest
/// first, and the closed flag.
pub struct QueueState<T> {
    items: Vec<T>,
    closed: bool,
}

impl<T> QueueState<T> {
    /// The pending items, oldest first.
    pub closed spec fn items(&self) -> Seq<T> {
        self.items@
    }

    /// Whether the queue has been closed.
    pub closed spec fn closed(&self) -> bool {
        self.closed
    }

    /// An empty, open state.
    pub fn new() -> (r: Self)
        ensures
            r.items() == Seq::<T>::empty(),
            !r.closed(),
    {
        QueueState { items: Vec::new(), closed: false }
    }

    /// Adds `item` as the newest pending item.
    pub fn push(&mut self, item: T)
        ensures
            final(self).items() == old(self).items().push(item),
            final(self).closed() == old(self).closed(),
    {
        self.items.push(item);
    }

    /// Takes the newest pending item, if there is one, whether or not the
    /// queue is closed.
    pub fn pop(&mut self) -> (r: Option<T>)
        ensures
            r == popped(old(self).items()),
            final(self).items() == after_pop(old(self).items()),
            final(self).closed() == old(self).closed(),
    {
        self.items.pop()
    }

    /// Marks the queue closed; the pending items stay.
    pub fn close(&mut self)
        ensures
            final(self).items() == old(self).items(),
            final(self).closed(),
    {
        self.closed = true;
    }

    /// Whether a blocking consumer has to keep waiting on this state.
    pub fn must_wait(&self) -> (r: bool)
        ensures
            r == must_wait_on(self.items(), self.closed()),
    {
        self.items.len() == 0 && !self.closed
    }

    /// Whether the queue has been closed.
    pub fn is_closed(&self) -> (r: bool)
        ensures
            r == self.closed(),
    {
        self.closed
    }

    /// The number of pending items.
    pub fn len(&self) -> (r: usize)
        ensures
            r == self.items().len(),
    {
        self.items.len()
    }

    /// Whether no item is pending.
    pub fn is_empty(&self) -> (r: bool)
        ensures
            r == (self.items().len() == 0),
    {
        self.items.len() == 0
    }

    /// The pending item at position `i`, counted from the oldest.
    pub fn get(&self, i: usize) -> (r: Option<&T>)
        ensures
            i < self.items().len() ==> r == Some(&self.items()[i as int]),
            i >= self.items().len() ==> r is None,
    {
        if i < self.items.len() {
            Some(&self.items[i])
        } else {
            None
        }
    }
}

} // verus!
