use vstd::prelude::*;

verus! {

/// A slot that crosses from a producer to the render loop and keeps only the
/// value written last. Writing never waits and never queues; reading takes the
/// pending value out, so each written value is seen at most once.
pub struct ReactiveProperty<T> {
    pending: Option<T>,
}

impl<T> View for ReactiveProperty<T> {
    type V = Option<T>;

    /// The value that was written and not yet read, if there is one.
    closed spec fn view(&self) -> Option<T> {
        self.pending
    }
}

/// What is pending once `value` is written over `pending`.
pub open spec fn written<T>(pending: Option<T>, value: T) -> Option<T> {
    Some(value)
}

/// What is pending once `writes` are written, in their order, over `pending`.
pub open spec fn written_all<T>(pending: Option<T>, writes: Seq<T>) -> Option<T>
    decreases writes.len(),
{
    if writes.len() == 0 {
        pending
    } else {
        written(written_all(pending, writes.drop_last()), writes.last())
    }
}

/// What a read hands out of a slot holding `pending`, and what it leaves there.
pub open spec fn read<T>(pending: Option<T>) -> (Option<T>, Option<T>) {
    (pending, None)
}

impl<T> ReactiveProperty<T> {
    /// A slot in which nothing is pending.
    pub fn new() -> (property: Self)
        ensures
            property@ is None,
    {
        ReactiveProperty { pending: None }
    }

    /// Writes `value` over whatever was pending.
    pub fn send(&mut self, value: T)
        ensures
            final(self)@ == written(old(self)@, value),
    {
        self.pending = Some(value);
    }

    /// Takes the pending value out, or reports with `None` that nothing was
    /// written since the last read.
    pub fn latest_value(&mut self) -> (latest: Option<T>)
        ensures
            (latest, final(self)@) == read(old(self)@),
    {
        self.pending.take()
    }
}

/// After any number of writes, one or more, a read yields the last of them,
/// whatever was pending before; the read that follows it yields nothing.
pub proof fn lemma_read_yields_last_write<T>(pending: Option<T>, writes: Seq<T>)
    requires
        writes.len() > 0,
    ensures
        read(written_all(pending, writes)).0 == Some(writes.last()),
        read(read(written_all(pending, writes)).1).0 is None,
{
}

} // verus!
