//! The client's stream pool: at most `capacity` streams are ever opened on a
//! connection; idle ones are handed out again before a new one is opened, and
//! a caller that finds neither waits for one to come back.
//!
//! This is the pool's state and decisions; the runtime that opens streams and
//! wakes waiters acts on what `get` answers.
use vstd::prelude::*;

verus! {

/// What a caller asking the pool for a stream is to do.
#[derive(Debug)]
pub enum PoolGet<T> {
    /// Use this idle stream.
    Reuse(T),
    /// Open a new stream; the pool has counted it.
    Open,
    /// Every stream is in use and no more may be opened: wait for one to be
    /// put back, then ask again.
    Wait,
}

/// Idle streams of type `T`, and how many streams were opened.
pub struct StreamPool<T> {
    idle: Vec<T>,
    opened: usize,
    capacity: usize,
}

impl<T> StreamPool<T> {
    /// Streams waiting to be reused, the most recently returned last.
    pub closed spec fn idle(&self) -> Seq<T> {
        self.idle@
    }

    /// Streams opened so far.
    pub closed spec fn opened(&self) -> nat {
        self.opened as nat
    }

    /// The most streams that may be opened.
    pub closed spec fn capacity(&self) -> nat {
        self.capacity as nat
    }

    /// Streams handed out and not yet put back.
    pub open spec fn in_use(&self) -> int {
        self.opened() - self.idle().len()
    }

    /// Only opened streams can be idle, and no more than `capacity` are opened.
    pub open spec fn wf(&self) -> bool {
        self.idle().len() <= self.opened() <= self.capacity()
    }

    /// A pool that may open up to `capacity` streams and has opened none.
    pub fn new(capacity: usize) -> (r: Self)
        ensures
            r.wf(),
            r.capacity() == capacity,
            r.opened() == 0,
            r.idle().len() == 0,
    {
        StreamPool { idle: Vec::new(), opened: 0, capacity }
    }

    /// Number of streams opened so far.
    pub fn opened_count(&self) -> (r: usize)
        ensures
            r == self.opened(),
    {
        self.opened
    }

    /// Number of idle streams.
    pub fn idle_count(&self) -> (r: usize)
        ensures
            r == self.idle().len(),
    {
        self.idle.len()
    }

    /// Answers a caller asking for a stream: an idle stream if there is one;
    /// else leave to open a new one while fewer than `capacity` were opened;
    /// else wait.
    pub fn get(&mut self) -> (r: PoolGet<T>)
        requires
            old(self).wf(),
        ensures
            final(self).wf(),
            final(self).capacity() == old(self).capacity(),
            old(self).idle().len() > 0 ==> {
                &&& r == PoolGet::Reuse(old(self).idle().last())
                &&& final(self).idle() == old(self).idle().drop_last()
                &&& final(self).opened() == old(self).opened()
            },
            old(self).idle().len() == 0 && old(self).opened() < old(self).capacity() ==> {
                &&& r is Open
                &&& final(self).idle() == old(self).idle()
                &&& final(self).opened() == old(self).opened() + 1
            },
            old(self).idle().len() == 0 && old(self).opened() == old(self).capacity() ==> {
                &&& r is Wait
                &&& final(self).idle() == old(self).idle()
                &&& final(self).opened() == old(self).opened()
            },
            pool_step(*old(self), *final(self)),
    {
        reveal(pool_step);
        match self.idle.pop() {
            Some(stream) => PoolGet::Reuse(stream),
            None => {
                if self.opened < self.capacity {
                    self.opened = self.opened + 1;
                    PoolGet::Open
                } else {
                    PoolGet::Wait
                }
            },
        }
    }

    /// Takes back a stream that was handed out, to be reused.
    pub fn put_back(&mut self, stream: T)
        requires
            old(self).wf(),
            old(self).in_use() > 0,
        ensures
            final(self).wf(),
            final(self).capacity() == old(self).capacity(),
            final(self).opened() == old(self).opened(),
            final(self).idle() == old(self).idle().push(stream),
            pool_step(*old(self), *final(self)),
    {
        reveal(pool_step);
        self.idle.push(stream);
        assert(self.idle@.drop_last() =~= old(self).idle());
    }
}

/// One change of the pool that `get` or `put_back` may make.
#[verifier::opaque]
pub open spec fn pool_step<T>(a: StreamPool<T>, b: StreamPool<T>) -> bool {
    &&& b.capacity() == a.capacity()
    &&& {
        ||| a.idle().len() > 0 && b.idle() == a.idle().drop_last() && b.opened() == a.opened()
        ||| a.idle().len() == 0 && a.opened() < a.capacity() && b.idle() == a.idle()
            && b.opened() == a.opened() + 1
        ||| a.idle().len() == 0 && a.opened() == a.capacity() && b.idle() == a.idle()
            && b.opened() == a.opened()
        ||| a.in_use() > 0 && b.opened() == a.opened() && b.idle().len() == a.idle().len() + 1
            && b.idle().drop_last() == a.idle()
    }
}

proof fn lemma_pool_step<T>(a: StreamPool<T>, b: StreamPool<T>)
    requires
        a.wf(),
        pool_step(a, b),
    ensures
        b.wf(),
        b.capacity() == a.capacity(),
{
    reveal(pool_step);
}

/// However callers take streams from the pool and put them back, starting
/// from a well-formed pool, it never has more than its capacity of streams
/// opened, nor more idle streams than opened ones.
pub proof fn lemma_pool_never_exceeds_capacity<T>(trace: Seq<StreamPool<T>>)
    requires
        trace.len() > 0,
        trace[0].wf(),
        forall|i: int| 0 <= i < trace.len() - 1 ==> pool_step(#[trigger] trace[i], trace[i + 1]),
    ensures
        forall|i: int| 0 <= i < trace.len() ==> #[trigger] trace[i].wf(),
        forall|i: int| 0 <= i < trace.len() ==> #[trigger] trace[i].capacity() == trace[0].capacity(),
    decreases trace.len(),
{
    if trace.len() > 1 {
        let prefix = trace.drop_last();
        assert forall|i: int| 0 <= i < prefix.len() - 1 implies pool_step(
            #[trigger] prefix[i],
            prefix[i + 1],
        ) by {
            assert(prefix[i] == trace[i] && prefix[i + 1] == trace[i + 1]);
        }
        lemma_pool_never_exceeds_capacity(prefix);
        let n = trace.len() - 1;
        assert(prefix[n - 1] == trace[n - 1]);
        lemma_pool_step(trace[n - 1], trace[n]);
        assert forall|i: int| 0 <= i < trace.len() implies #[trigger] trace[i].wf() by {
            if i < n {
                assert(prefix[i] == trace[i]);
            }
        }
        assert forall|i: int| 0 <= i < trace.len() implies #[trigger] trace[i].capacity()
            == trace[0].capacity() by {
            if i < n {
                assert(prefix[i] == trace[i]);
            }
        }
    }
}

} // verus!
