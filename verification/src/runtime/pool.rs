//! Pools of reusable buffers.

use std::sync::Arc;

use vstd::prelude::*;

verus! {

/// How many buffers of a pool are where.
#[derive(Debug, Clone, Copy, PartialEq, Eq, Structural)]
pub struct PoolStats {
    pub available: usize,
    pub in_use: usize,
    pub high_watermark: usize,
}

/// What there is to know of a pool.
pub struct PoolModel {
    /// The size of a buffer.
    pub buffer_size: nat,
    /// The number of buffers that wait in the pool.
    pub available: nat,
    /// The number of buffers that the pool has made.
    pub allocated: nat,
    /// The largest number of buffers there ever were.
    pub high_watermark: nat,
}

/// A pool of buffers. It makes a new buffer only where none waits.
#[derive(Debug)]
pub struct BufferPool {
    buffers: Vec<Vec<u8>>,
    allocated_count: usize,
    high_watermark: usize,
    buffer_size: usize,
}

impl View for BufferPool {
    type V = PoolModel;

    closed spec fn view(&self) -> PoolModel {
        PoolModel {
            buffer_size: self.buffer_size as nat,
            available: self.buffers@.len(),
            allocated: self.allocated_count as nat,
            high_watermark: self.high_watermark as nat,
        }
    }
}

/// The number of buffers of a pool that are in use.
pub open spec fn in_use(pool: PoolModel) -> nat {
    if pool.allocated >= pool.available {
        (pool.allocated - pool.available) as nat
    } else {
        0
    }
}

/// Whether a pool counts its buffers right: none waits that was not made, and the
/// high watermark is the number made.
pub open spec fn consistent(pool: PoolModel) -> bool {
    pool.available <= pool.allocated && pool.high_watermark == pool.allocated
}

/// A pool that has not made any buffer.
pub open spec fn empty_pool(buffer_size: nat) -> PoolModel {
    PoolModel {
        buffer_size: if buffer_size == 0 {
            1
        } else {
            buffer_size
        },
        available: 0,
        allocated: 0,
        high_watermark: 0,
    }
}

/// A pool after a buffer was taken from it.
pub open spec fn after_acquire(pool: PoolModel) -> PoolModel {
    if pool.available > 0 {
        PoolModel { available: (pool.available - 1) as nat, ..pool }
    } else {
        let allocated = pool.allocated + 1;
        PoolModel {
            allocated,
            high_watermark: if pool.high_watermark >= allocated {
                pool.high_watermark
            } else {
                allocated
            },
            ..pool
        }
    }
}

/// A pool after a buffer came back to it. Where none is in use, the buffer is not one of
/// its own, and is not kept.
pub open spec fn after_release(pool: PoolModel) -> PoolModel {
    if in_use(pool) > 0 {
        PoolModel { available: pool.available + 1, ..pool }
    } else {
        pool
    }
}

/// A pool after a number of buffers were made for it.
pub open spec fn after_preallocate(pool: PoolModel, count: nat) -> PoolModel {
    let allocated = pool.allocated + count;
    PoolModel {
        available: pool.available + count,
        allocated,
        high_watermark: if pool.high_watermark >= allocated {
            pool.high_watermark
        } else {
            allocated
        },
        ..pool
    }
}

impl BufferPool {
    #[verifier::type_invariant]
    spec fn counts_right(self) -> bool {
        consistent(self@)
    }

    /// An empty pool of buffers of at least one byte.
    pub fn new(buffer_size: usize) -> (r: Self)
        ensures
            r@ == empty_pool(buffer_size as nat),
            consistent(r@),
    {
        BufferPool {
            buffers: Vec::new(),
            allocated_count: 0,
            high_watermark: 0,
            buffer_size: if buffer_size == 0 {
                1
            } else {
                buffer_size
            },
        }
    }

    /// Makes a number of buffers in advance.
    pub fn preallocate(&mut self, count: usize)
        requires
            old(self)@.allocated + count <= usize::MAX,
            old(self)@.buffer_size <= isize::MAX,
        ensures
            final(self)@ == after_preallocate(old(self)@, count as nat),
            consistent(old(self)@),
            consistent(final(self)@),
    {
        proof {
            use_type_invariant(&*self);
        }
        let buffer_size: usize = self.buffer_size;
        let mut buffers: Vec<Vec<u8>> = Vec::new();
        std::mem::swap(&mut buffers, &mut self.buffers);
        let mut i: usize = 0;
        while i < count
            invariant
                i <= count,
                buffers@.len() == old(self)@.available + i,
            decreases count - i,
        {
            let buffer: Vec<u8> = Vec::with_capacity(buffer_size);
            buffers.push(buffer);
            i += 1;
        }
        let allocated_count: usize = self.allocated_count + count;
        *self = BufferPool {
            buffers,
            allocated_count,
            high_watermark: if self.high_watermark < allocated_count {
                allocated_count
            } else {
                self.high_watermark
            },
            buffer_size,
        };
    }

    /// How many buffers are where: each is either waiting or in use, and none is ever
    /// given up.
    pub fn stats(&self) -> (r: PoolStats)
        ensures
            r.available == self@.available,
            r.in_use == in_use(self@),
            r.high_watermark == self@.high_watermark,
            r.available + r.in_use == r.high_watermark,
            consistent(self@),
    {
        proof {
            use_type_invariant(self);
        }
        PoolStats {
            available: self.buffers.len(),
            in_use: self.allocated_count.saturating_sub(self.buffers.len()),
            high_watermark: self.high_watermark,
        }
    }

    /// The most bytes that the buffers of the pool ever took.
    pub fn high_watermark_bytes(&self) -> (r: usize)
        requires
            self@.high_watermark * self@.buffer_size <= usize::MAX,
        ensures
            r == self@.high_watermark * self@.buffer_size,
    {
        self.high_watermark * self.buffer_size
    }

    /// Takes an empty buffer: one that waits, or a new one.
    pub fn acquire(&mut self) -> (r: MediaBuffer)
        requires
            old(self)@.available > 0 || old(self)@.allocated < usize::MAX,
            old(self)@.buffer_size <= isize::MAX,
        ensures
            r@ == Seq::<u8>::empty(),
            final(self)@ == after_acquire(old(self)@),
            in_use(final(self)@) == in_use(old(self)@) + 1,
            consistent(old(self)@),
            consistent(final(self)@),
    {
        proof {
            use_type_invariant(&*self);
        }
        let buffer_size: usize = self.buffer_size;
        let mut allocated_count: usize = self.allocated_count;
        let mut high_watermark: usize = self.high_watermark;
        let mut buffers: Vec<Vec<u8>> = Vec::new();
        std::mem::swap(&mut buffers, &mut self.buffers);
        let mut bytes: Vec<u8> = match buffers.pop() {
            Some(buffer) => buffer,
            None => {
                allocated_count = allocated_count + 1;
                if high_watermark < allocated_count {
                    high_watermark = allocated_count;
                }
                Vec::with_capacity(buffer_size)
            },
        };
        bytes.clear();
        *self = BufferPool { buffers, allocated_count, high_watermark, buffer_size };
        MediaBuffer { bytes }
    }

    /// Takes a buffer back.
    pub fn release(&mut self, buffer: MediaBuffer)
        ensures
            final(self)@ == after_release(old(self)@),
            consistent(old(self)@),
            consistent(final(self)@),
    {
        proof {
            use_type_invariant(&*self);
        }
        if self.buffers.len() < self.allocated_count {
            let mut bytes = buffer.bytes;
            bytes.clear();
            let mut buffers: Vec<Vec<u8>> = Vec::new();
            std::mem::swap(&mut buffers, &mut self.buffers);
            buffers.push(bytes);
            self.buffers = buffers;
        }
    }

    /// Gives up one handle of a shared buffer. The buffer comes back to the pool with
    /// the last of them; returns whether this was the last, which the others decide.
    pub fn reclaim(&mut self, buffer: PooledBuffer) -> (r: bool)
        ensures
            exists|given_up: Option<MediaBuffer>| #[trigger]
                buffer.gives_up(given_up) && r == (given_up is Some),
            final(self)@ == (if r {
                after_release(old(self)@)
            } else {
                old(self)@
            }),
    {
        let given_up = last_handle(buffer.buffer);
        assert(buffer.gives_up(given_up));
        self.take_back(given_up)
    }

    /// Takes back what a handle of a shared buffer gave up: the buffer, or nothing while
    /// other handles hold it. Returns whether a buffer came back.
    pub fn take_back(&mut self, given_up: Option<MediaBuffer>) -> (r: bool)
        ensures
            r == (given_up is Some),
            final(self)@ == (if given_up is Some {
                after_release(old(self)@)
            } else {
                old(self)@
            }),
    {
        match given_up {
            Some(buffer) => {
                self.release(buffer);
                true
            },
            None => false,
        }
    }
}

/// What the last handle of a shared value holds, by `Arc::into_inner`. Whether a handle
/// is the last depends on which others are alive; where it is, the value comes out
/// unchanged.
#[verifier::external_body]
fn last_handle(buffer: Arc<MediaBuffer>) -> (r: Option<MediaBuffer>)
    ensures
        r matches Some(value) ==> value == *buffer,
{
    Arc::into_inner(buffer)
}

/// A buffer that is being filled. Its view is the bytes it holds.
#[derive(Debug, PartialEq, Eq)]
pub struct MediaBuffer {
    bytes: Vec<u8>,
}

impl View for MediaBuffer {
    type V = Seq<u8>;

    closed spec fn view(&self) -> Seq<u8> {
        self.bytes@
    }
}

impl MediaBuffer {
    /// The bytes of the buffer.
    pub fn as_slice(&self) -> (r: &[u8])
        ensures
            r@ == self@,
    {
        self.bytes.as_slice()
    }

    /// The bytes of the buffer, to be changed.
    pub fn as_mut_vec(&mut self) -> (r: &mut Vec<u8>)
        ensures
            r@ == old(self)@,
            final(self)@ == final(r)@,
    {
        &mut self.bytes
    }

    /// Appends bytes.
    pub fn extend_from_slice(&mut self, payload: &[u8])
        ensures
            final(self)@ == old(self)@ + payload@,
    {
        self.bytes.extend_from_slice(payload);
        assert(self@ =~= old(self)@ + payload@);
    }

    /// The number of bytes.
    pub fn len(&self) -> (r: usize)
        ensures
            r == self@.len(),
    {
        self.bytes.len()
    }

    /// Whether there are no bytes.
    pub fn is_empty(&self) -> (r: bool)
        ensures
            r == (self@.len() == 0),
    {
        self.bytes.len() == 0
    }

    /// Ends the filling: from here on the buffer can be shared, and not be changed.
    pub fn freeze(self) -> (r: PooledBuffer)
        ensures
            r@ == self@,
    {
        PooledBuffer { buffer: Arc::new(self) }
    }
}

/// A filled buffer that can be shared. Its view is the bytes it holds.
#[derive(Debug, PartialEq, Eq)]
pub struct PooledBuffer {
    buffer: Arc<MediaBuffer>,
}

impl View for PooledBuffer {
    type V = Seq<u8>;

    closed spec fn view(&self) -> Seq<u8> {
        self.buffer@
    }
}

impl PooledBuffer {
    /// Whether giving up this handle may yield what is given: the buffer, where no other
    /// handle is alive, or nothing.
    pub closed spec fn gives_up(&self, given_up: Option<MediaBuffer>) -> bool {
        call_ensures(last_handle, (self.buffer,), given_up)
    }

    /// The bytes of the buffer.
    pub fn as_slice(&self) -> (r: &[u8])
        ensures
            r@ == self@,
    {
        self.buffer.as_slice()
    }

    /// The number of bytes.
    pub fn len(&self) -> (r: usize)
        ensures
            r == self@.len(),
    {
        self.buffer.len()
    }

    /// Whether there are no bytes.
    pub fn is_empty(&self) -> (r: bool)
        ensures
            r == (self@.len() == 0),
    {
        self.buffer.is_empty()
    }
}

impl Clone for PooledBuffer {
    fn clone(&self) -> (r: Self)
        ensures
            r == *self,
    {
        PooledBuffer { buffer: Arc::clone(&self.buffer) }
    }
}

// ---------------------------------------------------------------------------
// Laws
// ---------------------------------------------------------------------------

/// What can be done with a pool.
pub enum PoolCall {
    /// Make a number of buffers in advance.
    Preallocate(nat),
    /// Take a buffer.
    Acquire,
    /// Bring one back.
    Release,
}

/// A pool after a call.
pub open spec fn after_call(pool: PoolModel, call: PoolCall) -> PoolModel {
    match call {
        PoolCall::Preallocate(count) => after_preallocate(pool, count),
        PoolCall::Acquire => after_acquire(pool),
        PoolCall::Release => after_release(pool),
    }
}

/// A pool after a row of calls.
pub open spec fn after_calls(pool: PoolModel, calls: Seq<PoolCall>) -> PoolModel
    decreases calls.len(),
{
    if calls.len() == 0 {
        pool
    } else {
        after_call(after_calls(pool, calls.drop_last()), calls.last())
    }
}

/// How many buffers a row of calls took and did not bring back; what is brought back
/// while none is out does not count.
pub open spec fn still_out(calls: Seq<PoolCall>) -> nat
    decreases calls.len(),
{
    if calls.len() == 0 {
        0
    } else {
        let before = still_out(calls.drop_last());
        match calls.last() {
            PoolCall::Preallocate(_) => before,
            PoolCall::Acquire => before + 1,
            PoolCall::Release => if before > 0 {
                (before - 1) as nat
            } else {
                0
            },
        }
    }
}

/// After any row of calls a pool counts its buffers right: those in use are the ones
/// that were taken and did not come back, and every buffer ever made is waiting or in
/// use.
pub proof fn pools_always_count_right(buffer_size: nat, calls: Seq<PoolCall>)
    ensures
        ({
            let pool = after_calls(empty_pool(buffer_size), calls);
            &&& consistent(pool)
            &&& in_use(pool) == still_out(calls)
            &&& pool.high_watermark == pool.available + in_use(pool)
            &&& pool.buffer_size == empty_pool(buffer_size).buffer_size
        }),
    decreases calls.len(),
{
    if calls.len() > 0 {
        pools_always_count_right(buffer_size, calls.drop_last());
    }
}

/// Every call keeps a pool consistent.
pub proof fn pools_stay_consistent(pool: PoolModel, call: PoolCall)
    requires
        consistent(pool),
    ensures
        consistent(after_call(pool, call)),
{
}

/// In a consistent pool every buffer is either waiting or in use.
pub proof fn buffers_are_waiting_or_in_use(pool: PoolModel)
    requires
        consistent(pool),
    ensures
        pool.available + in_use(pool) == pool.allocated,
{
}

/// Making buffers in advance leaves that many more waiting, and as many in use as before.
pub proof fn preallocated_buffers_wait(pool: PoolModel, count: nat)
    requires
        consistent(pool),
    ensures
        ({
            let after = after_preallocate(pool, count);
            &&& after.available == pool.available + count
            &&& in_use(after) == in_use(pool)
            &&& after.high_watermark == pool.available + in_use(pool) + count
        }),
{
}

/// Taking a buffer and giving it back leaves no buffer more in use, and no buffer less
/// waiting, than before.
pub proof fn giving_back_undoes_taking(pool: PoolModel)
    requires
        consistent(pool),
    ensures
        in_use(after_release(after_acquire(pool))) == in_use(pool),
        pool.available > 0 ==> after_release(after_acquire(pool)) == pool,
{
}

/// Taking a buffer puts exactly one more in use. One that waits is taken first; only
/// where none waits, the pool grows by one.
pub proof fn taking_uses_one_more(pool: PoolModel)
    requires
        consistent(pool),
    ensures
        ({
            let after = after_acquire(pool);
            &&& in_use(after) == in_use(pool) + 1
            &&& pool.available > 0 ==> after.available == pool.available - 1
                && after.high_watermark == pool.high_watermark
            &&& pool.available == 0 ==> after.available == 0 && after.high_watermark
                == pool.high_watermark + 1
        }),
{
}

/// The high watermark never falls.
pub proof fn the_watermark_never_falls(pool: PoolModel, count: nat)
    ensures
        after_acquire(pool).high_watermark >= pool.high_watermark,
        after_release(pool).high_watermark == pool.high_watermark,
        after_preallocate(pool, count).high_watermark >= pool.high_watermark,
{
}

/// A pool makes its buffers as large as asked, and at least of one byte; it starts without
/// any.
pub proof fn pools_start_empty(buffer_size: nat)
    ensures
        empty_pool(0).buffer_size == 1,
        buffer_size > 0 ==> empty_pool(buffer_size).buffer_size == buffer_size,
        empty_pool(buffer_size).available == 0,
        empty_pool(buffer_size).allocated == 0,
        in_use(empty_pool(buffer_size)) == 0,
{
}

/// Giving a buffer back makes it wait for the next taker and makes no new one; where none
/// is out, nothing changes.
pub proof fn giving_back_makes_no_buffers(pool: PoolModel)
    requires
        consistent(pool),
    ensures
        in_use(pool) > 0 ==> {
            &&& in_use(after_release(pool)) == in_use(pool) - 1
            &&& after_release(pool).available == pool.available + 1
            &&& after_release(pool).allocated == pool.allocated
            &&& after_release(pool).buffer_size == pool.buffer_size
        },
        in_use(pool) == 0 ==> after_release(pool) == pool,
{
}

/// A buffer that is taken is empty and counts as in use until it is given back.
pub proof fn buffers_are_counted_while_in_use(
    pool: &mut BufferPool,
    buffer: MediaBuffer,
    back: &mut BufferPool,
)
    requires
        old(pool)@.available > 0 || old(pool)@.allocated < usize::MAX,
        old(pool)@.buffer_size <= isize::MAX,
        call_ensures(BufferPool::acquire, (pool,), buffer),
        old(back)@ == final(pool)@,
        call_ensures(BufferPool::release, (back, buffer), ()),
    ensures
        buffer@.len() == 0,
        in_use(final(pool)@) == in_use(old(pool)@) + 1,
        in_use(final(back)@) == in_use(old(pool)@),
        final(back)@.available + in_use(final(back)@) == final(back)@.high_watermark,
{
    giving_back_makes_no_buffers(old(back)@);
}

} // verus!
