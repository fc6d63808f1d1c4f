//! A bounded single-producer / single-consumer FIFO ring buffer.
//!
//! The ring has `N` slots, `N` a power of two; indices advance with the mask
//! `N - 1`, and one slot always stays empty so that `head == tail` means
//! "empty" and `head + 1 == tail` (modulo `N`) means "full". Its usable
//! capacity is therefore `N - 1`.
//!
//! `RingBuffer` is the ring itself, with exact contracts over the queue it
//! holds. `Producer` and `Consumer` are the two handles of one ring shared
//! between two threads: the ring sits behind a lock whose invariant is that it
//! is well formed with `N` slots, and each handle operation takes the lock,
//! runs the `RingBuffer` operation and releases it. Each handle records the
//! queue as its last operation found it and left it, and its contracts state
//! the operation exactly over those records; what the other thread did in
//! between two operations of a handle is not tied to them.
use std::sync::Arc;
use vstd::prelude::*;
use vstd::rwlock::{RwLock, RwLockPredicate};

verus! {

/// `n` is a power of two (and so not zero).
pub open spec fn is_power_of_two(n: usize) -> bool {
    n != 0 && n & ((n - 1) as usize) == 0
}

/// The index that follows `i` on a ring of `n` slots.
pub open spec fn ring_next(i: int, n: int) -> int {
    if i + 1 == n {
        0
    } else {
        i + 1
    }
}

/// Position `j` (with `0 <= j < 2n`) folded back onto a ring of `n` slots.
pub open spec fn ring_wrap(j: int, n: int) -> int {
    if j < n {
        j
    } else {
        j - n
    }
}

/// Number of occupied slots between `tail` (first occupied) and `head` (first free).
pub open spec fn ring_count(head: int, tail: int, n: int) -> int {
    if head >= tail {
        head - tail
    } else {
        n - tail + head
    }
}

/// Advancing an index of a power-of-two ring by one with the mask wraps at the end.
proof fn lemma_mask_next(i: usize, n: usize)
    requires
        is_power_of_two(n),
        i < n,
    ensures
        ((i + 1) as usize) & ((n - 1) as usize) == ring_next(i as int, n as int),
{
    assert((if i + 1 == n { 0usize } else { (i + 1) as usize }) == ((i + 1) as usize) & ((n
        - 1) as usize)) by (bit_vector)
        requires
            n != 0,
            n & ((n - 1) as usize) == 0,
            i < n,
    ;
}

/// Index after `i` on a ring of `n` slots, computed with the mask `n - 1`.
pub fn next_index(i: usize, n: usize) -> (r: usize)
    requires
        is_power_of_two(n),
        i < n,
    ensures
        r == ring_next(i as int, n as int),
        r < n,
{
    proof {
        lemma_mask_next(i, n);
    }
    (i + 1) & (n - 1)
}

/// Free slots a producer may still fill, seen from its `head` and the consumer's `tail`.
pub fn available_space(head: usize, tail: usize, n: usize) -> (r: usize)
    requires
        head < n,
        tail < n,
    ensures
        r == n - 1 - ring_count(head as int, tail as int, n as int),
{
    if head >= tail {
        n - head + tail - 1
    } else {
        tail - head - 1
    }
}

/// Items a consumer may take, seen from the producer's `head` and its own `tail`.
pub fn available_data(head: usize, tail: usize, n: usize) -> (r: usize)
    requires
        head < n,
        tail < n,
    ensures
        r == ring_count(head as int, tail as int, n as int),
{
    if head >= tail {
        head - tail
    } else {
        n - tail + head
    }
}

/// What a single push leaves queued in a ring of usable capacity `cap`:
/// `x` is appended unless the ring is full.
pub open spec fn queue_after_push<T>(q: Seq<T>, cap: int, x: T) -> Seq<T> {
    if q.len() < cap {
        q.push(x)
    } else {
        q
    }
}

/// What a single pop leaves queued: the oldest item leaves, if there is one.
pub open spec fn queue_after_pop<T>(q: Seq<T>) -> Seq<T> {
    if q.len() > 0 {
        q.drop_first()
    } else {
        q
    }
}

/// How many leading items of `data` a slice push takes: as many as there is room for.
pub open spec fn push_count<T>(q: Seq<T>, cap: int, data: Seq<T>) -> int {
    vstd::math::min(cap - q.len(), data.len() as int)
}

/// How many items a slice pop into an output of `room` slots takes.
pub open spec fn pop_count<T>(q: Seq<T>, room: int) -> int {
    vstd::math::min(q.len() as int, room)
}

/// The queue after pushing the items of `data` one at a time, stopping at the
/// first push that finds the ring full.
pub open spec fn queue_after_single_pushes<T>(q: Seq<T>, cap: int, data: Seq<T>) -> Seq<T>
    decreases data.len(),
{
    if data.len() == 0 || q.len() >= cap {
        q
    } else {
        queue_after_single_pushes(queue_after_push(q, cap, data[0]), cap, data.drop_first())
    }
}

/// How many of those single pushes succeed.
pub open spec fn single_pushes_accepted<T>(q: Seq<T>, cap: int, data: Seq<T>) -> int
    decreases data.len(),
{
    if data.len() == 0 || q.len() >= cap {
        0
    } else {
        1 + single_pushes_accepted(queue_after_push(q, cap, data[0]), cap, data.drop_first())
    }
}

/// A slice push is the same as pushing its items one at a time until the first
/// push that fails: it leaves the same queue and takes as many items.
pub proof fn lemma_push_slice_is_repeated_push<T>(q: Seq<T>, cap: int, data: Seq<T>)
    requires
        q.len() <= cap,
    ensures
        queue_after_single_pushes(q, cap, data) == q + data.take(push_count(q, cap, data)),
        single_pushes_accepted(q, cap, data) == push_count(q, cap, data),
    decreases data.len(),
{
    if data.len() == 0 || q.len() >= cap {
        assert(data.take(push_count(q, cap, data)) =~= Seq::<T>::empty());
        assert(q + Seq::<T>::empty() =~= q);
    } else {
        let q1 = q.push(data[0]);
        let rest = data.drop_first();
        lemma_push_slice_is_repeated_push(q1, cap, rest);
        assert(push_count(q1, cap, rest) == push_count(q, cap, data) - 1);
        assert(q1 + rest.take(push_count(q1, cap, rest)) =~= q + data.take(
            push_count(q, cap, data),
        ));
    }
}

/// The ring itself: `N` slots, a write index `head` and a read index `tail`.
pub struct RingBuffer<T> {
    buf: Vec<T>,
    head: usize,
    tail: usize,
}

impl<T> RingBuffer<T> {
    /// Number of physical slots (`N`).
    pub closed spec fn slots(&self) -> nat {
        self.buf@.len()
    }

    /// Usable capacity: one slot is always left empty.
    pub open spec fn capacity(&self) -> int {
        self.slots() - 1
    }

    /// The ring's indices stay inside a power-of-two array.
    pub closed spec fn wf(&self) -> bool {
        &&& self.buf@.len() <= usize::MAX
        &&& is_power_of_two(self.buf@.len() as usize)
        &&& self.head < self.buf@.len()
        &&& self.tail < self.buf@.len()
    }

    /// Creates an empty ring of `n` slots, every slot holding `fill`.
    pub fn new(n: usize, fill: T) -> (r: Self) where T: Copy
        requires
            is_power_of_two(n),
        ensures
            r.wf(),
            r.slots() == n,
            r@ == Seq::<T>::empty(),
    {
        let mut buf: Vec<T> = Vec::with_capacity(n);
        let mut i: usize = 0;
        while i < n
            invariant
                i <= n,
                buf@.len() == i,
            decreases n - i,
        {
            buf.push(fill);
            i = i + 1;
        }
        let r = RingBuffer { buf, head: 0, tail: 0 };
        assert(r@ =~= Seq::<T>::empty());
        r
    }

    /// Number of slots.
    pub fn slot_count(&self) -> (r: usize)
        requires
            self.wf(),
        ensures
            r == self.slots(),
    {
        self.buf.len()
    }

    /// Number of queued items.
    pub fn len(&self) -> (r: usize)
        requires
            self.wf(),
        ensures
            r == self@.len(),
    {
        available_data(self.head, self.tail, self.buf.len())
    }

    /// Number of items that can still be pushed.
    pub fn free_space(&self) -> (r: usize)
        requires
            self.wf(),
        ensures
            r == self.capacity() - self@.len(),
    {
        available_space(self.head, self.tail, self.buf.len())
    }

    /// Writes `x` at `head` and advances it: the caller has checked there is room.
    fn push_unchecked(&mut self, x: T)
        requires
            old(self).wf(),
            old(self)@.len() < old(self).capacity(),
        ensures
            final(self).wf(),
            final(self).slots() == old(self).slots(),
            final(self)@ == old(self)@.push(x),
    {
        let ghost old_view = self@;
        let n = self.buf.len();
        let h = self.head;
        self.buf.set(h, x);
        self.head = next_index(h, n);
        assert(self@ =~= old_view.push(x));
    }

    /// Reads the item at `tail` and advances it: the caller has checked the ring is not empty.
    fn pop_unchecked(&mut self) -> (x: T) where T: Copy
        requires
            old(self).wf(),
            old(self)@.len() > 0,
        ensures
            final(self).wf(),
            final(self).slots() == old(self).slots(),
            x == old(self)@[0],
            final(self)@ == old(self)@.drop_first(),
    {
        let ghost old_view = self@;
        let n = self.buf.len();
        let t = self.tail;
        let x = self.buf[t];
        self.tail = next_index(t, n);
        assert(self@ =~= old_view.drop_first());
        x
    }

    /// Appends `x` unless the ring is full; returns whether it was appended.
    pub fn push(&mut self, x: T) -> (pushed: bool)
        requires
            old(self).wf(),
        ensures
            final(self).wf(),
            final(self).slots() == old(self).slots(),
            pushed == (old(self)@.len() < old(self).capacity()),
            final(self)@ == queue_after_push(old(self)@, old(self).capacity(), x),
    {
        let n = self.buf.len();
        let next = next_index(self.head, n);
        if next == self.tail {
            false
        } else {
            self.push_unchecked(x);
            true
        }
    }

    /// Removes and returns the oldest item, or `None` when the ring is empty.
    pub fn pop(&mut self) -> (r: Option<T>) where T: Copy
        requires
            old(self).wf(),
        ensures
            final(self).wf(),
            final(self).slots() == old(self).slots(),
            r == (if old(self)@.len() > 0 {
                Some(old(self)@[0])
            } else {
                None
            }),
            final(self)@ == queue_after_pop(old(self)@),
    {
        if self.head == self.tail {
            None
        } else {
            Some(self.pop_unchecked())
        }
    }

    /// Appends as many leading items of `data` as fit; returns how many were appended.
    pub fn push_slice(&mut self, data: &[T]) -> (pushed: usize) where T: Copy
        requires
            old(self).wf(),
        ensures
            final(self).wf(),
            final(self).slots() == old(self).slots(),
            pushed == push_count(old(self)@, old(self).capacity(), data@),
            final(self)@ == old(self)@ + data@.take(pushed as int),
    {
        let amount = if self.free_space() < data.len() {
            self.free_space()
        } else {
            data.len()
        };
        let ghost old_view = self@;
        let mut i: usize = 0;
        while i < amount
            invariant
                self.wf(),
                self.slots() == old(self).slots(),
                i <= amount,
                amount <= data@.len(),
                old_view.len() + amount <= self.capacity(),
                self@ == old_view + data@.take(i as int),
            decreases amount - i,
        {
            self.push_unchecked(data[i]);
            assert(data@.take(i as int).push(data@[i as int]) =~= data@.take(i + 1));
            i = i + 1;
        }
        amount
    }

    /// Moves as many of the oldest items as fit into `output`, front first;
    /// returns how many were moved. Slots of `output` past that count are untouched.
    pub fn pop_slice(&mut self, output: &mut [T]) -> (popped: usize) where T: Copy
        requires
            old(self).wf(),
        ensures
            final(self).wf(),
            final(self).slots() == old(self).slots(),
            popped == pop_count(old(self)@, old(output)@.len() as int),
            final(output)@.len() == old(output)@.len(),
            final(output)@.take(popped as int) == old(self)@.take(popped as int),
            final(output)@.skip(popped as int) == old(output)@.skip(popped as int),
            final(self)@ == old(self)@.skip(popped as int),
    {
        let ghost old_out = output@;
        let popped = self.pop_slice_at(output, 0);
        assert(output@.take(popped as int) =~= output@.subrange(0, popped as int));
        assert(old_out.skip(popped as int) =~= old_out.skip(0 + popped));
        popped
    }

    /// Like `pop_slice`, but fills `output` from position `start` on; the slots
    /// before `start`, and those after the popped items, are untouched.
    pub fn pop_slice_at(&mut self, output: &mut [T], start: usize) -> (popped: usize) where
        T: Copy,

        requires
            old(self).wf(),
            start <= old(output)@.len(),
        ensures
            final(self).wf(),
            final(self).slots() == old(self).slots(),
            popped == pop_count(old(self)@, old(output)@.len() - start),
            final(output)@.len() == old(output)@.len(),
            final(output)@.take(start as int) == old(output)@.take(start as int),
            final(output)@.subrange(start as int, start + popped) == old(self)@.take(popped as int),
            final(output)@.skip(start + popped) == old(output)@.skip(start + popped),
            final(self)@ == old(self)@.skip(popped as int),
    {
        let available = self.len();
        let room = output.len() - start;
        let amount = if available < room {
            available
        } else {
            room
        };
        let ghost old_view = self@;
        let ghost old_out = output@;
        let end = start + amount;
        let mut i: usize = 0;
        while i < amount
            invariant
                self.wf(),
                self.slots() == old(self).slots(),
                i <= amount,
                amount <= old_view.len(),
                end == start + amount,
                end <= old_out.len(),
                output@.len() == old_out.len(),
                self@ == old_view.skip(i as int),
                forall|k: int| 0 <= k < start ==> output@[k] == old_out[k],
                forall|k: int| 0 <= k < i ==> output@[start + k] == old_view[k],
                forall|k: int| start + i <= k < old_out.len() ==> output@[k] == old_out[k],
            decreases amount - i,
        {
            let x = self.pop_unchecked();
            output[start + i] = x;
            assert(old_view.skip(i as int).drop_first() =~= old_view.skip(i + 1));
            i = i + 1;
        }
        assert(output@.take(start as int) =~= old_out.take(start as int));
        assert(output@.subrange(start as int, start + amount) =~= old_view.take(amount as int));
        assert(output@.skip(start + amount) =~= old_out.skip(start + amount));
        amount
    }
}

impl<T> View for RingBuffer<T> {
    type V = Seq<T>;

    /// The queued items, oldest first.
    closed spec fn view(&self) -> Seq<T> {
        let n = self.buf@.len() as int;
        Seq::new(
            ring_count(self.head as int, self.tail as int, n) as nat,
            |i: int| self.buf@[ring_wrap(self.tail + i, n)],
        )
    }
}

/// One operation on a ring, as the producer and the consumer see it: the
/// single and slice pushes of `RingBuffer::push`/`push_slice` and the single
/// and slice pops of `RingBuffer::pop`/`pop_slice` (with an output of `n` slots).
pub ghost enum RingOp<T> {
    Push(T),
    Pop,
    PushSlice(Seq<T>),
    PopSlice(nat),
}

/// Items an operation takes into the ring from `q` (see the push ensures).
pub open spec fn op_accepted<T>(q: Seq<T>, cap: int, op: RingOp<T>) -> Seq<T> {
    match op {
        RingOp::Push(x) => if q.len() < cap {
            seq![x]
        } else {
            Seq::empty()
        },
        RingOp::PushSlice(d) => d.take(push_count(q, cap, d)),
        RingOp::Pop => Seq::empty(),
        RingOp::PopSlice(_) => Seq::empty(),
    }
}

/// Items an operation hands out of the ring from `q` (see the pop ensures).
pub open spec fn op_delivered<T>(q: Seq<T>, op: RingOp<T>) -> Seq<T> {
    match op {
        RingOp::Pop => q.take(pop_count(q, 1)),
        RingOp::PopSlice(n) => q.take(pop_count(q, n as int)),
        RingOp::Push(_) => Seq::empty(),
        RingOp::PushSlice(_) => Seq::empty(),
    }
}

/// What an operation leaves queued (see the ensures of the four operations).
pub open spec fn op_queue<T>(q: Seq<T>, cap: int, op: RingOp<T>) -> Seq<T> {
    match op {
        RingOp::Push(x) => queue_after_push(q, cap, x),
        RingOp::Pop => queue_after_pop(q),
        RingOp::PushSlice(d) => q + d.take(push_count(q, cap, d)),
        RingOp::PopSlice(n) => q.skip(pop_count(q, n as int)),
    }
}

/// The queue after running `ops` from `q`.
pub open spec fn run_queue<T>(q: Seq<T>, cap: int, ops: Seq<RingOp<T>>) -> Seq<T>
    decreases ops.len(),
{
    if ops.len() == 0 {
        q
    } else {
        run_queue(op_queue(q, cap, ops[0]), cap, ops.drop_first())
    }
}

/// Everything the ring took in while running `ops` from `q`, in order.
pub open spec fn run_accepted<T>(q: Seq<T>, cap: int, ops: Seq<RingOp<T>>) -> Seq<T>
    decreases ops.len(),
{
    if ops.len() == 0 {
        Seq::empty()
    } else {
        op_accepted(q, cap, ops[0]) + run_accepted(op_queue(q, cap, ops[0]), cap, ops.drop_first())
    }
}

/// Everything the ring handed out while running `ops` from `q`, in order.
pub open spec fn run_delivered<T>(q: Seq<T>, cap: int, ops: Seq<RingOp<T>>) -> Seq<T>
    decreases ops.len(),
{
    if ops.len() == 0 {
        Seq::empty()
    } else {
        op_delivered(q, ops[0]) + run_delivered(op_queue(q, cap, ops[0]), cap, ops.drop_first())
    }
}

proof fn lemma_op_step<T>(q: Seq<T>, cap: int, op: RingOp<T>)
    requires
        q.len() <= cap,
    ensures
        q + op_accepted(q, cap, op) == op_delivered(q, op) + op_queue(q, cap, op),
        op_queue(q, cap, op).len() <= cap,
{
    match op {
        RingOp::Push(x) => {
            assert(q + op_accepted(q, cap, op) =~= op_delivered(q, op) + op_queue(q, cap, op));
        },
        RingOp::Pop => {
            assert(q + op_accepted(q, cap, op) =~= op_delivered(q, op) + op_queue(q, cap, op));
        },
        RingOp::PushSlice(d) => {
            assert(q + op_accepted(q, cap, op) =~= op_delivered(q, op) + op_queue(q, cap, op));
        },
        RingOp::PopSlice(n) => {
            assert(q + op_accepted(q, cap, op) =~= op_delivered(q, op) + op_queue(q, cap, op));
        },
    }
}

/// First in, first out, nothing lost, nothing duplicated: for every sequence of
/// pushes and pops, what was queued at the start followed by everything the ring
/// accepted equals everything it handed out followed by what is still queued;
/// and the ring never holds more than its usable capacity.
pub proof fn lemma_fifo<T>(q: Seq<T>, cap: int, ops: Seq<RingOp<T>>)
    requires
        q.len() <= cap,
    ensures
        q + run_accepted(q, cap, ops) == run_delivered(q, cap, ops) + run_queue(q, cap, ops),
        run_queue(q, cap, ops).len() <= cap,
    decreases ops.len(),
{
    if ops.len() == 0 {
        assert(q + run_accepted(q, cap, ops) =~= run_delivered(q, cap, ops) + run_queue(
            q,
            cap,
            ops,
        ));
    } else {
        let op = ops[0];
        let q1 = op_queue(q, cap, op);
        let rest = ops.drop_first();
        lemma_op_step(q, cap, op);
        lemma_fifo(q1, cap, rest);
        let a1 = op_accepted(q, cap, op);
        let d1 = op_delivered(q, op);
        let a = run_accepted(q1, cap, rest);
        let d = run_delivered(q1, cap, rest);
        let qf = run_queue(q1, cap, rest);
        assert(q + (a1 + a) =~= (q + a1) + a);
        assert((d1 + q1) + a =~= d1 + (q1 + a));
        assert(d1 + (d + qf) =~= (d1 + d) + qf);
    }
}

/// A well-formed ring never holds more than its usable capacity of `N - 1` items.
pub proof fn lemma_len_within_capacity<T>(r: RingBuffer<T>)
    requires
        r.wf(),
    ensures
        r@.len() <= r.capacity(),
        r.capacity() >= 0,
{
}

/// The lock's invariant: the shared ring is well formed and has `N` slots.
pub struct RingShape<const N: usize>;

impl<T, const N: usize> RwLockPredicate<RingBuffer<T>> for RingShape<N> {
    open spec fn inv(self, v: RingBuffer<T>) -> bool {
        v.wf() && v.slots() == N
    }
}

/// The ring shared by one producer and one consumer.
type SharedRing<T, const N: usize> = Arc<RwLock<RingBuffer<T>, RingShape<N>>>;

/// A second owner of the same shared allocation (`Arc::clone`).
#[verifier::external_body]
fn share<X>(a: &Arc<X>) -> (r: Arc<X>)
    ensures
        r == *a,
{
    Arc::clone(a)
}

/// The producer handle. Can only push.
///
/// Each operation runs while the handle holds the lock, and takes effect on the
/// queue as the handle found it then; the handle keeps that queue and the queue
/// it left behind (`found`, `left`), and its contracts state the operation
/// exactly over them. What the consumer does between two operations of the
/// producer is not tied to these records.
pub struct Producer<T, const N: usize> {
    core: SharedRing<T, N>,
    found: Ghost<Seq<T>>,
    left: Ghost<Seq<T>>,
}

/// The consumer handle. Can only pop. Like the producer, it keeps the queue as
/// its last operation found it and left it.
pub struct Consumer<T, const N: usize> {
    core: SharedRing<T, N>,
    found: Ghost<Seq<T>>,
    left: Ghost<Seq<T>>,
}

impl<T, const N: usize> Producer<T, N> {
    /// The shared ring this handle pushes into.
    pub closed spec fn shared(&self) -> RwLock<RingBuffer<T>, RingShape<N>> {
        *self.core
    }

    /// The queue (oldest first) as this handle's last operation found it.
    pub closed spec fn found(&self) -> Seq<T> {
        self.found@
    }

    /// The queue (oldest first) as this handle's last operation left it.
    pub closed spec fn left(&self) -> Seq<T> {
        self.left@
    }
}

impl<T, const N: usize> Consumer<T, N> {
    /// The shared ring this handle pops from.
    pub closed spec fn shared(&self) -> RwLock<RingBuffer<T>, RingShape<N>> {
        *self.core
    }

    /// The queue (oldest first) as this handle's last operation found it.
    pub closed spec fn found(&self) -> Seq<T> {
        self.found@
    }

    /// The queue (oldest first) as this handle's last operation left it.
    pub closed spec fn left(&self) -> Seq<T> {
        self.left@
    }
}

impl<T: Copy, const N: usize> Producer<T, N> {
    /// Pushes as many leading items of `data` as there is room for;
    /// returns how many were pushed (see `RingBuffer::push_slice`). The ring
    /// holds at most `N - 1` items; the leading `pushed` items of `data`, and no
    /// others, are appended to the queue it found.
    pub fn push_slice(&mut self, data: &[T]) -> (pushed: usize)
        ensures
            final(self).shared() == old(self).shared(),
            final(self).found().len() <= N - 1,
            pushed == vstd::math::min(N - 1 - final(self).found().len(), data@.len() as int),
            final(self).left() == final(self).found() + data@.take(pushed as int),
            pushed <= data@.len(),
            pushed < N,
    {
        let (mut ring, handle) = self.core.acquire_write();
        proof {
            lemma_len_within_capacity(ring);
        }
        let ghost found = ring@;
        let pushed = ring.push_slice(data);
        let ghost left = ring@;
        handle.release_write(ring);
        self.found = Ghost(found);
        self.left = Ghost(left);
        pushed
    }

    /// Pushes `data` unless the ring is full; returns whether it was pushed
    /// (see `RingBuffer::push`). It is pushed exactly when the queue found holds
    /// fewer than `N - 1` items, and then appended once; a refused push leaves
    /// the queue as it was. A ring of one slot has no room, ever.
    pub fn push(&mut self, data: T) -> (pushed: bool)
        ensures
            final(self).shared() == old(self).shared(),
            final(self).found().len() <= N - 1,
            pushed == (final(self).found().len() < N - 1),
            pushed ==> final(self).left() == final(self).found().push(data),
            !pushed ==> final(self).left() == final(self).found(),
            N <= 1 ==> !pushed,
    {
        let (mut ring, handle) = self.core.acquire_write();
        proof {
            lemma_len_within_capacity(ring);
        }
        let ghost found = ring@;
        let pushed = ring.push(data);
        let ghost left = ring@;
        handle.release_write(ring);
        self.found = Ghost(found);
        self.left = Ghost(left);
        pushed
    }
}

impl<T: Copy, const N: usize> Consumer<T, N> {
    /// Pops the oldest item, or `None` when the ring is empty (see `RingBuffer::pop`):
    /// the first item of the queue found, which leaves it; an empty queue is left
    /// as it was. A ring of one slot is always empty.
    pub fn pop(&mut self) -> (r: Option<T>)
        ensures
            final(self).shared() == old(self).shared(),
            final(self).found().len() <= N - 1,
            final(self).found().len() == 0 ==> r is None
                && final(self).left() == final(self).found(),
            final(self).found().len() > 0 ==> r == Some(final(self).found()[0])
                && final(self).left() == final(self).found().drop_first(),
            N <= 1 ==> r is None,
    {
        let (mut ring, handle) = self.core.acquire_write();
        proof {
            lemma_len_within_capacity(ring);
        }
        let ghost found = ring@;
        let r = ring.pop();
        let ghost left = ring@;
        handle.release_write(ring);
        self.found = Ghost(found);
        self.left = Ghost(left);
        r
    }

    /// Pops the oldest items into the front of `output`; returns how many were
    /// popped, and leaves the rest of `output` as it was (see `RingBuffer::pop_slice`).
    /// As many items as both the queue found and `output` hold are moved, in
    /// order, and exactly those leave the queue.
    pub fn pop_slice(&mut self, output: &mut [T]) -> (popped: usize)
        ensures
            final(self).shared() == old(self).shared(),
            final(self).found().len() <= N - 1,
            popped == vstd::math::min(final(self).found().len() as int, old(output)@.len() as int),
            final(output)@.take(popped as int) == final(self).found().take(popped as int),
            final(self).left() == final(self).found().skip(popped as int),
            popped <= old(output)@.len(),
            popped < N,
            final(output)@.len() == old(output)@.len(),
            final(output)@.skip(popped as int) == old(output)@.skip(popped as int),
    {
        let (mut ring, handle) = self.core.acquire_write();
        proof {
            lemma_len_within_capacity(ring);
        }
        let ghost found = ring@;
        let popped = ring.pop_slice(output);
        let ghost left = ring@;
        handle.release_write(ring);
        self.found = Ghost(found);
        self.left = Ghost(left);
        popped
    }

    /// Pops the oldest items into `output` from position `start` on; returns how
    /// many were popped and leaves every other slot of `output` as it was
    /// (see `RingBuffer::pop_slice_at`). As many items as both the queue found and
    /// the rest of `output` hold are moved, in order, and exactly those leave the
    /// queue.
    pub fn pop_slice_at(&mut self, output: &mut [T], start: usize) -> (popped: usize)
        requires
            start <= old(output)@.len(),
        ensures
            final(self).shared() == old(self).shared(),
            final(self).found().len() <= N - 1,
            popped == vstd::math::min(
                final(self).found().len() as int,
                old(output)@.len() - start,
            ),
            final(output)@.subrange(start as int, start + popped) == final(self).found().take(
                popped as int,
            ),
            final(self).left() == final(self).found().skip(popped as int),
            start + popped <= old(output)@.len(),
            popped < N,
            final(output)@.len() == old(output)@.len(),
            final(output)@.take(start as int) == old(output)@.take(start as int),
            final(output)@.skip(start + popped) == old(output)@.skip(start + popped),
    {
        let (mut ring, handle) = self.core.acquire_write();
        proof {
            lemma_len_within_capacity(ring);
        }
        let ghost found = ring@;
        let popped = ring.pop_slice_at(output, start);
        let ghost left = ring@;
        handle.release_write(ring);
        self.found = Ghost(found);
        self.left = Ghost(left);
        popped
    }
}

/// Creates a new SPSC ring buffer of `N` slots, so with a usable capacity of `N - 1`.
pub fn ring_buffer<T: Copy + Default, const N: usize>() -> (r: (Producer<T, N>, Consumer<T, N>))
    requires
        is_power_of_two(N),
    ensures
        r.0.shared() == r.1.shared(),
        r.0.left() == Seq::<T>::empty(),
        r.1.left() == Seq::<T>::empty(),
{
    let ring = RingBuffer::new(N, T::default());
    let core: SharedRing<T, N> = Arc::new(RwLock::new(ring, Ghost(RingShape::<N>)));
    (
        Producer { core: share(&core), found: Ghost(Seq::empty()), left: Ghost(Seq::empty()) },
        Consumer { core, found: Ghost(Seq::empty()), left: Ghost(Seq::empty()) },
    )
}

} // verus!
