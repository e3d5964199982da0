//! A pool that lends byte buffers of one size and takes them back, so that
//! repeated receives need not allocate.

use vstd::prelude::*;

verus! {

/// A buffer of `size` zero bytes.
pub open spec fn zeroed(size: nat) -> Seq<u8> {
    Seq::new(size, |i: int| 0u8)
}

/// What a pool holds: its idle buffers, in the order in which they came
/// in, and the size of the buffers that it allocates.
pub struct PoolState {
    pub idle: Seq<Seq<u8>>,
    pub buffer_size: nat,
}

impl PoolState {
    /// The pool after a buffer was lent, and that buffer. The idle buffer
    /// that came in last goes out first; a pool without idle buffers stays
    /// as it is and hands out a fresh buffer of its own size.
    pub open spec fn lend(self) -> (PoolState, Seq<u8>) {
        if self.idle.len() > 0 {
            (PoolState { idle: self.idle.drop_last(), ..self }, self.idle.last())
        } else {
            (self, zeroed(self.buffer_size))
        }
    }

    /// The pool after `buffer` came in.
    pub open spec fn take_back(self, buffer: Seq<u8>) -> PoolState {
        PoolState { idle: self.idle.push(buffer), ..self }
    }

    /// Whether every idle buffer has the pool's own size.
    pub open spec fn uniform(self) -> bool {
        forall|i: int| 0 <= i < self.idle.len() ==> (#[trigger] self.idle[i]).len() == self.buffer_size
    }
}

/// A call on a pool: to lend a buffer, or to take the given one back.
pub enum PoolCall {
    Get,
    GiveBack(Seq<u8>),
}

/// The pool after one call.
pub open spec fn step(state: PoolState, call: PoolCall) -> PoolState {
    match call {
        PoolCall::Get => state.lend().0,
        PoolCall::GiveBack(buffer) => state.take_back(buffer),
    }
}

/// The pool after the calls `calls`, made one after the other.
pub open spec fn run(state: PoolState, calls: Seq<PoolCall>) -> PoolState
    decreases calls.len(),
{
    if calls.len() == 0 {
        state
    } else {
        step(run(state, calls.drop_last()), calls.last())
    }
}

/// How many of `calls` gave a buffer back.
pub open spec fn given_back(calls: Seq<PoolCall>) -> nat
    decreases calls.len(),
{
    if calls.len() == 0 {
        0
    } else {
        given_back(calls.drop_last()) + if calls.last() is GiveBack {
            1nat
        } else {
            0nat
        }
    }
}

/// How many of `calls`, made on `state` one after the other, were lent an
/// idle buffer.
pub open spec fn lent_idle(state: PoolState, calls: Seq<PoolCall>) -> nat
    decreases calls.len(),
{
    if calls.len() == 0 {
        0
    } else {
        lent_idle(state, calls.drop_last()) + if calls.last() is Get && run(
            state,
            calls.drop_last(),
        ).idle.len() > 0 {
            1nat
        } else {
            0nat
        }
    }
}

/// How many of `calls`, made on `state` one after the other, found no idle
/// buffer and were lent a new one.
pub open spec fn lent_new(state: PoolState, calls: Seq<PoolCall>) -> nat
    decreases calls.len(),
{
    if calls.len() == 0 {
        0
    } else {
        lent_new(state, calls.drop_last()) + if calls.last() is Get && run(
            state,
            calls.drop_last(),
        ).idle.len() == 0 {
            1nat
        } else {
            0nat
        }
    }
}

/// The balance of `calls`, made on `state` one after the other: the buffers
/// lent less the buffers given back. Where only buffers that were lent are
/// given back, these are the buffers that are still out.
pub open spec fn still_out(state: PoolState, calls: Seq<PoolCall>) -> int {
    lent_idle(state, calls) + lent_new(state, calls) - given_back(calls)
}

/// After any calls, the idle buffers are as many as before, and as were
/// given back, less those lent from among them. Counted by the buffers
/// that are out: the idle buffers and those still out are together as many
/// as were idle before and were lent new since. The pool's own size never
/// changes.
pub proof fn lemma_count_after_calls(state: PoolState, calls: Seq<PoolCall>)
    ensures
        run(state, calls).idle.len() == state.idle.len() + given_back(calls) - lent_idle(
            state,
            calls,
        ),
        run(state, calls).idle.len() + still_out(state, calls) == state.idle.len() + lent_new(
            state,
            calls,
        ),
        run(state, calls).buffer_size == state.buffer_size,
    decreases calls.len(),
{
    if calls.len() > 0 {
        lemma_count_after_calls(state, calls.drop_last());
    }
}

/// Counted from the calls alone: the idle buffers are as many as were given
/// back, less those still out, exactly where as many buffers were given
/// back as were idle at first and were lent new since.
pub proof fn lemma_count_from_calls(state: PoolState, calls: Seq<PoolCall>)
    ensures
        run(state, calls).idle.len() == given_back(calls) - still_out(state, calls)
            <==> given_back(calls) == state.idle.len() + lent_new(state, calls),
{
    lemma_count_after_calls(state, calls);
}

/// Where every idle buffer has the pool's size and only buffers of that
/// size are given back, that stays so after any calls, and whatever is lent
/// next has that size too.
pub proof fn lemma_uniform_after_calls(state: PoolState, calls: Seq<PoolCall>)
    requires
        state.uniform(),
        forall|i: int|
            0 <= i < calls.len() ==> (#[trigger] calls[i] matches PoolCall::GiveBack(buffer)
                ==> buffer.len() == state.buffer_size),
    ensures
        run(state, calls).uniform(),
        run(state, calls).lend().1.len() == state.buffer_size,
    decreases calls.len(),
{
    if calls.len() > 0 {
        let earlier = calls.drop_last();
        assert forall|i: int| 0 <= i < earlier.len() implies (#[trigger] earlier[i] matches PoolCall::GiveBack(
            buffer,
        ) ==> buffer.len() == state.buffer_size) by {
            assert(earlier[i] == calls[i]);
        }
        lemma_uniform_after_calls(state, earlier);
    }
}

/// The contents of the buffers of `buffers`, in their order.
pub open spec fn contents(buffers: Seq<Vec<u8>>) -> Seq<Seq<u8>> {
    Seq::new(buffers.len(), |i: int| buffers[i]@)
}

/// A pool of byte buffers.
pub struct BufferPool {
    inner: Vec<Vec<u8>>,
    length: u32,
}

impl View for BufferPool {
    type V = PoolState;

    closed spec fn view(&self) -> PoolState {
        PoolState { idle: contents(self.inner@), buffer_size: self.length as nat }
    }
}

impl BufferPool {
    /// A pool that allocates buffers of `buffer_size` bytes and starts with
    /// `buffer_count` of them idle.
    pub fn new(buffer_count: u16, buffer_size: u32) -> (pool: Self)
        ensures
            pool@.buffer_size == buffer_size,
            pool@.idle == Seq::new(buffer_count as nat, |i: int| zeroed(buffer_size as nat)),
    {
        let mut inner: Vec<Vec<u8>> = Vec::new();
        let mut made: u16 = 0;
        while made < buffer_count
            invariant
                made <= buffer_count,
                inner@.len() == made,
                contents(inner@) == Seq::new(made as nat, |i: int| zeroed(buffer_size as nat)),
            decreases buffer_count - made,
        {
            let buffer = vec![0u8; buffer_size as usize];
            assert(buffer@ =~= zeroed(buffer_size as nat));
            let ghost before = inner@;
            inner.push(buffer);
            made += 1;
            assert forall|i: int| 0 <= i < made implies #[trigger] contents(inner@)[i] == zeroed(
                buffer_size as nat,
            ) by {
                if i < made - 1 {
                    assert(contents(before)[i] == zeroed(buffer_size as nat));
                }
            }
            assert(contents(inner@) =~= Seq::new(made as nat, |i: int| zeroed(buffer_size as nat)));
        }
        BufferPool { inner, length: buffer_size }
    }

    /// Lends a buffer: an idle one if there is any, else a new one of the
    /// pool's size. It never fails and never waits.
    pub fn get(&mut self) -> (buffer: Vec<u8>)
        ensures
            (final(self)@, buffer@) == old(self)@.lend(),
            old(self)@.idle.len() == 0 ==> buffer@.len() == old(self)@.buffer_size,
    {
        match self.inner.pop() {
            Some(buffer) => {
                assert(contents(self.inner@) =~= contents(old(self).inner@).drop_last());
                buffer
            },
            None => {
                let buffer = vec![0u8; self.length as usize];
                assert(buffer@ =~= zeroed(self.length as nat));
                buffer
            },
        }
    }

    /// Takes `buff` into the idle buffers, whatever its size.
    pub fn give_back(&mut self, buff: Vec<u8>)
        ensures
            final(self)@ == old(self)@.take_back(buff@),
    {
        self.inner.push(buff);
        assert(contents(self.inner@) =~= contents(old(self).inner@).push(buff@));
    }

    /// Adds a new idle buffer of `size` bytes, which need not be the pool's
    /// own size.
    pub fn create(&mut self, size: u32)
        ensures
            final(self)@ == old(self)@.take_back(zeroed(size as nat)),
    {
        let buffer = vec![0u8; size as usize];
        assert(buffer@ =~= zeroed(size as nat));
        self.give_back(buffer);
    }

    /// The number of idle buffers.
    pub fn count(&self) -> (n: usize)
        ensures
            n == self@.idle.len(),
    {
        self.inner.len()
    }
}

} // verus!
