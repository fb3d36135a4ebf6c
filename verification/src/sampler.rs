//! Smoothed sampling: a fixed-capacity circular history of utilization
//! readings per metric, yielding a moving-average load signal.
//!
//! The history is held in a ring buffer from the `ringbuffer` crate; its
//! contents are modelled by the uninterpreted [`ring_contents`] and
//! [`ring_capacity`] functions, and every method the library calls is
//! wrapped with a contract matching that crate's behaviour.

use vstd::prelude::*;

use ringbuffer::{AllocRingBuffer, RingBuffer};

use crate::color::{Load, LOAD_SCALE};

verus! {

/// Declares ringbuffer::AllocRingBuffer to the verifier; values of it are
/// opaque and are described only by [`ring_contents`] and [`ring_capacity`].
#[verifier::external_type_specification]
#[verifier::external_body]
#[verifier::reject_recursive_types(T)]
pub struct ExAllocRingBuffer<T>(AllocRingBuffer<T>);

/// The samples a ring buffer currently holds, oldest first.
pub uninterp spec fn ring_contents(rb: AllocRingBuffer<u32>) -> Seq<u32>;

/// The capacity a ring buffer was created with.
pub uninterp spec fn ring_capacity(rb: AllocRingBuffer<u32>) -> int;

/// Relies on ringbuffer::AllocRingBuffer::new: an empty buffer with the
/// given capacity (the function panics on capacity zero, which the
/// precondition rules out).
#[verifier::external_body]
fn ring_new(capacity: usize) -> (rb: AllocRingBuffer<u32>)
    requires
        capacity >= 1,
    ensures
        ring_contents(rb) == Seq::<u32>::empty(),
        ring_capacity(rb) == capacity,
{
    AllocRingBuffer::new(capacity)
}

/// Relies on ringbuffer::RingBuffer::enqueue: appends a value, evicting
/// the oldest one once the buffer is at capacity.
#[verifier::external_body]
fn ring_enqueue(rb: &mut AllocRingBuffer<u32>, value: u32)
    ensures
        ring_capacity(*final(rb)) == ring_capacity(*old(rb)),
        ring_contents(*old(rb)).len() < ring_capacity(*old(rb))
            ==> ring_contents(*final(rb)) == ring_contents(*old(rb)).push(value),
        ring_contents(*old(rb)).len() >= ring_capacity(*old(rb))
            ==> ring_contents(*final(rb)) == ring_contents(*old(rb)).drop_first().push(value),
{
    let _ = rb.enqueue(value);
}

/// Relies on ringbuffer::RingBuffer::to_vec: copies the held items out,
/// oldest first.
#[verifier::external_body]
fn ring_to_vec(rb: &AllocRingBuffer<u32>) -> (v: Vec<u32>)
    ensures
        v@ == ring_contents(*rb),
{
    rb.to_vec()
}

/// The sum of a sequence of samples.
pub open spec fn sum_of(s: Seq<u32>) -> int
    decreases s.len(),
{
    if s.len() == 0 {
        0
    } else {
        sum_of(s.drop_last()) + s.last()
    }
}

/// The arithmetic mean (truncated) of a sequence of samples, or 0 if the
/// sequence is empty.
pub open spec fn mean_of(s: Seq<u32>) -> int {
    if s.len() == 0 {
        0
    } else {
        sum_of(s) / s.len() as int
    }
}

/// What one push does to a history of samples at the given capacity:
/// append, evicting the oldest entry once the history is at capacity.
pub open spec fn spec_push(s: Seq<u32>, cap: int, x: u32) -> Seq<u32> {
    if s.len() < cap {
        s.push(x)
    } else {
        s.drop_first().push(x)
    }
}

/// The history after pushing each of `xs` in turn, starting from `s`.
pub open spec fn spec_push_all(s: Seq<u32>, cap: int, xs: Seq<u32>) -> Seq<u32>
    decreases xs.len(),
{
    if xs.len() == 0 {
        s
    } else {
        spec_push_all(spec_push(s, cap, xs.first()), cap, xs.drop_first())
    }
}

/// Whether a value is an exact power of two.
pub open spec fn is_pow2(x: u32) -> bool {
    x != 0 && (x & (x - 1) as u32) == 0
}

/// Rounds a value up to the next power of two by smearing its high bit
/// rightward and adding one.
pub fn next_power_of_two(value: u32) -> (r: u32)
    requires
        1 <= value <= 0x8000_0000,
    ensures
        is_pow2(r),
        value <= r,
        r < 2 * value,
{
    let mut v: u32 = value;
    v -= 1;
    v |= v >> 1;
    v |= v >> 2;
    v |= v >> 4;
    v |= v >> 8;
    v |= v >> 16;
    proof {
        assert(is_pow2((v + 1) as u32) && value <= v + 1 && v + 1 < 2 * (value as u64))
            by (bit_vector)
            requires
                1 <= value <= 0x8000_0000u32,
                v == {
                    let v0 = (value - 1) as u32;
                    let v1 = v0 | (v0 >> 1);
                    let v2 = v1 | (v1 >> 2);
                    let v3 = v2 | (v2 >> 4);
                    let v4 = v3 | (v3 >> 8);
                    v4 | (v4 >> 16)
                },
        ;
    }
    v += 1;
    v
}

/// The capacity of a smoothing history for a sampling window of
/// `window_seconds` at one sample per `interval_ms` milliseconds: the
/// window's rough sample count `w + w / i`, rounded up to the next power
/// of two for the ring buffer.
pub fn sample_buffer_capacity(window_seconds: u32, interval_ms: u32) -> (r: u32)
    requires
        1 <= window_seconds <= 0x4000_0000,
        1 <= interval_ms,
    ensures
        is_pow2(r),
        r >= window_seconds + window_seconds as int / interval_ms as int,
        r < 2 * (window_seconds + window_seconds as int / interval_ms as int),
{
    let raw: u32 = window_seconds + window_seconds / interval_ms;
    next_power_of_two(raw)
}

/// A fixed-capacity circular history of utilization readings for one
/// metric, smoothing them into a moving-average load signal.
pub struct SmoothedSampler {
    buf: AllocRingBuffer<u32>,
}

impl SmoothedSampler {
    /// The samples currently held, oldest first.
    pub closed spec fn samples(self) -> Seq<u32> {
        ring_contents(self.buf)
    }

    /// The fixed capacity of the history.
    pub closed spec fn capacity(self) -> int {
        ring_capacity(self.buf)
    }

    /// A sampler is well formed when its capacity is positive and bounded,
    /// its history fits the capacity, and every held sample is a valid load.
    pub open spec fn wf(self) -> bool {
        &&& 1 <= self.capacity() <= u32::MAX
        &&& self.samples().len() <= self.capacity()
        &&& forall|i: int| 0 <= i < self.samples().len()
            ==> #[trigger] self.samples()[i] <= LOAD_SCALE
    }

    /// An empty sampler with the given capacity.
    pub fn new(capacity: u32) -> (r: SmoothedSampler)
        requires
            capacity >= 1,
        ensures
            r.wf(),
            r.samples() == Seq::<u32>::empty(),
            r.capacity() == capacity,
    {
        SmoothedSampler { buf: ring_new(capacity as usize) }
    }

    /// Appends a raw reading to the history, evicting the oldest entry
    /// once at capacity.
    pub fn push(&mut self, sample: Load)
        requires
            old(self).wf(),
            sample.is_valid(),
        ensures
            final(self).wf(),
            final(self).capacity() == old(self).capacity(),
            final(self).samples() == spec_push(
                old(self).samples(), old(self).capacity(), sample.units),
    {
        ring_enqueue(&mut self.buf, sample.units);
    }

    /// The arithmetic mean of all held samples, or the zero load if none
    /// has been pushed yet.
    pub fn read(&self) -> (r: Load)
        requires
            self.wf(),
        ensures
            r.units == mean_of(self.samples()),
            r.is_valid(),
    {
        let v = ring_to_vec(&self.buf);
        if v.len() == 0 {
            return Load { units: 0 };
        }
        let mut sum: u64 = 0;
        let mut k: usize = 0;
        while k < v.len()
            invariant
                k <= v@.len(),
                v@.len() <= u32::MAX,
                forall|i: int| 0 <= i < v@.len() ==> #[trigger] v@[i] <= LOAD_SCALE,
                sum == sum_of(v@.subrange(0, k as int)),
                sum <= k as int * LOAD_SCALE,
            decreases v.len() - k,
        {
            proof {
                assert(v@.subrange(0, k as int + 1).drop_last() =~= v@.subrange(0, k as int));
                assert(v@.subrange(0, k as int + 1).last() == v@[k as int]);
                vstd::arithmetic::mul::lemma_mul_is_distributive_add_other_way(
                    LOAD_SCALE as int, k as int, 1);
                vstd::arithmetic::mul::lemma_mul_upper_bound(
                    k as int + 1, u32::MAX as int, LOAD_SCALE as int, LOAD_SCALE as int);
            }
            sum = sum + v[k] as u64;
            k = k + 1;
        }
        proof {
            assert(v@.subrange(0, v@.len() as int) =~= v@);
            lemma_mean_bounded(v@);
        }
        let m: u64 = sum / v.len() as u64;
        Load { units: m as u32 }
    }
}

/// Law: the mean of a history of valid loads is itself a valid load.
pub proof fn lemma_mean_bounded(s: Seq<u32>)
    requires
        forall|i: int| 0 <= i < s.len() ==> #[trigger] s[i] <= LOAD_SCALE,
    ensures
        0 <= mean_of(s) <= LOAD_SCALE,
{
    if s.len() > 0 {
        lemma_sum_bounds(s);
        vstd::arithmetic::div_mod::lemma_div_is_ordered(
            0, sum_of(s), s.len() as int);
        vstd::arithmetic::div_mod::lemma_div_is_ordered(
            sum_of(s), s.len() as int * LOAD_SCALE, s.len() as int);
        vstd::arithmetic::div_mod::lemma_div_multiples_vanish(
            LOAD_SCALE as int, s.len() as int);
        vstd::arithmetic::mul::lemma_mul_is_commutative(s.len() as int, LOAD_SCALE as int);
    }
}

/// Law: the sum of a history of valid loads lies between 0 and the length
/// times the scale.
pub proof fn lemma_sum_bounds(s: Seq<u32>)
    requires
        forall|i: int| 0 <= i < s.len() ==> #[trigger] s[i] <= LOAD_SCALE,
    ensures
        0 <= sum_of(s) <= s.len() * LOAD_SCALE,
    decreases s.len(),
{
    if s.len() > 0 {
        lemma_sum_bounds(s.drop_last());
        vstd::arithmetic::mul::lemma_mul_is_distributive_add_other_way(
            LOAD_SCALE as int, s.len() as int - 1, 1);
    }
}

/// Law: pushing a run of samples that fits the remaining capacity simply
/// appends them to the history.
pub proof fn lemma_push_all_appends(s: Seq<u32>, cap: int, xs: Seq<u32>)
    requires
        s.len() + xs.len() <= cap,
    ensures
        spec_push_all(s, cap, xs) == s + xs,
    decreases xs.len(),
{
    if xs.len() == 0 {
        assert(s + xs =~= s);
    } else {
        lemma_push_all_appends(s.push(xs.first()), cap, xs.drop_first());
        assert(s.push(xs.first()) + xs.drop_first() =~= s + xs);
    }
}

/// Law: pushing `k <= c` samples into an empty history of capacity `c`
/// leaves exactly those samples, so the smoothed signal is their
/// arithmetic mean.
pub proof fn lemma_fill_within_capacity(cap: int, xs: Seq<u32>)
    requires
        xs.len() <= cap,
    ensures
        spec_push_all(Seq::<u32>::empty(), cap, xs) == xs,
        xs.len() > 0 ==> mean_of(spec_push_all(Seq::<u32>::empty(), cap, xs))
            == sum_of(xs) / xs.len() as int,
{
    lemma_push_all_appends(Seq::<u32>::empty(), cap, xs);
    assert(Seq::<u32>::empty() + xs =~= xs);
}

/// Law: pushing a run of samples in two parts reaches the same history as
/// pushing it in one.
pub proof fn lemma_push_all_splits(s: Seq<u32>, cap: int, xs: Seq<u32>, ys: Seq<u32>)
    ensures
        spec_push_all(s, cap, xs + ys) == spec_push_all(spec_push_all(s, cap, xs), cap, ys),
    decreases xs.len(),
{
    if xs.len() == 0 {
        assert(xs + ys =~= ys);
    } else {
        assert((xs + ys).first() == xs.first());
        assert((xs + ys).drop_first() =~= xs.drop_first() + ys);
        lemma_push_all_splits(spec_push(s, cap, xs.first()), cap, xs.drop_first(), ys);
    }
}

/// Law: pushing `c + 1` samples into an empty history of capacity `c`
/// evicts exactly the oldest sample: the history is the run without its
/// first element, and that element is excluded from the mean.
pub proof fn lemma_overfill_drops_oldest(cap: int, xs: Seq<u32>)
    requires
        cap >= 1,
        xs.len() == cap + 1,
    ensures
        spec_push_all(Seq::<u32>::empty(), cap, xs) == xs.drop_first(),
        mean_of(spec_push_all(Seq::<u32>::empty(), cap, xs))
            == sum_of(xs.drop_first()) / cap,
{
    let head = xs.take(cap);
    let tail = xs.skip(cap);
    assert(head + tail =~= xs);
    lemma_push_all_splits(Seq::<u32>::empty(), cap, head, tail);
    lemma_fill_within_capacity(cap, head);
    assert(tail.len() == 1);
    let stepped = spec_push(head, cap, tail.first());
    assert(tail.drop_first().len() == 0);
    assert(spec_push_all(stepped, cap, tail.drop_first()) == stepped);
    assert(spec_push_all(head, cap, tail) == stepped);
    assert(stepped =~= xs.drop_first());
}

} // verus!
