//! Single-producer / single-consumer sample ring.
//!
//! Positions are monotonic counters that wrap at the word size; the slot of a
//! position is `position & mask` (the capacity is a power of two), so full and
//! empty are told apart without giving up a slot. `plan_push` and `plan_mix`
//! decide, from the two positions alone, which slots the producer fills and
//! which the consumer drains; `AudioRing` applies them to an owned buffer.
//! The producer drops the *newest* samples when the ring is full, the consumer
//! purges the *oldest* ones beyond its backlog budget.
use vstd::arithmetic::div_mod::lemma_fundamental_div_mod;
use vstd::arithmetic::div_mod::lemma_mod_multiples_vanish;
use vstd::arithmetic::div_mod::lemma_small_mod;
use vstd::arithmetic::power2::lemma_pow2_adds;
use vstd::arithmetic::power2::lemma_pow2_pos;
use vstd::arithmetic::power2::lemma_pow2_strictly_increases;
use vstd::arithmetic::power2::pow2;
use vstd::bits::lemma_usize_low_bits_mask_is_mod;
use vstd::bits::low_bits_mask;
use vstd::prelude::*;

verus! {

/// A legal capacity: a power of two, at least two.
pub open spec fn is_ring_size(cap: int) -> bool {
    cap >= 2 && exists|k: nat| #[trigger] pow2(k) == cap
}

/// The number of samples between two positions.
pub open spec fn distance(read: usize, write: usize) -> int {
    write.wrapping_sub(read) as int
}

pub open spec fn min_of(a: int, b: int) -> int {
    if a <= b {
        a
    } else {
        b
    }
}

pub open spec fn max_of(a: int, b: int) -> int {
    if a >= b {
        a
    } else {
        b
    }
}

/// The slot of the `j`-th sample of a run that is laid out as `first` slots
/// from `start` on, then from slot 0 on.
pub open spec fn run_slot(start: int, first: int, j: int) -> int {
    if j < first {
        start + j
    } else {
        j - first
    }
}

/// How many of `len` samples fit into a ring of `cap` slots that holds `held`.
pub open spec fn pushed_count(cap: int, held: int, len: int) -> int {
    min_of(len, max_of(cap - held, 0))
}

/// How many of the `held` oldest samples are purged under a backlog budget.
pub open spec fn purged_count(held: int, backlog: int) -> int {
    max_of(held - backlog, 0)
}

/// How many frames are fed from `held` samples under a backlog budget.
pub open spec fn fed_count(held: int, backlog: int, frames: int) -> int {
    min_of(held - purged_count(held, backlog), frames)
}

proof fn lemma_ring_size(cap: int) -> (k: nat)
    requires
        is_ring_size(cap),
        cap <= usize::MAX,
    ensures
        k < usize::BITS,
        pow2(k) == cap,
        cap - 1 == low_bits_mask(k),
        (usize::MAX + 1) % cap == 0,
{
    let k = choose|k: nat| #[trigger] pow2(k) == cap;
    let bits = usize::BITS as nat;
    assert(pow2(bits) == usize::MAX + 1) by {
        vstd::arithmetic::power2::lemma2_to64();
        vstd::arithmetic::power2::lemma2_to64_rest();
    }
    if k >= bits {
        if k > bits {
            lemma_pow2_strictly_increases(bits, k);
        }
        assert(false);
    }
    let rest = (bits - k) as nat;
    lemma_pow2_adds(k, rest);
    lemma_pow2_pos(k);
    assert((usize::MAX + 1) % cap == 0) by {
        assert((pow2(k) as int * pow2(rest) as int) % (pow2(k) as int) == 0) by {
            vstd::arithmetic::div_mod::lemma_mod_multiples_basic(pow2(rest) as int, pow2(k) as int);
            vstd::arithmetic::mul::lemma_mul_is_commutative(pow2(k) as int, pow2(rest) as int);
        }
    }
    k
}

proof fn lemma_masked(pos: usize, mask: usize)
    requires
        is_ring_size(mask + 1),
        mask < usize::MAX,
    ensures
        (pos & mask) == pos as int % (mask + 1),
        (pos & mask) <= mask,
{
    let k = lemma_ring_size(mask + 1);
    lemma_usize_low_bits_mask_is_mod(pos, k);
    assert(pow2(k) as usize == pow2(k));
    assert(pos % (pow2(k) as usize) == pos as int % (mask + 1));
}

/// Equal residues at a distance below the modulus coincide.
proof fn lemma_residues_differ(a: int, b: int, cap: int)
    requires
        cap > 0,
        a < b,
        b - a < cap,
    ensures
        a % cap != b % cap,
{
    lemma_fundamental_div_mod(a, cap);
    lemma_fundamental_div_mod(b, cap);
    if a % cap == b % cap {
        let qa = a / cap;
        let qb = b / cap;
        assert(b - a == cap * qb - cap * qa);
        assert(cap * qb - cap * qa == cap * (qb - qa)) by (nonlinear_arith);
        assert(false) by (nonlinear_arith)
            requires
                0 < b - a < cap,
                b - a == cap * (qb - qa),
                cap > 0,
        {
        }
    }
}

/// Adding to a residue gives the residue of the sum.
proof fn lemma_residue_plus(pos: int, j: int, cap: int)
    requires
        cap > 0,
        0 <= pos,
        0 <= j,
    ensures
        (pos % cap + j) % cap == (pos + j) % cap,
{
    lemma_fundamental_div_mod(pos, cap);
    lemma_mod_multiples_vanish(pos / cap, pos % cap + j, cap);
}

/// A position that wrapped at the word size keeps its slot.
proof fn lemma_wrapped_residue(pos: usize, n: usize, cap: int)
    requires
        is_ring_size(cap),
        cap <= usize::MAX,
    ensures
        pos.wrapping_add(n) as int % cap == (pos + n) % cap,
{
    let k = lemma_ring_size(cap);
    if pos + n > usize::MAX {
        let word = usize::MAX + 1;
        lemma_fundamental_div_mod(word, cap);
        let q = word / cap;
        assert(word == q * cap) by (nonlinear_arith)
            requires
                word == cap * q + word % cap,
                word % cap == 0,
        {
        }
        lemma_mod_multiples_vanish(q, pos + n - word, cap);
        assert(cap * q == q * cap) by (nonlinear_arith);
    }
}

/// The run that starts at `start == pos % cap` visits the slots of `pos`,
/// `pos + 1`, and so on.
proof fn lemma_run_slot(pos: int, cap: int, n: int, j: int)
    requires
        cap > 0,
        0 <= pos,
        0 <= j < n <= cap,
    ensures
        run_slot(pos % cap, min_of(cap - pos % cap, n), j) == (pos + j) % cap,
        0 <= (pos + j) % cap < cap,
{
    let start = pos % cap;
    lemma_residue_plus(pos, j, cap);
    if start + j < cap {
        lemma_small_mod((start + j) as nat, cap as nat);
    } else {
        lemma_mod_multiples_vanish(1, start + j - cap, cap);
        lemma_small_mod((start + j - cap) as nat, cap as nat);
    }
}

/// What the producer does with a block of samples.
#[derive(Clone, Copy, Debug)]
pub struct PushPlan {
    /// Samples that are written; the rest of the block is dropped.
    pub take: usize,
    /// Slot of the first sample.
    pub start: usize,
    /// Samples that go to `start ..`; the others go to slot 0 and on.
    pub first: usize,
    /// The write position afterwards.
    pub write: usize,
}

/// Decides where a block of `len` samples goes.
pub fn plan_push(write: usize, read: usize, mask: usize, len: usize) -> (p: PushPlan)
    requires
        mask < usize::MAX,
        is_ring_size(mask + 1),
    ensures
        p.take == pushed_count(mask + 1, distance(read, write), len as int),
        p.start == write as int % (mask + 1),
        p.first == min_of(mask + 1 - p.start, p.take as int),
        p.write == write.wrapping_add(p.take),
        forall|j: int|
            0 <= j < p.take ==> #[trigger] run_slot(p.start as int, p.first as int, j) == (write
                + j) % (mask + 1),
{
    let cap: usize = mask + 1;
    let free: usize = cap.saturating_sub(write.wrapping_sub(read));
    let take: usize = if len < free {
        len
    } else {
        free
    };
    proof {
        lemma_masked(write, mask);
    }
    let start: usize = write & mask;
    let room: usize = cap - start;
    let first: usize = if room < take {
        room
    } else {
        take
    };
    proof {
        assert forall|j: int| 0 <= j < take implies #[trigger] run_slot(
            start as int,
            first as int,
            j,
        ) == (write + j) % (mask + 1) by {
            lemma_run_slot(write as int, cap as int, take as int, j);
        }
    }
    PushPlan { take, start, first, write: write.wrapping_add(take) }
}

/// What the consumer drains for one audio frame block.
#[derive(Clone, Copy, Debug)]
pub struct MixPlan {
    /// Frames that are fed with samples.
    pub take: usize,
    /// Frames that stay silent.
    pub missing: usize,
    /// Slot of the first sample.
    pub start: usize,
    /// Samples that come from `start ..`; the others come from slot 0 on.
    pub first: usize,
    /// The read position afterwards.
    pub read: usize,
}

/// Decides which samples feed `frames` frames under a backlog budget.
pub fn plan_mix(write: usize, read: usize, mask: usize, frames: usize, backlog: usize) -> (p:
    MixPlan)
    requires
        mask < usize::MAX,
        is_ring_size(mask + 1),
        distance(read, write) <= mask + 1,
    ensures
        p.take == fed_count(distance(read, write), backlog as int, frames as int),
        p.missing == frames - p.take,
        p.start == (read + purged_count(distance(read, write), backlog as int)) % (mask + 1),
        p.first == min_of(mask + 1 - p.start, p.take as int),
        p.read == read.wrapping_add(
            (purged_count(distance(read, write), backlog as int) + p.take) as usize,
        ),
        forall|j: int|
            0 <= j < p.take ==> #[trigger] run_slot(p.start as int, p.first as int, j) == (read
                + purged_count(distance(read, write), backlog as int) + j) % (mask + 1),
{
    let cap: usize = mask + 1;
    let held: usize = write.wrapping_sub(read);
    let purged: usize = if held > backlog {
        held - backlog
    } else {
        0
    };
    let from: usize = read.wrapping_add(purged);
    let left: usize = held - purged;
    let take: usize = if left < frames {
        left
    } else {
        frames
    };
    proof {
        lemma_masked(from, mask);
        lemma_wrapped_residue(read, purged, cap as int);
    }
    let start: usize = from & mask;
    let room: usize = cap - start;
    let first: usize = if room < take {
        room
    } else {
        take
    };
    proof {
        assert forall|j: int| 0 <= j < take implies #[trigger] run_slot(
            start as int,
            first as int,
            j,
        ) == (read + purged + j) % (mask + 1) by {
            lemma_run_slot(read + purged, cap as int, take as int, j);
        }
    }
    MixPlan { take, missing: frames - take, start, first, read: from.wrapping_add(take) }
}

/// Overwrites `buf[at .. at + len]` with `data[from .. from + len]`.
fn copy_run<T: Copy>(buf: &mut Vec<T>, at: usize, data: &[T], from: usize, len: usize)
    requires
        at + len <= old(buf)@.len(),
        from + len <= data@.len(),
    ensures
        final(buf)@.len() == old(buf)@.len(),
        forall|i: int|
            0 <= i < old(buf)@.len() ==> #[trigger] final(buf)@[i] == if at <= i < at + len {
                data@[from + (i - at)]
            } else {
                old(buf)@[i]
            },
{
    let ghost before = buf@;
    let slots: usize = buf.len();
    let given: usize = data.len();
    let mut k: usize = 0;
    while k < len
        invariant
            k <= len,
            slots == before.len(),
            given == data@.len(),
            at + len <= before.len(),
            from + len <= data@.len(),
            buf@.len() == before.len(),
            forall|i: int|
                0 <= i < before.len() ==> #[trigger] buf@[i] == if at <= i < at + k {
                    data@[from + (i - at)]
                } else {
                    before[i]
                },
        decreases len - k,
    {
        buf.set(at + k, data[from + k]);
        k = k + 1;
    }
}

/// The gains that `coef` gave for the frames `0 .. gains.len()`.
pub open spec fn gains_of<T, C: FnMut(usize) -> T>(coef: C, gains: Seq<T>) -> bool {
    forall|f: int| 0 <= f < gains.len() ==> call_ensures(coef, (f as usize,), #[trigger] gains[f])
}

/// What becomes of a slot of a fed frame: it keeps its value where `silent` says
/// that the gain is, else `blend` gives the new one.
pub open spec fn blended<T, S: Fn(T) -> bool, A: Fn(T, T, T) -> T>(
    silent: S,
    blend: A,
    before: T,
    sample: T,
    gain: T,
    after: T,
) -> bool {
    ||| call_ensures(silent, (gain,), true) && after == before
    ||| call_ensures(silent, (gain,), false) && call_ensures(blend, (before, sample, gain), after)
}

/// `after` is `before` with `samples[f]` at gain `gains[f]` blended into every
/// slot of interleaved frame `f`, except where that gain is silent; slot `i`
/// belongs to frame `i / channels`, and to none where there are no channels.
pub open spec fn mixed<T, S: Fn(T) -> bool, A: Fn(T, T, T) -> T>(
    before: Seq<T>,
    after: Seq<T>,
    samples: Seq<T>,
    gains: Seq<T>,
    channels: int,
    silent: S,
    blend: A,
) -> bool {
    &&& after.len() == before.len()
    &&& gains.len() == samples.len()
    &&& forall|i: int|
        0 <= i < before.len() ==> if channels > 0 && i / channels < samples.len() {
            blended(
                silent,
                blend,
                before[i],
                samples[i / channels],
                gains[i / channels],
                #[trigger] after[i],
            )
        } else {
            after[i] == before[i]
        }
}

/// What a mix feeds from a ring that holds `held`.
pub open spec fn feed_of<T>(held: Seq<T>, backlog: int, frames: int) -> Seq<T> {
    held.skip(purged_count(held.len() as int, backlog)).take(
        fed_count(held.len() as int, backlog, frames),
    )
}

/// What a ring that holds `held` still holds after a mix.
pub open spec fn rest_of<T>(held: Seq<T>, backlog: int, frames: int) -> Seq<T> {
    held.skip(
        purged_count(held.len() as int, backlog) + fed_count(held.len() as int, backlog, frames),
    )
}

/// What a ring of `cap` slots that holds `held` holds after a push.
pub open spec fn pushed_onto<T>(cap: int, held: Seq<T>, block: Seq<T>) -> Seq<T> {
    held + block.take(pushed_count(cap, held.len() as int, block.len() as int))
}

/// A ring of mono samples.
pub struct AudioRing<T> {
    buf: Vec<T>,
    mask: usize,
    write: usize,
    read: usize,
    /// Samples the producer dropped because the ring was full.
    dropped: u64,
    /// Silent frames the consumer observed.
    underruns: u64,
}

impl<T> View for AudioRing<T> {
    type V = Seq<T>;

    /// The samples that are ready to be consumed, oldest first.
    closed spec fn view(&self) -> Seq<T> {
        Seq::new(
            distance(self.read, self.write) as nat,
            |i: int| self.buf@[(self.read + i) % (self.mask + 1)],
        )
    }
}

impl<T> AudioRing<T> {
    pub closed spec fn wf(&self) -> bool {
        &&& self.mask < usize::MAX
        &&& is_ring_size(self.mask + 1)
        &&& self.buf@.len() == self.mask + 1
        &&& distance(self.read, self.write) <= self.mask + 1
    }

    /// The number of slots.
    pub closed spec fn capacity(&self) -> int {
        self.mask + 1
    }

    pub closed spec fn spec_dropped(&self) -> u64 {
        self.dropped
    }

    pub closed spec fn spec_underruns(&self) -> u64 {
        self.underruns
    }

    /// Samples dropped so far because the ring was full.
    #[verifier::when_used_as_spec(spec_dropped)]
    pub fn dropped(&self) -> (r: u64)
        ensures
            r == self.dropped(),
    {
        self.dropped
    }

    /// Silent frames observed so far.
    #[verifier::when_used_as_spec(spec_underruns)]
    pub fn underruns(&self) -> (r: u64)
        ensures
            r == self.underruns(),
    {
        self.underruns
    }
}

impl<T: Copy> AudioRing<T> {
    /// An empty ring of `capacity` slots.
    pub fn new(capacity: usize) -> (r: Self) where T: Default
        requires
            is_ring_size(capacity as int),
        ensures
            r.wf(),
            r@ == Seq::<T>::empty(),
            r.capacity() == capacity,
            r.dropped() == 0,
            r.underruns() == 0,
    {
        let fill: T = T::default();
        AudioRing {
            buf: vec![fill; capacity],
            mask: capacity - 1,
            write: 0,
            read: 0,
            dropped: 0,
            underruns: 0,
        }
    }

    fn cap(&self) -> (r: usize)
        requires
            self.wf(),
        ensures
            r == self.capacity(),
    {
        self.mask + 1
    }

    /// Samples ready to be consumed.
    pub fn available(&self) -> (r: usize)
        requires
            self.wf(),
        ensures
            r == self@.len(),
            r <= self.capacity(),
    {
        self.write.wrapping_sub(self.read)
    }

    /// Producer: appends samples; what does not fit is dropped from the end of
    /// `data` and counted. Returns the number written.
    pub fn push(&mut self, data: &[T]) -> (n: usize)
        requires
            old(self).wf(),
        ensures
            final(self).wf(),
            final(self).capacity() == old(self).capacity(),
            n == min_of(data@.len() as int, old(self).capacity() - old(self)@.len()),
            final(self)@ == pushed_onto(old(self).capacity(), old(self)@, data@),
            final(self).dropped() == old(self).dropped().wrapping_add((data@.len() - n) as u64),
            final(self).underruns() == old(self).underruns(),
    {
        let ghost before = *self;
        let p = plan_push(self.write, self.read, self.mask, data.len());
        let lost: usize = data.len() - p.take;
        self.dropped = self.dropped.wrapping_add(lost as u64);
        copy_run(&mut self.buf, p.start, data, 0, p.first);
        copy_run(&mut self.buf, 0, data, p.first, p.take - p.first);
        self.write = p.write;
        proof {
            before.lemma_pushed(*self, data@, p);
        }
        p.take
    }

    /// The ring after a push holds what it held, then the block's head.
    proof fn lemma_pushed(self, after: Self, data: Seq<T>, p: PushPlan)
        requires
            self.wf(),
            after.mask == self.mask,
            after.read == self.read,
            after.write == self.write.wrapping_add(p.take),
            after.buf@.len() == self.buf@.len(),
            p.take == pushed_count(self.capacity(), self@.len() as int, data.len() as int),
            p.start == self.write as int % self.capacity(),
            p.first == min_of(self.capacity() - p.start, p.take as int),
            forall|j: int|
                0 <= j < p.take ==> #[trigger] run_slot(p.start as int, p.first as int, j) == (
                self.write + j) % self.capacity(),
            forall|i: int|
                0 <= i < self.buf@.len() ==> #[trigger] after.buf@[i] == if i < p.take - p.first {
                    data[p.first + i]
                } else if p.start <= i < p.start + p.first {
                    data[i - p.start]
                } else {
                    self.buf@[i]
                },
        ensures
            after.wf(),
            after@ == self@ + data.take(p.take as int),
    {
        let cap = self.capacity();
        let held = distance(self.read, self.write);
        let n = p.take as int;
        assert(distance(after.read, after.write) == held + n);
        assert forall|i: int| 0 <= i < held + n implies after@[i] == (self@ + data.take(n))[i] by {
            let slot = (self.read + i) % cap;
            assert(0 <= slot < cap) by {
                vstd::arithmetic::div_mod::lemma_mod_bound(self.read + i, cap);
            }
            assert(self.write as int % cap == (self.read + held) % cap) by {
                lemma_wrapped_residue(self.read, held as usize, cap);
                assert(self.read.wrapping_add(held as usize) == self.write);
            }
            if i < held {
                // No written slot is the slot of a held sample.
                assert forall|j: int| 0 <= j < n implies #[trigger] run_slot(
                    p.start as int,
                    p.first as int,
                    j,
                ) != slot by {
                    lemma_residue_plus(self.write as int, j, cap);
                    lemma_residue_plus(self.read + held, j, cap);
                    lemma_residues_differ(self.read + i, self.read + held + j, cap);
                }
                if slot < n - p.first {
                    assert(run_slot(p.start as int, p.first as int, slot + p.first) == slot);
                }
                if p.start <= slot < p.start + p.first {
                    assert(run_slot(p.start as int, p.first as int, slot - p.start) == slot);
                }
            } else {
                let j = i - held;
                assert(run_slot(p.start as int, p.first as int, j) == slot) by {
                    lemma_residue_plus(self.write as int, j, cap);
                    lemma_residue_plus(self.read + held, j, cap);
                }
                if j < p.first {
                    assert(slot >= n - p.first) by {
                        assert(p.start + p.first <= cap);
                    }
                }
            }
        }
        assert(after@ =~= self@ + data.take(n));
    }

    /// Consumer: forgets every sample.
    pub fn clear(&mut self)
        requires
            old(self).wf(),
        ensures
            final(self).wf(),
            final(self).capacity() == old(self).capacity(),
            final(self)@ == Seq::<T>::empty(),
            final(self).dropped() == old(self).dropped(),
            final(self).underruns() == old(self).underruns(),
    {
        self.read = self.write;
    }

    /// Consumer: mixes up to `frames` samples into interleaved `data`
    /// (`channels` per frame): `blend(slot, sample, coef(frame))` replaces
    /// every slot of a fed frame, unless that gain is `silent`.
    ///
    /// Samples older than `backlog` are purged first, so that a stalled
    /// consumer never plays stale sound; missing samples leave their frames
    /// alone and are counted. Returns the number of frames fed.
    pub fn mix_mono_into<C: FnMut(usize) -> T, S: Fn(T) -> bool, A: Fn(T, T, T) -> T>(
        &mut self,
        data: &mut [T],
        frames: usize,
        channels: usize,
        backlog: usize,
        coef: C,
        silent: &S,
        blend: &A,
    ) -> (fed: usize)
        requires
            old(self).wf(),
            frames * channels <= usize::MAX,
            forall|f: usize| f < frames ==> call_requires(coef, (f,)),
            forall|g: T| call_requires(*silent, (g,)),
            forall|a: T, s: T, g: T| call_requires(*blend, (a, s, g)),
        ensures
            final(self).wf(),
            final(self).capacity() == old(self).capacity(),
            fed == fed_count(old(self)@.len() as int, backlog as int, frames as int),
            final(self)@ == rest_of(old(self)@, backlog as int, frames as int),
            final(self).dropped() == old(self).dropped(),
            final(self).underruns() == old(self).underruns().wrapping_add((frames - fed) as u64),
            exists|gains: Seq<T>|
                gains_of(coef, gains) && #[trigger] mixed(
                    old(data)@,
                    final(data)@,
                    feed_of(old(self)@, backlog as int, frames as int),
                    gains,
                    channels as int,
                    *silent,
                    *blend,
                ),
            channels == 0 ==> final(data)@ == old(data)@,
    {
        let ghost ring0 = *self;
        let ghost data0 = data@;
        let ghost purged = purged_count(self@.len() as int, backlog as int);
        let ghost kept = self@.skip(purged);
        let p = plan_mix(self.write, self.read, self.mask, frames, backlog);
        self.underruns = self.underruns.wrapping_add(p.missing as u64);
        let ghost feed = kept.take(p.take as int);
        assert(p.take * channels <= usize::MAX) by (nonlinear_arith)
            requires
                p.take <= frames,
                frames * channels <= usize::MAX,
        {
        }
        let head: &[T] = vstd::slice::slice_subrange(self.buf.as_slice(), p.start, p.start + p.first);
        let rest: &[T] = vstd::slice::slice_subrange(self.buf.as_slice(), 0, p.take - p.first);
        proof {
            assert forall|j: int| 0 <= j < p.take implies (head@ + rest@)[j] == feed[j] by {
                assert(run_slot(p.start as int, p.first as int, j) == (self.read + purged + j)
                    % self.capacity());
            }
            assert(head@ + rest@ =~= feed);
            assert(feed == feed_of(ring0@, backlog as int, frames as int));
        }
        mix_feed(head, rest, data, channels, coef, silent, blend);
        self.read = p.read;
        proof {
            let cap = self.capacity();
            let gone = purged + p.take;
            assert(distance(self.read, self.write) == ring0@.len() - gone);
            assert forall|i: int| 0 <= i < ring0@.len() - gone implies self@[i] == ring0@.skip(
                gone,
            )[i] by {
                lemma_wrapped_residue(ring0.read, gone as usize, cap);
                lemma_residue_plus(self.read as int, i, cap);
                lemma_residue_plus(ring0.read + gone, i, cap);
            }
            assert(self@ =~= ring0@.skip(gone));
        }
        p.take
    }
}

/// Mixes samples that lie in two runs, one after the other, into interleaved
/// `data`: `blend(slot, sample, coef(frame))` replaces every slot of frame
/// `frame`, unless that gain is `silent`.
pub fn mix_feed<T: Copy, C: FnMut(usize) -> T, S: Fn(T) -> bool, A: Fn(T, T, T) -> T>(
    head: &[T],
    rest: &[T],
    data: &mut [T],
    channels: usize,
    mut coef: C,
    silent: &S,
    blend: &A,
)
    requires
        head@.len() + rest@.len() <= usize::MAX,
        (head@.len() + rest@.len()) * channels <= usize::MAX,
        forall|f: usize| f < head@.len() + rest@.len() ==> call_requires(coef, (f,)),
        forall|g: T| call_requires(*silent, (g,)),
        forall|a: T, s: T, g: T| call_requires(*blend, (a, s, g)),
    ensures
        exists|gains: Seq<T>|
            gains_of(coef, gains) && #[trigger] mixed(
                old(data)@,
                final(data)@,
                head@ + rest@,
                gains,
                channels as int,
                *silent,
                *blend,
            ),
{
    let ghost data0 = data@;
    assert(mixed(
        data0,
        data@,
        Seq::<T>::empty(),
        Seq::<T>::empty(),
        channels as int,
        *silent,
        *blend,
    )) by {
        assert forall|k: int| 0 <= k < data0.len() && channels > 0 implies #[trigger] (k / (
        channels as int)) >= 0 by {
            vstd::arithmetic::div_mod::lemma_div_pos_is_pos(k, channels as int);
        }
    }
    assert(head@.len() * channels <= usize::MAX) by (nonlinear_arith)
        requires
            (head@.len() + rest@.len()) * channels <= usize::MAX,
    {
    }
    let first: usize = head.len();
    let Ghost(part) = mix_segment(
        head,
        data,
        channels,
        0,
        &mut coef,
        silent,
        blend,
        Ghost(data0),
        Ghost(Seq::<T>::empty()),
        Ghost(Seq::<T>::empty()),
    );
    assert(Seq::<T>::empty() + head@ == head@);
    let Ghost(gains) = mix_segment(
        rest,
        data,
        channels,
        first,
        &mut coef,
        silent,
        blend,
        Ghost(data0),
        Ghost(head@),
        Ghost(part),
    );
    assert(mixed(data0, data@, head@ + rest@, gains, channels as int, *silent, *blend));
}

/// Blends `seg[i]` at gain `coef(frame_base + i)` into every channel of
/// interleaved frame `frame_base + i` of `data`, unless that gain is `silent`;
/// slots past its end are skipped.
fn mix_segment<T: Copy, C: FnMut(usize) -> T, S: Fn(T) -> bool, A: Fn(T, T, T) -> T>(
    seg: &[T],
    data: &mut [T],
    channels: usize,
    frame_base: usize,
    coef: &mut C,
    silent: &S,
    blend: &A,
    Ghost(before): Ghost<Seq<T>>,
    Ghost(done): Ghost<Seq<T>>,
    Ghost(gains): Ghost<Seq<T>>,
) -> (all: Ghost<Seq<T>>)
    requires
        frame_base == done.len(),
        (frame_base + seg@.len()) * channels <= usize::MAX,
        frame_base + seg@.len() <= usize::MAX,
        forall|f: usize| f < frame_base + seg@.len() ==> call_requires(*old(coef), (f,)),
        forall|g: T| call_requires(*silent, (g,)),
        forall|a: T, s: T, g: T| call_requires(*blend, (a, s, g)),
        mixed(before, old(data)@, done, gains, channels as int, *silent, *blend),
        gains_of(*old(coef), gains),
    ensures
        *final(coef) == *old(coef),
        gains_of(*old(coef), all@),
        mixed(before, final(data)@, done + seg@, all@, channels as int, *silent, *blend),
{
    let ghost coef0 = *coef;
    let ghost mut all = gains;
    let slots: usize = data.len();
    let mut i: usize = 0;
    while i < seg.len()
        invariant
            i <= seg@.len(),
            slots == data@.len(),
            *coef == coef0,
            frame_base == done.len(),
            (frame_base + seg@.len()) * channels <= usize::MAX,
            frame_base + seg@.len() <= usize::MAX,
            forall|f: usize| f < frame_base + seg@.len() ==> call_requires(coef0, (f,)),
            forall|g: T| call_requires(*silent, (g,)),
            forall|a: T, s: T, g: T| call_requires(*blend, (a, s, g)),
            mixed(
                before,
                data@,
                done + seg@.take(i as int),
                all,
                channels as int,
                *silent,
                *blend,
            ),
            gains_of(coef0, all),
        decreases seg@.len() - i,
    {
        let frame: usize = frame_base + i;
        let s: T = seg[i];
        let g: T = coef(frame);
        let quiet: bool = silent(g);
        let ghost fed = done + seg@.take(i as int);
        let ghost next = done + seg@.take(i + 1);
        let ghost next_gains = all.push(g);
        assert(next == fed.push(s));
        assert(frame * channels + channels <= usize::MAX) by (nonlinear_arith)
            requires
                frame + 1 <= frame_base + seg@.len(),
                (frame_base + seg@.len()) * channels <= usize::MAX,
        {
        }
        let base: usize = frame * channels;
        let ghost held = data@;
        let mut c: usize = 0;
        while c < channels && !quiet
            invariant
                c <= channels,
                slots == data@.len(),
                held.len() == data@.len(),
                before.len() == data@.len(),
                base == frame * channels,
                base + channels <= usize::MAX,
                frame == fed.len(),
                quiet ==> c == 0,
                forall|a: T, s: T, g: T| call_requires(*blend, (a, s, g)),
                forall|k: int|
                    0 <= k < held.len() ==> if base <= k < base + c {
                        call_ensures(*blend, (held[k], s, g), #[trigger] data@[k])
                    } else {
                        data@[k] == held[k]
                    },
            decreases channels - c,
        {
            let at: usize = base + c;
            if at < slots {
                let sum: T = blend(data[at], s, g);
                data[at] = sum;
            }
            c = c + 1;
        }
        proof {
            assert forall|k: int| 0 <= k < before.len() implies if channels > 0 && k / (
            channels as int) < next.len() {
                blended(
                    *silent,
                    *blend,
                    before[k],
                    next[k / (channels as int)],
                    next_gains[k / (channels as int)],
                    #[trigger] data@[k],
                )
            } else {
                data@[k] == before[k]
            } by {
                if channels > 0 {
                    lemma_frame_of(k, frame as int, channels as int);
                }
            }
            all = next_gains;
        }
        i = i + 1;
    }
    assert(seg@.take(i as int) == seg@);
    Ghost(all)
}

/// Slot `k` belongs to frame `f` exactly when it lies in the frame's run.
proof fn lemma_frame_of(k: int, f: int, channels: int)
    requires
        channels >= 1,
        0 <= k,
        0 <= f,
    ensures
        0 <= k / channels,
        k / channels == f <==> f * channels <= k < f * channels + channels,
        k / channels < f <==> k < f * channels,
{
    lemma_fundamental_div_mod(k, channels);
    vstd::arithmetic::div_mod::lemma_div_pos_is_pos(k, channels);
    vstd::arithmetic::div_mod::lemma_mod_bound(k, channels);
    let q = k / channels;
    let r = k % channels;
    assert(k == channels * q + r);
    if q < f {
        assert(channels * q + channels <= f * channels) by (nonlinear_arith)
            requires
                q + 1 <= f,
                channels >= 1,
        {
        }
    } else if q > f {
        assert(channels * q >= f * channels + channels) by (nonlinear_arith)
            requires
                q >= f + 1,
                channels >= 1,
        {
        }
    } else {
        assert(channels * q == f * channels) by (nonlinear_arith)
            requires
                q == f,
        {
        }
    }
}

/// A block that fits is fed back sample for sample, in order, and leaves the
/// ring empty, when it is within the backlog budget and enough frames are
/// asked for.
pub proof fn law_block_is_fed_back<T>(cap: int, block: Seq<T>, backlog: int, frames: int)
    requires
        block.len() <= cap,
        block.len() <= backlog,
        block.len() <= frames,
    ensures
        feed_of(pushed_onto(cap, Seq::<T>::empty(), block), backlog, frames) == block,
        rest_of(pushed_onto(cap, Seq::<T>::empty(), block), backlog, frames) == Seq::<T>::empty(),
{
}

/// Feeding in two steps gives the same samples as feeding at once, wherever
/// the cut lies, as long as nothing is purged.
pub proof fn law_feeds_are_seamless<T>(held: Seq<T>, backlog: int, first: int, second: int)
    requires
        held.len() <= backlog,
        0 <= first,
        0 <= second,
    ensures
        feed_of(held, backlog, first) + feed_of(rest_of(held, backlog, first), backlog, second)
            == feed_of(held, backlog, first + second),
        rest_of(rest_of(held, backlog, first), backlog, second) == rest_of(
            held,
            backlog,
            first + second,
        ),
{
}

/// A full ring keeps what it holds: exactly the newest samples are dropped.
pub proof fn law_newest_are_dropped<T>(cap: int, held: Seq<T>, block: Seq<T>)
    requires
        held.len() <= cap,
    ensures
        pushed_onto(cap, held, block).len() <= cap,
        pushed_onto(cap, held, block).is_prefix_of(held + block),
        held.len() + block.len() <= cap ==> pushed_onto(cap, held, block) == held + block,
        held.len() + block.len() > cap ==> pushed_onto(cap, held, block).len() == cap,
{
}

/// Latency is bounded: what is fed and what is left together are the newest
/// `backlog` samples at most.
pub proof fn law_latency_is_bounded<T>(held: Seq<T>, backlog: int, frames: int)
    requires
        0 <= backlog,
        0 <= frames,
    ensures
        feed_of(held, backlog, frames) + rest_of(held, backlog, frames) == held.skip(
            held.len() - min_of(held.len() as int, backlog),
        ),
        (feed_of(held, backlog, frames) + rest_of(held, backlog, frames)).len() <= backlog,
{
}

/// Producer and consumer never touch the same slot, even when each works from
/// an outdated view of the other's position: the producer from a read position
/// `read_seen` that the consumer has since moved on from, the consumer from a
/// write position `write_seen` that the producer has since moved on from.
pub proof fn law_slots_never_overlap(
    cap: int,
    write: usize,
    read: usize,
    read_seen: usize,
    write_seen: usize,
    len: int,
    backlog: int,
    frames: int,
    j: int,
    k: int,
)
    requires
        is_ring_size(cap),
        cap <= usize::MAX,
        distance(read, write) <= distance(read_seen, write) <= cap,
        distance(read, write_seen) <= distance(read, write),
        0 <= backlog,
        0 <= j < pushed_count(cap, distance(read_seen, write), len),
        0 <= k < fed_count(distance(read, write_seen), backlog, frames),
    ensures
        (write + j) % cap != (read + purged_count(distance(read, write_seen), backlog) + k) % cap,
{
    let held = distance(read, write);
    let at = purged_count(distance(read, write_seen), backlog) + k;
    lemma_wrapped_residue(read, held as usize, cap);
    assert(read.wrapping_add(held as usize) == write);
    lemma_residue_plus(write as int, j, cap);
    lemma_residue_plus(read + held, j, cap);
    lemma_residues_differ(read + at, read + held + j, cap);
}

/// Occupancy stays within the capacity when the producer works from an
/// outdated read position.
pub proof fn law_occupancy_is_bounded(
    cap: int,
    write: usize,
    read: usize,
    read_seen: usize,
    len: int,
)
    requires
        0 <= cap <= usize::MAX,
        0 <= len,
        distance(read, write) <= distance(read_seen, write) <= cap,
    ensures
        distance(
            read,
            write.wrapping_add(pushed_count(cap, distance(read_seen, write), len) as usize),
        ) <= cap,
{
}

} // verus!
