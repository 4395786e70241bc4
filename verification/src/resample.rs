//! Sample-rate converter for the capture worker.
//!
//! Two stages: box-average decimation by the whole ratio when the source rate
//! is at least twice the target rate, then interpolation with an eight-tap
//! kernel looked up in a table of 512 phases. The read position is an exact
//! fraction, and the state carries over from call to call, so that cutting the
//! input into chunks changes nothing.
//!
//! The arithmetic on samples comes from the caller; this module fixes the
//! timeline: which samples and which kernel row make up each output sample.
use crate::fold::{chains, fold, fold_pairs, is_function, law_fold_is_a_function, zipped};
use crate::signal_laws::{is_interpolated, law_every_output_is_interpolated};
use vstd::arithmetic::div_mod::{
    lemma_div_pos_is_pos, lemma_fundamental_div_mod, lemma_mod_bound,
};
use vstd::prelude::*;

verus! {

/// Taps of the interpolation kernel.
pub const TAPS: usize = 8;

/// Half the kernel: taps span `center - 3 ..= center + 4`.
pub const HALF: usize = 4;

/// Phases of the kernel table.
pub const PHASES: usize = 512;

/// The whole ratio by which the first stage decimates.
pub open spec fn decimation(from: int, to: int) -> int {
    let whole = if to == 0 {
        from
    } else {
        from / to
    };
    if whole < 1 {
        1
    } else {
        whole
    }
}

/// Output `k` stands at `position(k) / den` in the stream that starts with the
/// silent pre-roll; `from / den` input samples go by per output sample.
pub open spec fn position(from: int, den: int, k: int) -> int {
    HALF * den + k * from
}

/// The sample at or before output `k`.
pub open spec fn center(from: int, den: int, k: int) -> int {
    position(from, den, k) / den
}

/// The kernel phase of output `k`.
pub open spec fn phase(from: int, den: int, k: int) -> int {
    (position(from, den, k) % den) * PHASES / den
}

/// How many outputs have come out once `n` samples have gone in.
pub open spec fn emitted(from: int, den: int, n: int) -> int {
    if n <= HALF {
        0
    } else {
        ((n - HALF) * den + from - 1) / from
    }
}

/// The stream the kernel slides over: the silent pre-roll, then the samples.
pub open spec fn stream<T>(zero: T, fed: Seq<T>) -> Seq<T> {
    seq![zero, zero, zero, zero] + fed
}

/// The eight samples around position `c` of the stream.
pub open spec fn window<T>(zero: T, fed: Seq<T>, c: int) -> Seq<T> {
    stream(zero, fed).subrange(c - 3, c + 5)
}

/// The kernel row of a phase.
pub open spec fn kernel_row<T>(table: Seq<T>, p: int) -> Seq<T> {
    table.subrange(p * TAPS, p * TAPS + TAPS)
}

/// `y` is output `k`: the dot product of the window with the kernel row.
pub open spec fn is_output<T, D: Fn(T, (T, T)) -> T>(
    tap: D,
    zero: T,
    table: Seq<T>,
    from: int,
    den: int,
    fed: Seq<T>,
    k: int,
    y: T,
) -> bool {
    chains(
        tap,
        zero,
        zipped(
            window(zero, fed, center(from, den, k)),
            kernel_row(table, phase(from, den, k)),
        ),
        y,
    )
}

/// `out` holds the outputs from number `first` on.
pub open spec fn are_outputs<T, D: Fn(T, (T, T)) -> T>(
    tap: D,
    zero: T,
    table: Seq<T>,
    from: int,
    den: int,
    fed: Seq<T>,
    first: int,
    out: Seq<T>,
) -> bool {
    forall|i: int|
        0 <= i < out.len() ==> is_output(
            tap,
            zero,
            table,
            from,
            den,
            fed,
            first + i,
            #[trigger] out[i],
        )
}

/// `y` is the mean of a group of samples: their sum from `none` on, scaled.
pub open spec fn is_mean<T, A, P: Fn(A, T) -> A, M: Fn(A, u32) -> T>(
    plus: P,
    none: A,
    mean: M,
    group: Seq<T>,
    y: T,
) -> bool {
    exists|sum: A|
        chains(plus, none, group, sum) && #[trigger] call_ensures(mean, (sum, group.len() as u32), y)
}

/// The `g`-th group of `pre` samples.
pub open spec fn group_of<T>(raw: Seq<T>, pre: int, g: int) -> Seq<T> {
    raw.subrange(g * pre, g * pre + pre)
}

proof fn lemma_emitted(from: int, den: int, n: int, k: int)
    requires
        from > 0,
        den > 0,
        k >= 0,
    ensures
        k < emitted(from, den, n) <==> position(from, den, k) < n * den,
        emitted(from, den, n) >= 0,
{
    let x = (n - HALF) * den;
    assert(n * den == x + HALF * den) by (nonlinear_arith)
        requires
            x == (n - HALF) * den,
    {
    }
    if n <= HALF {
        assert(x <= 0) by (nonlinear_arith)
            requires
                x == (n - HALF) * den,
                n <= HALF,
                den > 0,
        {
        }
        assert(k * from >= 0) by (nonlinear_arith)
            requires
                k >= 0,
                from > 0,
        {
        }
    } else {
        assert(x > 0) by (nonlinear_arith)
            requires
                x == (n - HALF) * den,
                n > HALF,
                den > 0,
        {
        }
        let y = x + from - 1;
        let q = y / from;
        lemma_fundamental_div_mod(y, from);
        lemma_mod_bound(y, from);
        lemma_div_pos_is_pos(y, from);
        if k < q {
            assert(k * from + from <= from * q) by (nonlinear_arith)
                requires
                    k + 1 <= q,
                    from > 0,
            {
            }
        } else {
            assert(k * from >= from * q) by (nonlinear_arith)
                requires
                    k >= q,
                    from > 0,
            {
            }
        }
    }
}

proof fn lemma_emitted_is(from: int, den: int, n: int, k: int)
    requires
        from > 0,
        den > 0,
        k >= 0,
        position(from, den, k) >= n * den,
        k > 0 ==> position(from, den, k - 1) < n * den,
    ensures
        k == emitted(from, den, n),
{
    lemma_emitted(from, den, n, k);
    if k > 0 {
        lemma_emitted(from, den, n, k - 1);
    }
}

/// More samples never take outputs back.
pub proof fn law_outputs_only_grow(from: int, den: int, n: int, m: int)
    requires
        from > 0,
        den > 0,
        n <= m,
    ensures
        0 <= emitted(from, den, n) <= emitted(from, den, m),
{
    lemma_emitted(from, den, n, 0);
    lemma_emitted(from, den, m, 0);
    let a = emitted(from, den, n);
    let b = emitted(from, den, m);
    if b < a {
        lemma_emitted(from, den, n, b);
        lemma_emitted(from, den, m, b);
        assert(n * den <= m * den) by (nonlinear_arith)
            requires
                n <= m,
                den > 0,
        {
        }
    }
}

/// The output's length is the input's, less the half kernel that waits for
/// more, times the ratio of the rates, rounded up.
pub proof fn law_length_follows_the_ratio(from: int, den: int, n: int)
    requires
        from > 0,
        den > 0,
        n > HALF,
    ensures
        (n - HALF) * den <= emitted(from, den, n) * from < (n - HALF) * den + from,
        from == den ==> emitted(from, den, n) == n - HALF,
{
    let y = (n - HALF) * den + from - 1;
    let q = y / from;
    lemma_fundamental_div_mod(y, from);
    lemma_mod_bound(y, from);
    assert(from * q == q * from) by (nonlinear_arith);
    if from == den {
        let m = n - HALF;
        assert(q == m) by (nonlinear_arith)
            requires
                m * from <= q * from,
                q * from < m * from + from,
                from > 0,
        {
        }
    }
}

proof fn lemma_floor(p: int, den: int, n: int)
    requires
        den > 0,
        p >= 0,
    ensures
        p / den < n <==> p < n * den,
        0 <= p % den < den,
        p == (p / den) * den + p % den,
        p / den >= 0,
{
    lemma_fundamental_div_mod(p, den);
    lemma_mod_bound(p, den);
    lemma_div_pos_is_pos(p, den);
    let q = p / den;
    assert(den * q == q * den) by (nonlinear_arith);
    if q < n {
        assert(q * den + den <= n * den) by (nonlinear_arith)
            requires
                q + 1 <= n,
                den > 0,
        {
        }
    } else {
        assert(q * den >= n * den) by (nonlinear_arith)
            requires
                q >= n,
                den > 0,
        {
        }
    }
}

/// An output that has come out reads samples that have gone in, so that no
/// later sample changes it.
pub proof fn law_outputs_are_settled<T>(
    zero: T,
    fed: Seq<T>,
    more: Seq<T>,
    from: int,
    den: int,
    k: int,
)
    requires
        from > 0,
        den > 0,
        0 <= k < emitted(from, den, fed.len() as int),
    ensures
        HALF <= center(from, den, k) < fed.len(),
        0 <= phase(from, den, k) < PHASES,
        window(zero, fed + more, center(from, den, k)) == window(
            zero,
            fed,
            center(from, den, k),
        ),
{
    let p = position(from, den, k);
    assert(k * from >= 0) by (nonlinear_arith)
        requires
            k >= 0,
            from > 0,
    {
    }
    lemma_emitted(from, den, fed.len() as int, k);
    lemma_floor(p, den, fed.len() as int);
    lemma_floor(p, den, HALF as int);
    lemma_phase(p, den);
    assert(window(zero, fed + more, p / den) =~= window(zero, fed, p / den));
}

proof fn lemma_phase(p: int, den: int)
    requires
        den > 0,
        p >= 0,
    ensures
        0 <= (p % den) * PHASES / den < PHASES,
{
    lemma_mod_bound(p, den);
    let r = (p % den) * PHASES;
    lemma_fundamental_div_mod(r, den);
    lemma_mod_bound(r, den);
    lemma_div_pos_is_pos(r, den);
    let q = r / den;
    assert(q < PHASES) by (nonlinear_arith)
        requires
            den * q <= r,
            r == (p % den) * PHASES,
            p % den < den,
            den > 0,
            PHASES == 512,
    {
    }
}

/// `after` is the converter `before` once `input` has gone in, and `out` is
/// what came out.
pub open spec fn converted<T, A, P: Fn(A, T) -> A, M: Fn(A, u32) -> T, D: Fn(T, (T, T)) -> T>(
    before: SincResampler<T>,
    after: SincResampler<T>,
    input: Seq<T>,
    out: Seq<T>,
    none: A,
    plus: P,
    mean: M,
    tap: D,
) -> bool {
    let from = before.source();
    let den = before.den();
    let pre = before.pre();
    let old_count = before.fed().len() as int;
    let new_count = after.fed().len() as int;
    &&& after.wf()
    &&& after.source() == from
    &&& after.den() == den
    &&& after.pre() == pre
    &&& after.table() == before.table()
    &&& after.zero() == before.zero()
    &&& after.raw() == before.raw() + input
    &&& before.fed().is_prefix_of(after.fed())
    &&& pre == 1 ==> after.fed() == after.raw()
    &&& pre > 1 ==> new_count == after.raw().len() as int / pre
    &&& pre > 1 ==> forall|g: int|
        old_count <= g < new_count ==> is_mean(
            plus,
            none,
            mean,
            group_of(after.raw(), pre, g),
            #[trigger] after.fed()[g],
        )
    &&& before.is_direct() ==> out == after.fed().skip(old_count)
    &&& !before.is_direct() ==> out.len() == emitted(from, den, new_count) - emitted(
        from,
        den,
        old_count,
    )
    &&& !before.is_direct() ==> are_outputs(
        tap,
        before.zero(),
        before.table(),
        from,
        den,
        after.fed(),
        emitted(from, den, old_count),
        out,
    )
}

/// A converter between two rates.
pub struct SincResampler<T> {
    from: u64,
    den: u64,
    pre: u32,
    /// The read position, in `den`-ths of a sample from `buf[0]`.
    pos: u128,
    table: Vec<T>,
    zero: T,
    /// The samples of the stream that are still within the kernel's reach.
    buf: Vec<T>,
    /// The samples of the group that is not complete yet.
    group: Vec<T>,
    raw: Ghost<Seq<T>>,
    fed: Ghost<Seq<T>>,
}

impl<T> SincResampler<T> {
    /// Every sample that was handed in.
    pub closed spec fn raw(&self) -> Seq<T> {
        self.raw@
    }

    /// Every sample that came out of the first stage.
    pub closed spec fn fed(&self) -> Seq<T> {
        self.fed@
    }

    /// The source rate.
    pub closed spec fn source(&self) -> int {
        self.from as int
    }

    /// The decimation factor times the target rate.
    pub closed spec fn den(&self) -> int {
        self.den as int
    }

    /// The decimation factor of the first stage.
    pub closed spec fn pre(&self) -> int {
        self.pre as int
    }

    pub closed spec fn table(&self) -> Seq<T> {
        self.table@
    }

    /// The silent sample.
    pub closed spec fn zero(&self) -> T {
        self.zero
    }

    /// Both rates are positive, so that the timeline advances.
    pub open spec fn runs(&self) -> bool {
        self.source() > 0 && self.den() > 0
    }

    /// Decimation alone reaches the target rate.
    pub open spec fn is_direct(&self) -> bool {
        self.pre() > 1 && self.source() == self.den()
    }

    pub closed spec fn wf(&self) -> bool {
        &&& 0 < self.pre
        &&& self.from < 0x1_0000_0000
        &&& self.den < 0x1_0000_0000
        &&& self.runs() ==> self.from < 2 * self.den
        &&& self.table@.len() == PHASES * TAPS
        &&& self.grouped()
        &&& self.runs() && !self.is_direct() ==> self.slid(
            emitted(self.from as int, self.den as int, self.fed@.len() as int),
        )
    }

    /// The first stage's state.
    spec fn grouped(&self) -> bool {
        if self.pre == 1 {
            &&& self.fed@ == self.raw@
            &&& self.group@.len() == 0
        } else {
            &&& self.group@.len() < self.pre
            &&& self.raw@.len() == self.fed@.len() * self.pre + self.group@.len()
            &&& self.group@ == self.raw@.skip(self.fed@.len() * self.pre)
        }
    }

    /// Samples of the stream that have left the buffer.
    spec fn gone(&self) -> int {
        HALF + self.fed@.len() - self.buf@.len()
    }

    /// The second stage's state when output `k` is the next one.
    spec fn slid(&self, k: int) -> bool {
        &&& self.gone() >= 0
        &&& self.buf@ == stream(self.zero, self.fed@).skip(self.gone())
        &&& self.pos + self.gone() * self.den == position(self.from as int, self.den as int, k)
        &&& self.pos >= (HALF - 1) * self.den
    }
}

impl<T: Copy> SincResampler<T> {
    /// A converter from `from_rate` to `to_rate` with the kernel `table`
    /// (`PHASES` rows of `TAPS` coefficients).
    pub fn new(from_rate: u32, to_rate: u32, zero: T, table: Vec<T>) -> (r: Self)
        requires
            table@.len() == PHASES * TAPS,
        ensures
            r.wf(),
            r.raw() == Seq::<T>::empty(),
            r.fed() == Seq::<T>::empty(),
            r.source() == from_rate,
            r.pre() == decimation(from_rate as int, to_rate as int),
            r.den() == r.pre() * to_rate,
            r.table() == table@,
            r.zero() == zero,
            r.runs() <==> from_rate > 0 && to_rate > 0,
    {
        let floor: u32 = if to_rate < 1 {
            1
        } else {
            to_rate
        };
        let whole: u32 = from_rate / floor;
        let pre: u32 = if whole < 1 {
            1
        } else {
            whole
        };
        proof {
            lemma_fundamental_div_mod(from_rate as int, floor as int);
            lemma_mod_bound(from_rate as int, floor as int);
            let q = from_rate as int / floor as int;
            assert(whole == q);
            assert(floor * q == q * floor) by (nonlinear_arith);
            assert(pre * to_rate < 0x1_0000_0000) by (nonlinear_arith)
                requires
                    pre == 1 || (pre == q && q * floor <= from_rate),
                    to_rate <= floor,
                    from_rate < 0x1_0000_0000,
                    to_rate < 0x1_0000_0000,
                    pre >= 1,
            {
            }
            if from_rate > 0 && to_rate > 0 {
                assert(pre * to_rate > 0 && from_rate < 2 * (pre * to_rate)) by (nonlinear_arith)
                    requires
                        pre >= 1,
                        pre >= q,
                        floor == to_rate,
                        to_rate > 0,
                        from_rate < q * floor + floor,
                {
                }
            }
        }
        let den: u64 = pre as u64 * to_rate as u64;
        let buf: Vec<T> = vec![zero, zero, zero, zero];
        assert(buf@ == stream(zero, Seq::<T>::empty()));
        let r = SincResampler {
            from: from_rate as u64,
            den,
            pre,
            pos: 4 * den as u128,
            table,
            zero,
            buf,
            group: Vec::new(),
            raw: Ghost(Seq::empty()),
            fed: Ghost(Seq::empty()),
        };
        proof {
            assert(r.raw@.skip(0) == Seq::<T>::empty());
            assert(r.group@ == Seq::<T>::empty());
            assert(0 * (pre as int) == 0) by (nonlinear_arith);
            assert(stream(zero, r.fed@).skip(0) == stream(zero, r.fed@));
            assert(0 * (r.den as int) == 0 && 0 * (r.from as int) == 0) by (nonlinear_arith);
        }
        r
    }

    /// True when the rates are already equal.
    pub fn is_passthrough(&self) -> (r: bool)
        requires
            self.wf(),
        ensures
            r == (self.pre() == 1 && self.runs() && self.source() == self.den()),
    {
        self.pre == 1 && self.from > 0 && self.from == self.den
    }

    /// Slides the kernel over the buffer while its whole window fits, and
    /// drops what it can no longer reach.
    fn run_sinc<D: Fn(T, (T, T)) -> T>(&mut self, out: &mut Vec<T>, tap: &D, Ghost(before): Ghost<int>)
        requires
            0 <= before <= old(self).fed@.len(),
            0 < old(self).pre,
            old(self).from < 0x1_0000_0000,
            old(self).den < 0x1_0000_0000,
            old(self).runs(),
            old(self).from < 2 * old(self).den,
            old(self).table@.len() == PHASES * TAPS,
            old(self).grouped(),
            !old(self).is_direct(),
            old(self).slid(emitted(old(self).from as int, old(self).den as int, before)),
            old(out)@.len() == 0,
            forall|a: T, p: (T, T)| call_requires(*tap, (a, p)),
        ensures
            final(self).wf(),
            final(self).raw() == old(self).raw(),
            final(self).fed() == old(self).fed(),
            final(self).source() == old(self).source(),
            final(self).den() == old(self).den(),
            final(self).pre() == old(self).pre(),
            final(self).table() == old(self).table(),
            final(self).zero() == old(self).zero(),
            final(out)@.len() == emitted(
                old(self).source(),
                old(self).den(),
                old(self).fed().len() as int,
            ) - emitted(old(self).source(), old(self).den(), before),
            are_outputs(
                *tap,
                old(self).zero(),
                old(self).table(),
                old(self).source(),
                old(self).den(),
                old(self).fed(),
                emitted(old(self).source(), old(self).den(), before),
                final(out)@,
            ),
    {
        let n: usize = self.buf.len();
        let den: u128 = self.den as u128;
        let from: u128 = self.from as u128;
        let ghost f = self.from as int;
        let ghost d = self.den as int;
        let ghost total = self.fed@.len() as int;
        let ghost gone = self.gone();
        let ghost first = emitted(f, d, before);
        let ghost s0 = *self;
        proof {
            lemma_emitted(f, d, before, 0);
            if first > 0 {
                lemma_emitted(f, d, before, first - 1);
                assert(before * d <= total * d) by (nonlinear_arith)
                    requires
                        before <= total,
                        d > 0,
                {
                }
            }
            lemma_emitted(f, d, before, first);
            lemma_start_is_bounded(self.pos as int, gone, f, d, first, total);
        }
        let whole: u128 = if n > 4 {
            (n - 4) as u128
        } else {
            0
        };
        assert(whole * den < 0x1_0000_0000_0000_0000 * 0x1_0000_0000) by (nonlinear_arith)
            requires
                whole <= 0xffff_ffff_ffff_ffff,
                0 < den < 0x1_0000_0000,
        {
        }
        let limit: u128 = whole * den;
        while self.pos < limit
            invariant
                limit == whole * den,
                whole == if n > 4 {
                    n - 4
                } else {
                    0
                },
                n == self.buf@.len(),
                den == d,
                from == f,
                0 < f < 2 * d,
                d < 0x1_0000_0000,
                s0.from == f,
                s0.den == d,
                self.raw == s0.raw,
                self.fed == s0.fed,
                self.from == s0.from,
                self.den == s0.den,
                self.pre == s0.pre,
                self.table == s0.table,
                self.zero == s0.zero,
                self.buf == s0.buf,
                self.group == s0.group,
                total == self.fed@.len(),
                gone == self.gone(),
                first == emitted(f, d, before),
                first >= 0,
                self.slid(first + out@.len()),
                self.pos < (n + 6) * d,
                self.table@.len() == PHASES * TAPS,
                first + out@.len() > 0 ==> position(f, d, first + out@.len() - 1) < total * d,
                forall|a: T, p: (T, T)| call_requires(*tap, (a, p)),
                are_outputs(*tap, s0.zero, s0.table@, f, d, s0.fed@, first, out@),
            decreases (n + 6) * d - self.pos,
        {
            let ghost k = first + out@.len();
            let ghost p = self.pos as int;
            proof {
                lemma_floor(p, d, whole as int);
                lemma_floor(p, d, 3);
                lemma_phase(p, d);
                lemma_shift(p, gone, d);
                assert(position(f, d, k) == p + gone * d);
                lemma_floor(position(f, d, k), d, total);
            }
            let c: usize = (self.pos / den) as usize;
            let rest: u128 = self.pos % den;
            assert(rest * 512 < 0x1_0000_0000 * 512);
            let row: usize = (rest * 512 / den) as usize;
            let win: &[T] = vstd::slice::slice_subrange(self.buf.as_slice(), c - 3, c + 5);
            let coefs: &[T] = vstd::slice::slice_subrange(
                self.table.as_slice(),
                row * 8,
                row * 8 + 8,
            );
            let y: T = fold_pairs(tap, self.zero, win, coefs);
            proof {
                assert(center(f, d, k) == c + gone);
                assert(phase(f, d, k) == row);
                assert(win@ == window(s0.zero, s0.fed@, c + gone));
                assert(coefs@ == kernel_row(s0.table@, row as int));
                assert(is_output(*tap, s0.zero, s0.table@, f, d, s0.fed@, k, y));
                assert((k + 1) * f == k * f + f) by (nonlinear_arith);
                assert((n + 6) * d == (n - 4) * d + 10 * d) by (nonlinear_arith);
                assert((n + 6) * d < 0x2_0000_0000_0000_0000 * 0x1_0000_0000) by (nonlinear_arith)
                    requires
                        n <= 0xffff_ffff_ffff_ffff,
                        0 < d < 0x1_0000_0000,
                {
                }
            }
            let ghost outs = out@;
            out.push(y);
            self.pos = self.pos + from;
            proof {
                assert forall|i: int| 0 <= i < out@.len() implies is_output(
                    *tap,
                    s0.zero,
                    s0.table@,
                    f,
                    d,
                    s0.fed@,
                    first + i,
                    #[trigger] out@[i],
                ) by {
                    if i < outs.len() {
                        assert(out@[i] == outs[i]);
                    }
                }
            }
        }
        let ghost k = first + out@.len();
        proof {
            let p = self.pos as int;
            lemma_floor(p, d, n as int - 4);
            lemma_floor(p, d, whole as int);
            lemma_floor(p, d, 3);
            lemma_floor(p, d, n as int + 6);
            lemma_shift(p, gone, d);
            lemma_floor(position(f, d, k), d, total);
            lemma_emitted_is(f, d, total, k);
        }
        let reach: u128 = self.pos / den - 3;
        let keep: usize = if reach < n as u128 {
            reach as usize
        } else {
            n
        };
        let tail: Vec<T> = self.buf.split_off(keep);
        self.buf = tail;
        proof {
            assert(keep * d + 3 * d <= self.pos) by (nonlinear_arith)
                requires
                    keep <= reach,
                    reach == self.pos as int / d - 3,
                    self.pos == (self.pos as int / d) * d + self.pos as int % d,
                    self.pos as int % d >= 0,
                    d > 0,
            {
            }
        }
        let back: u128 = keep as u128 * den;
        self.pos = self.pos - back;
        proof {
            assert((gone + keep) * d == gone * d + keep * d) by (nonlinear_arith);
            assert(self.gone() == gone + keep);
            assert(self.buf@ =~= stream(self.zero, self.fed@).skip(gone + keep));
            assert(self.slid(k));
            assert(k == emitted(f, d, total));
            assert(self.grouped());
        }
    }

    /// First stage: collects groups of `pre` samples and appends their means.
    fn decimate<A: Copy, P: Fn(A, T) -> A, M: Fn(A, u32) -> T>(
        &mut self,
        input: &[T],
        out: &mut Vec<T>,
        none: A,
        plus: &P,
        mean: &M,
    )
        requires
            old(self).pre > 1,
            old(self).grouped(),
            old(out)@.len() == 0,
            forall|a: A, x: T| call_requires(*plus, (a, x)),
            forall|a: A, n: u32| call_requires(*mean, (a, n)),
        ensures
            final(self).grouped(),
            final(self).raw@ == old(self).raw@ + input@,
            final(self).fed@ == old(self).fed@ + final(out)@,
            final(self).from == old(self).from,
            final(self).den == old(self).den,
            final(self).pre == old(self).pre,
            final(self).pos == old(self).pos,
            final(self).table == old(self).table,
            final(self).zero == old(self).zero,
            final(self).buf == old(self).buf,
            forall|g: int|
                old(self).fed@.len() <= g < final(self).fed@.len() ==> is_mean(
                    *plus,
                    none,
                    *mean,
                    group_of(final(self).raw@, old(self).pre as int, g),
                    #[trigger] final(self).fed@[g],
                ),
    {
        let ghost s0 = *self;
        let ghost pre = self.pre as int;
        let mut i: usize = 0;
        assert(s0.raw@ + input@.take(0) == s0.raw@);
        assert(s0.fed@ + out@ == s0.fed@);
        while i < input.len()
            invariant
                i <= input@.len(),
                self.pre == pre,
                pre > 1,
                self.grouped(),
                self.raw@ == s0.raw@ + input@.take(i as int),
                self.fed@ == s0.fed@ + out@,
                self.from == s0.from,
                self.den == s0.den,
                self.pre == s0.pre,
                self.pos == s0.pos,
                self.table == s0.table,
                self.zero == s0.zero,
                self.buf == s0.buf,
                forall|a: A, x: T| call_requires(*plus, (a, x)),
                forall|a: A, n: u32| call_requires(*mean, (a, n)),
                forall|g: int|
                    s0.fed@.len() <= g < self.fed@.len() ==> is_mean(
                        *plus,
                        none,
                        *mean,
                        group_of(self.raw@, pre, g),
                        #[trigger] self.fed@[g],
                    ),
            decreases input@.len() - i,
        {
            let x: T = input[i];
            let ghost raw0 = self.raw@;
            let ghost fed0 = self.fed@;
            let ghost out0 = out@;
            let ghost at = fed0.len() * pre;
            self.group.push(x);
            self.raw = Ghost(raw0.push(x));
            proof {
                assert(input@.take(i + 1) == input@.take(i as int).push(x));
                assert(s0.raw@ + input@.take(i + 1) == raw0.push(x));
                assert(self.group@ =~= raw0.push(x).skip(at));
            }
            if self.group.len() == self.pre as usize {
                let sum: A = fold(plus, none, self.group.as_slice());
                let y: T = mean(sum, self.pre);
                let ghost whole = self.group@;
                out.push(y);
                self.fed = Ghost(fed0.push(y));
                self.group = Vec::new();
                proof {
                    assert(s0.fed@ + out@ == fed0.push(y));
                    assert((fed0.len() + 1) * pre == at + pre) by (nonlinear_arith)
                        requires
                            at == fed0.len() * pre,
                    {
                    }
                    assert(self.group@ =~= raw0.push(x).skip(at + pre));
                    assert(whole =~= group_of(raw0.push(x), pre, fed0.len() as int));
                    assert(call_ensures(*mean, (sum, whole.len() as u32), y));
                    assert(is_mean(*plus, none, *mean, whole, y));
                }
            }
            proof {
                assert forall|g: int| s0.fed@.len() <= g < self.fed@.len() implies is_mean(
                    *plus,
                    none,
                    *mean,
                    group_of(self.raw@, pre, g),
                    #[trigger] self.fed@[g],
                ) by {
                    if g < fed0.len() {
                        assert(self.fed@[g] == fed0[g]);
                        assert(g * pre + pre <= at) by (nonlinear_arith)
                            requires
                                g + 1 <= fed0.len(),
                                at == fed0.len() * pre,
                                pre > 1,
                        {
                        }
                        assert(g * pre >= 0) by (nonlinear_arith)
                            requires
                                g >= 0,
                                pre > 1,
                        {
                        }
                        assert(group_of(self.raw@, pre, g) =~= group_of(raw0, pre, g));
                    }
                }
            }
            i = i + 1;
        }
        assert(input@.take(i as int) == input@);
    }

    /// Converts `input`; `out` is replaced by what comes out.
    ///
    /// `plus` and `mean` average a group of the first stage, starting from
    /// `none`; `tap` adds one product of a sample and a coefficient.
    pub fn process<A: Copy, P: Fn(A, T) -> A, M: Fn(A, u32) -> T, D: Fn(T, (T, T)) -> T>(
        &mut self,
        input: &[T],
        out: &mut Vec<T>,
        none: A,
        plus: &P,
        mean: &M,
        tap: &D,
    )
        requires
            old(self).wf(),
            old(self).runs(),
            forall|a: A, x: T| call_requires(*plus, (a, x)),
            forall|a: A, n: u32| call_requires(*mean, (a, n)),
            forall|a: T, p: (T, T)| call_requires(*tap, (a, p)),
        ensures
            converted(*old(self), *final(self), input@, final(out)@, none, *plus, *mean, *tap),
            old(self).pre() == 1 || old(self).source() != old(self).den() ==> forall|i: int|
                0 <= i < final(out)@.len() ==> is_interpolated(
                    *tap,
                    old(self).zero(),
                    old(self).table(),
                    old(self).source() as int,
                    old(self).den() as int,
                    final(self).fed(),
                    emitted(
                        old(self).source() as int,
                        old(self).den() as int,
                        old(self).fed().len() as int,
                    ) + i,
                    #[trigger] final(out)@[i],
                ),
    {
        let ghost s0 = *self;
        out.clear();
        if self.pre > 1 {
            self.decimate(input, out, none, plus, mean);
            proof {
                self.lemma_group_count();
            }
            if self.from == self.den {
                assert(out@ == self.fed@.skip(s0.fed@.len() as int));
                return;
            }
            let ghost kept = self.buf@;
            let ghost block = out@;
            self.buf.append(out);
            assert(self.buf@ =~= stream(self.zero, self.fed@).skip(s0.gone()));
            self.run_sinc(out, tap, Ghost(s0.fed@.len() as int));
            proof {
                law_every_output_is_interpolated(
                    s0,
                    *self,
                    input@,
                    out@,
                    none,
                    *plus,
                    *mean,
                    *tap,
                );
            }
            return;
        }
        let mut i: usize = 0;
        assert(s0.buf@ + input@.take(0) == s0.buf@);
        while i < input.len()
            invariant
                i <= input@.len(),
                self.buf@ == s0.buf@ + input@.take(i as int),
                *self == (SincResampler { buf: self.buf, ..s0 }),
            decreases input@.len() - i,
        {
            self.buf.push(input[i]);
            assert(input@.take(i + 1) == input@.take(i as int).push(input@[i as int]));
            i = i + 1;
        }
        assert(input@.take(i as int) == input@);
        self.raw = Ghost(s0.raw@ + input@);
        self.fed = Ghost(s0.raw@ + input@);
        assert(self.buf@ =~= stream(self.zero, self.fed@).skip(s0.gone()));
        self.run_sinc(out, tap, Ghost(s0.fed@.len() as int));
        proof {
            law_every_output_is_interpolated(
                s0,
                *self,
                input@,
                out@,
                none,
                *plus,
                *mean,
                *tap,
            );
        }
    }

    proof fn lemma_group_count(&self)
        requires
            self.pre > 1,
            self.grouped(),
        ensures
            self.fed@.len() == self.raw@.len() as int / self.pre as int,
    {
        let q = self.fed@.len() as int;
        let pre = self.pre as int;
        assert(q * pre == pre * q) by (nonlinear_arith);
        vstd::arithmetic::div_mod::lemma_fundamental_div_mod_converse(
            self.raw@.len() as int,
            pre,
            q,
            self.group@.len() as int,
        );
    }
}

/// The second stage's outputs for two chunks, one after the other, are those
/// for both at once.
proof fn lemma_chunked_outputs<T, D: Fn(T, (T, T)) -> T>(
    tap: D,
    zero: T,
    table: Seq<T>,
    from: int,
    den: int,
    fed: Seq<T>,
    first: Seq<T>,
    second: Seq<T>,
    out_first: Seq<T>,
    out_second: Seq<T>,
    out_whole: Seq<T>,
)
    requires
        from > 0,
        den > 0,
        is_function(tap),
        out_first.len() == emitted(from, den, (fed + first).len() as int) - emitted(
            from,
            den,
            fed.len() as int,
        ),
        out_second.len() == emitted(from, den, (fed + first + second).len() as int) - emitted(
            from,
            den,
            (fed + first).len() as int,
        ),
        out_whole.len() == emitted(from, den, (fed + first + second).len() as int) - emitted(
            from,
            den,
            fed.len() as int,
        ),
        are_outputs(
            tap,
            zero,
            table,
            from,
            den,
            fed + first,
            emitted(from, den, fed.len() as int),
            out_first,
        ),
        are_outputs(
            tap,
            zero,
            table,
            from,
            den,
            fed + first + second,
            emitted(from, den, (fed + first).len() as int),
            out_second,
        ),
        are_outputs(
            tap,
            zero,
            table,
            from,
            den,
            fed + first + second,
            emitted(from, den, fed.len() as int),
            out_whole,
        ),
    ensures
        out_first + out_second == out_whole,
{
    let k0 = emitted(from, den, fed.len() as int);
    law_outputs_only_grow(from, den, fed.len() as int, (fed + first).len() as int);
    assert forall|i: int| 0 <= i < out_whole.len() implies (out_first + out_second)[i]
        == out_whole[i] by {
        let whole = fed + first + second;
        let items = zipped(
            window(zero, whole, center(from, den, k0 + i)),
            kernel_row(table, phase(from, den, k0 + i)),
        );
        assert(is_output(tap, zero, table, from, den, whole, k0 + i, out_whole[i]));
        if i < out_first.len() {
            assert(is_output(tap, zero, table, from, den, fed + first, k0 + i, out_first[i]));
            law_outputs_are_settled(zero, fed + first, second, from, den, k0 + i);
            law_fold_is_a_function(tap, zero, items, out_first[i], out_whole[i]);
        } else {
            let j = i - out_first.len();
            assert(is_output(tap, zero, table, from, den, whole, k0 + i, out_second[j]));
            law_fold_is_a_function(tap, zero, items, out_second[j], out_whole[i]);
        }
    }
    assert(out_first + out_second =~= out_whole);
}

/// A group's mean is settled once the group is complete: samples that come
/// later do not change it, as long as the arithmetic gives one result for any
/// arguments.
pub proof fn law_means_are_settled<T, A, P: Fn(A, T) -> A, M: Fn(A, u32) -> T>(
    plus: P,
    none: A,
    mean: M,
    raw: Seq<T>,
    more: Seq<T>,
    pre: int,
    g: int,
    y: T,
    z: T,
)
    requires
        pre > 0,
        0 <= g,
        g * pre + pre <= raw.len(),
        is_function(plus),
        is_one_mean(mean),
        is_mean(plus, none, mean, group_of(raw, pre, g), y),
        is_mean(plus, none, mean, group_of(raw + more, pre, g), z),
    ensures
        y == z,
{
    let group = group_of(raw, pre, g);
    assert(g * pre >= 0) by (nonlinear_arith)
        requires
            g >= 0,
            pre > 0,
    {
    }
    assert(group_of(raw + more, pre, g) =~= group);
    let n = group.len() as u32;
    let a = choose|sum: A|
        chains(plus, none, group, sum) && #[trigger] call_ensures(mean, (sum, n), y);
    let b = choose|sum: A|
        chains(plus, none, group, sum) && #[trigger] call_ensures(mean, (sum, n), z);
    law_fold_is_a_function(plus, none, group, a, b);
}

/// `mean` gives at most one result for any arguments.
pub open spec fn is_one_mean<T, A, M: Fn(A, u32) -> T>(mean: M) -> bool {
    forall|a: A, n: u32, r: T, q: T|
        #[trigger] call_ensures(mean, (a, n), r) && #[trigger] call_ensures(mean, (a, n), q) ==> r
            == q
}

/// The first stage's samples for two chunks, one after the other, are those for
/// both at once.
proof fn lemma_chunked_means<
    T,
    A,
    P: Fn(A, T) -> A,
    M: Fn(A, u32) -> T,
    D: Fn(T, (T, T)) -> T,
>(
    start: SincResampler<T>,
    middle: SincResampler<T>,
    end: SincResampler<T>,
    whole: SincResampler<T>,
    first: Seq<T>,
    second: Seq<T>,
    outs: (Seq<T>, Seq<T>, Seq<T>),
    none: A,
    plus: P,
    mean: M,
    tap: D,
)
    requires
        start.pre() > 1,
        is_function(plus),
        is_one_mean(mean),
        converted(start, middle, first, outs.0, none, plus, mean, tap),
        converted(middle, end, second, outs.1, none, plus, mean, tap),
        converted(start, whole, first + second, outs.2, none, plus, mean, tap),
    ensures
        end.fed() == whole.fed(),
{
    let pre = start.pre() as int;
    let raw = middle.raw();
    assert(whole.raw() =~= end.raw());
    assert(whole.fed().len() == end.fed().len());
    assert forall|g: int| 0 <= g < end.fed().len() implies end.fed()[g] == whole.fed()[g] by {
        if g < start.fed().len() {
            assert(start.fed()[g] == middle.fed()[g]);
            assert(middle.fed()[g] == end.fed()[g]);
            assert(start.fed()[g] == whole.fed()[g]);
        } else {
            let known = if g < middle.fed().len() {
                raw
            } else {
                end.raw()
            };
            let more = if g < middle.fed().len() {
                second
            } else {
                Seq::empty()
            };
            assert(known + more =~= whole.raw());
            if g < middle.fed().len() {
                assert(end.fed()[g] == middle.fed()[g]);
            }
            assert(is_mean(plus, none, mean, group_of(known, pre, g), end.fed()[g]));
            assert(is_mean(plus, none, mean, group_of(known + more, pre, g), whole.fed()[g]));
            let n = known.len() as int;
            lemma_fundamental_div_mod(n, pre);
            lemma_mod_bound(n, pre);
            let q = n / pre;
            assert(g < q);
            assert(g * pre + pre <= pre * q) by (nonlinear_arith)
                requires
                    g + 1 <= q,
                    pre > 0,
            {
            }
            law_means_are_settled(
                plus,
                none,
                mean,
                known,
                more,
                pre,
                g,
                end.fed()[g],
                whole.fed()[g],
            );
        }
    }
    assert(end.fed() =~= whole.fed());
}

/// Chunks are continuous: what comes out of two calls, one after the other, is
/// what comes out of one call on the whole, as long as the arithmetic gives
/// one result for any arguments.
pub proof fn law_chunks_are_continuous<
    T,
    A,
    P: Fn(A, T) -> A,
    M: Fn(A, u32) -> T,
    D: Fn(T, (T, T)) -> T,
>(
    start: SincResampler<T>,
    middle: SincResampler<T>,
    end: SincResampler<T>,
    whole: SincResampler<T>,
    first: Seq<T>,
    second: Seq<T>,
    out_first: Seq<T>,
    out_second: Seq<T>,
    out_whole: Seq<T>,
    none: A,
    plus: P,
    mean: M,
    tap: D,
)
    requires
        start.wf(),
        start.runs(),
        is_function(plus),
        is_one_mean(mean),
        is_function(tap),
        converted(start, middle, first, out_first, none, plus, mean, tap),
        converted(middle, end, second, out_second, none, plus, mean, tap),
        converted(start, whole, first + second, out_whole, none, plus, mean, tap),
    ensures
        out_first + out_second == out_whole,
        end.raw() == whole.raw(),
        end.fed() == whole.fed(),
{
    assert(end.raw() =~= whole.raw());
    if start.pre() > 1 {
        lemma_chunked_means(
            start,
            middle,
            end,
            whole,
            first,
            second,
            (out_first, out_second, out_whole),
            none,
            plus,
            mean,
            tap,
        );
    }
    let fed = start.fed();
    let more = middle.fed().skip(fed.len() as int);
    let last = end.fed().skip(middle.fed().len() as int);
    assert(fed + more =~= middle.fed());
    assert(fed + more + last =~= end.fed());
    if start.is_direct() {
        assert(out_first + out_second =~= out_whole);
    } else {
        lemma_chunked_outputs(
            tap,
            start.zero(),
            start.table(),
            start.source() as int,
            start.den() as int,
            fed,
            more,
            last,
            out_first,
            out_second,
            out_whole,
        );
    }
}

/// Two conversions in a row are one of both inputs, and what came out of them
/// is what came out of it.
proof fn lemma_conversions_join<
    T,
    A,
    P: Fn(A, T) -> A,
    M: Fn(A, u32) -> T,
    D: Fn(T, (T, T)) -> T,
>(
    start: SincResampler<T>,
    middle: SincResampler<T>,
    end: SincResampler<T>,
    first: Seq<T>,
    second: Seq<T>,
    out_first: Seq<T>,
    out_second: Seq<T>,
    none: A,
    plus: P,
    mean: M,
    tap: D,
)
    requires
        start.wf(),
        start.runs(),
        converted(start, middle, first, out_first, none, plus, mean, tap),
        converted(middle, end, second, out_second, none, plus, mean, tap),
    ensures
        converted(start, end, first + second, out_first + out_second, none, plus, mean, tap),
{
    let from = start.source() as int;
    let den = start.den() as int;
    let pre = start.pre() as int;
    let n0 = start.fed().len() as int;
    let n1 = middle.fed().len() as int;
    assert(end.raw() =~= start.raw() + (first + second));
    assert(start.fed().is_prefix_of(end.fed()));
    if pre > 1 {
        assert forall|g: int| n0 <= g < end.fed().len() implies is_mean(
            plus,
            none,
            mean,
            group_of(end.raw(), pre, g),
            #[trigger] end.fed()[g],
        ) by {
            if g < n1 {
                let n = middle.raw().len() as int;
                lemma_fundamental_div_mod(n, pre);
                lemma_mod_bound(n, pre);
                let q = n / pre;
                assert(g * pre + pre <= pre * q) by (nonlinear_arith)
                    requires
                        g + 1 <= q,
                        pre > 0,
                {
                }
                assert(g * pre >= 0) by (nonlinear_arith)
                    requires
                        g >= 0,
                        pre > 0,
                {
                }
                assert(middle.fed()[g] == end.fed()[g]);
                assert(group_of(end.raw(), pre, g) =~= group_of(middle.raw(), pre, g));
            }
        }
    }
    let out = out_first + out_second;
    if start.is_direct() {
        assert(out =~= end.fed().skip(n0));
    } else {
        let k0 = emitted(from, den, n0);
        let k1 = emitted(from, den, n1);
        law_outputs_only_grow(from, den, n0, n1);
        law_outputs_only_grow(from, den, n1, end.fed().len() as int);
        let more = end.fed().skip(n1);
        assert(middle.fed() + more =~= end.fed());
        assert forall|i: int| 0 <= i < out.len() implies is_output(
            tap,
            start.zero(),
            start.table(),
            from,
            den,
            end.fed(),
            k0 + i,
            #[trigger] out[i],
        ) by {
            if i < out_first.len() {
                assert(is_output(
                    tap,
                    start.zero(),
                    start.table(),
                    from,
                    den,
                    middle.fed(),
                    k0 + i,
                    out_first[i],
                ));
                law_outputs_are_settled(start.zero(), middle.fed(), more, from, den, k0 + i);
            } else {
                let j = i - out_first.len();
                assert(is_output(
                    tap,
                    start.zero(),
                    start.table(),
                    from,
                    den,
                    end.fed(),
                    k1 + j,
                    out_second[j],
                ));
            }
        }
    }
}

/// A converter goes through chunks one after the other: `at[i]` takes
/// `chunks[i]`, gives `outs[i]` and becomes `at[i + 1]`.
pub open spec fn is_chunked<
    T,
    A,
    P: Fn(A, T) -> A,
    M: Fn(A, u32) -> T,
    D: Fn(T, (T, T)) -> T,
>(
    at: Seq<SincResampler<T>>,
    chunks: Seq<Seq<T>>,
    outs: Seq<Seq<T>>,
    none: A,
    plus: P,
    mean: M,
    tap: D,
) -> bool {
    &&& at.len() == chunks.len() + 1
    &&& outs.len() == chunks.len()
    &&& forall|i: int|
        0 <= i < chunks.len() ==> converted(
            #[trigger] at[i],
            at[i + 1],
            chunks[i],
            outs[i],
            none,
            plus,
            mean,
            tap,
        )
}

/// Chunks in a row, joined.
pub open spec fn joined<T>(parts: Seq<Seq<T>>) -> Seq<T>
    decreases parts.len(),
{
    if parts.len() == 0 {
        Seq::empty()
    } else {
        joined(parts.drop_last()) + parts.last()
    }
}

proof fn lemma_chunks_join<
    T: Copy,
    A,
    P: Fn(A, T) -> A,
    M: Fn(A, u32) -> T,
    D: Fn(T, (T, T)) -> T,
>(
    at: Seq<SincResampler<T>>,
    chunks: Seq<Seq<T>>,
    outs: Seq<Seq<T>>,
    none: A,
    plus: P,
    mean: M,
    tap: D,
)
    requires
        is_chunked(at, chunks, outs, none, plus, mean, tap),
        at[0].wf(),
        at[0].runs(),
    ensures
        converted(
            at[0],
            at.last(),
            joined(chunks),
            joined(outs),
            none,
            plus,
            mean,
            tap,
        ),
    decreases chunks.len(),
{
    if chunks.len() == 0 {
        lemma_nothing_converts_nothing(at[0], none, plus, mean, tap);
    } else {
        let fewer = at.drop_last();
        let n = chunks.len() - 1;
        assert forall|i: int| 0 <= i < chunks.drop_last().len() implies converted(
            #[trigger] fewer[i],
            fewer[i + 1],
            chunks.drop_last()[i],
            outs.drop_last()[i],
            none,
            plus,
            mean,
            tap,
        ) by {
            assert(fewer[i] == at[i]);
        }
        lemma_chunks_join(fewer, chunks.drop_last(), outs.drop_last(), none, plus, mean, tap);
        assert(fewer.last() == at[n]);
        assert(converted(at[n], at[n + 1], chunks[n], outs[n], none, plus, mean, tap));
        lemma_conversions_join(
            at[0],
            at[n],
            at[n + 1],
            joined(chunks.drop_last()),
            chunks[n],
            joined(outs.drop_last()),
            outs[n],
            none,
            plus,
            mean,
            tap,
        );
    }
}

proof fn lemma_nothing_converts_nothing<
    T: Copy,
    A,
    P: Fn(A, T) -> A,
    M: Fn(A, u32) -> T,
    D: Fn(T, (T, T)) -> T,
>(c: SincResampler<T>, none: A, plus: P, mean: M, tap: D)
    requires
        c.wf(),
    ensures
        converted(c, c, Seq::<T>::empty(), Seq::<T>::empty(), none, plus, mean, tap),
{
    assert(c.raw() + Seq::<T>::empty() == c.raw());
    assert(c.fed().skip(c.fed().len() as int) == Seq::<T>::empty());
    if c.pre() > 1 {
        c.lemma_group_count();
    }
}

/// Into however many chunks an input is cut, what comes out is what comes out of
/// it at once, as long as the arithmetic gives one result for any arguments.
pub proof fn law_any_chunks_are_continuous<
    T: Copy,
    A,
    P: Fn(A, T) -> A,
    M: Fn(A, u32) -> T,
    D: Fn(T, (T, T)) -> T,
>(
    at: Seq<SincResampler<T>>,
    chunks: Seq<Seq<T>>,
    outs: Seq<Seq<T>>,
    whole: SincResampler<T>,
    out_whole: Seq<T>,
    none: A,
    plus: P,
    mean: M,
    tap: D,
)
    requires
        is_chunked(at, chunks, outs, none, plus, mean, tap),
        at[0].wf(),
        at[0].runs(),
        is_function(plus),
        is_one_mean(mean),
        is_function(tap),
        converted(at[0], whole, joined(chunks), out_whole, none, plus, mean, tap),
    ensures
        joined(outs) == out_whole,
        at.last().fed() == whole.fed(),
{
    lemma_chunks_join(at, chunks, outs, none, plus, mean, tap);
    let end = at.last();
    let nothing = Seq::<T>::empty();
    lemma_nothing_converts_nothing(end, none, plus, mean, tap);
    assert(joined(chunks) + nothing == joined(chunks));
    law_chunks_are_continuous(
        at[0],
        end,
        end,
        whole,
        joined(chunks),
        nothing,
        joined(outs),
        nothing,
        out_whole,
        none,
        plus,
        mean,
        tap,
    );
    assert(joined(outs) + nothing == joined(outs));
}

proof fn lemma_start_is_bounded(p: int, gone: int, f: int, d: int, k: int, total: int)
    requires
        0 < f < 2 * d,
        gone >= 0,
        total >= 0,
        gone <= HALF + total,
        k >= 0,
        p + gone * d == position(f, d, k),
        k > 0 ==> position(f, d, k - 1) < total * d,
    ensures
        p < (HALF + total - gone + 6) * d,
{
    let n = HALF + total - gone;
    assert((n + 6) * d == total * d - gone * d + 10 * d) by (nonlinear_arith)
        requires
            n == HALF + total - gone,
            HALF == 4,
    {
    }
    if k > 0 {
        assert(k * f == (k - 1) * f + f) by (nonlinear_arith);
    } else {
        assert(k * f == 0) by (nonlinear_arith)
            requires
                k == 0,
        {
        }
        assert(total * d >= 0) by (nonlinear_arith)
            requires
                total >= 0,
                d > 0,
        {
        }
    }
}

proof fn lemma_shift(p: int, gone: int, d: int)
    requires
        p >= 0,
        d > 0,
    ensures
        (p + gone * d) / d == p / d + gone,
        (p + gone * d) % d == p % d,
{
    vstd::arithmetic::div_mod::lemma_fundamental_div_mod(p, d);
    vstd::arithmetic::div_mod::lemma_mod_bound(p, d);
    let q = p / d + gone;
    let r = p % d;
    assert(p + gone * d == q * d + r) by (nonlinear_arith)
        requires
            p == d * (p / d) + r,
            q == p / d + gone,
    {
    }
    vstd::arithmetic::div_mod::lemma_fundamental_div_mod_converse(p + gone * d, d, q, r);
}

} // verus!
