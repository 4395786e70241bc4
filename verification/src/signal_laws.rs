//! What comes of samples, whatever they are: which of them enter which result,
//! and in which order.
use crate::capture::delivered;
use crate::downmix::{
    channel_count, column, frame_of, is_mono, kind_of, raw_samples, width, Raw, SampleKind,
};
use crate::fold::{chains, zipped};
use crate::process::{fade_gains, faded, gives, is_block, settled_level};
use crate::resample::{
    center, converted, decimation, emitted, group_of, is_mean, is_output, kernel_row, phase, window,
    SincResampler, HALF, PHASES, TAPS,
};
use crate::ring::{
    blended, distance, feed_of, fed_count, gains_of, is_ring_size, mixed, purged_count,
    pushed_count, pushed_onto, rest_of, run_slot, AudioRing,
};
use vstd::prelude::*;

verus! {

// ────────────────────────────────── folds ──────────────────────────────────
/// `f` goes through the items one by one: `acc` holds what it has made of them
/// before the first and after each.
pub open spec fn goes_through<A, X, F: Fn(A, X) -> A>(
    f: F,
    start: A,
    xs: Seq<X>,
    acc: Seq<A>,
) -> bool {
    &&& acc.len() == xs.len() + 1
    &&& acc[0] == start
    &&& forall|i: int|
        0 <= i < xs.len() ==> call_ensures(f, (#[trigger] acc[i], xs[i]), acc[i + 1])
}

/// A fold goes through every item once, in order, and ends with what it has
/// made of the last.
pub proof fn law_a_fold_takes_every_item<A, X, F: Fn(A, X) -> A>(
    f: F,
    start: A,
    xs: Seq<X>,
    end: A,
) -> (acc: Seq<A>)
    requires
        chains(f, start, xs, end),
    ensures
        goes_through(f, start, xs, acc),
        acc.last() == end,
    decreases xs.len(),
{
    if xs.len() == 0 {
        seq![start]
    } else {
        let mid = choose|mid: A|
            chains(f, start, xs.drop_last(), mid) && #[trigger] call_ensures(
                f,
                (mid, xs.last()),
                end,
            );
        let short = law_a_fold_takes_every_item(f, start, xs.drop_last(), mid);
        let acc = short.push(end);
        assert forall|i: int| 0 <= i < xs.len() implies call_ensures(
            f,
            (#[trigger] acc[i], xs[i]),
            acc[i + 1],
        ) by {
            if i < xs.len() - 1 {
                assert(acc[i] == short[i] && acc[i + 1] == short[i + 1]);
                assert(xs.drop_last()[i] == xs[i]);
            } else {
                assert(acc[i] == short.last());
            }
        }
        acc
    }
}

/// Two runs are paired up place by place.
pub proof fn law_pairs_are_side_by_side<X>(xs: Seq<X>, ys: Seq<X>, i: int)
    requires
        0 <= i < xs.len(),
    ensures
        zipped(xs, ys).len() == xs.len(),
        zipped(xs, ys)[i].0 == xs[i],
        zipped(xs, ys)[i].1 == ys[i],
{
}

// ───────────────────────────────── downmix ─────────────────────────────────
/// A mono sample is the finished sum of exactly the channels of its frame, each
/// once and in order, and the finish is told their number.
pub proof fn law_a_frame_is_averaged_whole<X, A, R, P: Fn(A, X) -> A, M: Fn(A, usize) -> R>(
    plus: P,
    none: A,
    finish: M,
    samples: Seq<X>,
    ch: int,
    f: int,
    y: R,
) -> (sums: Seq<A>)
    requires
        0 <= f,
        1 <= ch <= usize::MAX,
        0 <= f * ch,
        f * ch + ch <= samples.len(),
        is_mono(plus, none, finish, frame_of(samples, ch, f), y),
    ensures
        sums.len() == ch + 1,
        sums[0] == none,
        forall|c: int|
            0 <= c < ch ==> call_ensures(
                plus,
                (#[trigger] sums[c], samples[f * ch + c]),
                sums[c + 1],
            ),
        call_ensures(finish, (sums[ch], ch as usize), y),
{
    let frame = frame_of(samples, ch, f);
    let sum = choose|sum: A|
        chains(plus, none, frame, sum) && #[trigger] call_ensures(
            finish,
            (sum, frame.len() as usize),
            y,
        );
    let sums = law_a_fold_takes_every_item(plus, none, frame, sum);
    assert forall|c: int| 0 <= c < ch implies call_ensures(
        plus,
        (#[trigger] sums[c], samples[f * ch + c]),
        sums[c + 1],
    ) by {
        assert(frame[c] == samples[f * ch + c]);
    }
    sums
}

/// A frame has every channel's sample, and the frames together are the buffer.
pub proof fn law_frames_make_up_the_buffer<X>(samples: Seq<X>, ch: int, f: int, c: int)
    requires
        0 <= f,
        0 <= c < ch,
        0 <= f * ch,
        f * ch + ch <= samples.len(),
    ensures
        frame_of(samples, ch, f).len() == ch,
        frame_of(samples, ch, f)[c] == samples[f * ch + c],
{
}

/// A frame across planar channels has one sample of each, silent where the
/// channel is too short.
pub proof fn law_a_column_has_every_plane<X>(planes: Seq<Vec<X>>, zero: X, f: int, c: int)
    requires
        0 <= c < planes.len(),
        0 <= f,
    ensures
        column(planes, zero, f).len() == planes.len(),
        f < planes[c]@.len() ==> column(planes, zero, f)[c] == planes[c]@[f],
        f >= planes[c]@.len() ==> column(planes, zero, f)[c] == zero,
{
}

/// The mono sample of planar channels is the finished sum of every channel's
/// sample, and the finish is told their number.
pub proof fn law_planes_are_averaged_whole<X, A, R, P: Fn(A, X) -> A, M: Fn(A, usize) -> R>(
    plus: P,
    none: A,
    finish: M,
    planes: Seq<Vec<X>>,
    zero: X,
    f: int,
    y: R,
) -> (sums: Seq<A>)
    requires
        0 <= f,
        planes.len() <= usize::MAX,
        is_mono(plus, none, finish, column(planes, zero, f), y),
    ensures
        sums.len() == planes.len() + 1,
        sums[0] == none,
        forall|c: int|
            0 <= c < planes.len() ==> call_ensures(
                plus,
                (
                    #[trigger] sums[c],
                    if f < planes[c]@.len() {
                        planes[c]@[f]
                    } else {
                        zero
                    },
                ),
                sums[c + 1],
            ),
        call_ensures(finish, (sums[planes.len() as int], planes.len() as usize), y),
{
    let frame = column(planes, zero, f);
    let sum = choose|sum: A|
        chains(plus, none, frame, sum) && #[trigger] call_ensures(
            finish,
            (sum, frame.len() as usize),
            y,
        );
    let sums = law_a_fold_takes_every_item(plus, none, frame, sum);
    assert forall|c: int| 0 <= c < planes.len() implies call_ensures(
        plus,
        (
            #[trigger] sums[c],
            if f < planes[c]@.len() {
                planes[c]@[f]
            } else {
                zero
            },
        ),
        sums[c + 1],
    ) by {
        assert(frame[c] == if f < planes[c]@.len() {
            planes[c]@[f]
        } else {
            zero
        });
    }
    sums
}

/// A format is read as what it declares; all but three are not understood.
pub proof fn law_formats_are_told_apart(float: bool, bits: u16)
    ensures
        kind_of(float, bits) == SampleKind::Float <==> float && bits == 32,
        kind_of(float, bits) == SampleKind::Short <==> !float && bits == 16,
        kind_of(float, bits) == SampleKind::Long <==> !float && bits == 32,
        kind_of(float, bits) != SampleKind::Unknown ==> 8 * width(kind_of(float, bits)) == bits,
{
}

/// The samples of a buffer stand one behind the other, lowest byte first; the
/// integers are in two's complement.
pub proof fn law_samples_are_read_in_place(kind: SampleKind, bytes: Seq<u8>, count: int, i: int)
    requires
        0 <= i < count,
        kind != SampleKind::Unknown,
        count * width(kind) <= bytes.len(),
    ensures
        raw_samples(kind, bytes, count).len() == count,
        kind == SampleKind::Float ==> (raw_samples(kind, bytes, count)[i] matches Raw::Float(b) && b
            == bytes[4 * i] + 256 * bytes[4 * i + 1] + 65_536 * bytes[4 * i + 2] + 16_777_216
            * bytes[4 * i + 3]),
        kind == SampleKind::Short ==> (raw_samples(kind, bytes, count)[i] matches Raw::Short(n) && (
        n - (bytes[2 * i] + 256 * bytes[2 * i + 1]) == 0 || n - (bytes[2 * i] + 256 * bytes[2 * i
            + 1]) == -65_536)),
        kind == SampleKind::Long ==> (raw_samples(kind, bytes, count)[i] matches Raw::Long(n) && (n
            - (bytes[4 * i] + 256 * bytes[4 * i + 1] + 65_536 * bytes[4 * i + 2] + 16_777_216
            * bytes[4 * i + 3]) == 0 || n - (bytes[4 * i] + 256 * bytes[4 * i + 1] + 65_536
            * bytes[4 * i + 2] + 16_777_216 * bytes[4 * i + 3]) == -4_294_967_296)),
        kind == SampleKind::Float ==> raw_samples(kind, bytes, count)[i] is Float,
{
}

/// No channels count as one; any other number as itself.
pub proof fn law_there_is_a_channel(channels: usize)
    ensures
        channels == 0 ==> channel_count(channels) == 1,
        channels > 0 ==> channel_count(channels) == channels,
{
}

// ──────────────────────────────── converter ────────────────────────────────
/// The first stage's groups are as large as they can be without going under the
/// target rate; below twice the target rate there are none.
pub proof fn law_decimation_stays_above_the_target(from: int, to: int)
    requires
        from >= 0,
        to > 0,
    ensures
        decimation(from, to) >= 1,
        decimation(from, to) > 1 ==> decimation(from, to) * to <= from,
        from < (decimation(from, to) + 1) * to,
        from >= 1 ==> decimation(from, 0) == from,
        decimation(0, 0) == 1,
{
    vstd::arithmetic::div_mod::lemma_fundamental_div_mod(from, to);
    vstd::arithmetic::div_mod::lemma_mod_bound(from, to);
    let q = from / to;
    let d = decimation(from, to);
    vstd::arithmetic::div_mod::lemma_div_pos_is_pos(from, to);
    assert(to * q == q * to) by (nonlinear_arith);
    assert((q + 1) * to == q * to + to) by (nonlinear_arith);
    assert((d + 1) * to >= (q + 1) * to) by (nonlinear_arith)
        requires
            d >= q,
            to > 0,
    {
    }
}

/// A converter takes in everything, in order; without groups the second stage
/// sees the samples as they are, else the mean of each whole group: the sum of
/// its samples, each once and in order, scaled by their number.
pub proof fn law_groups_are_averaged_whole<
    T,
    A,
    P: Fn(A, T) -> A,
    M: Fn(A, u32) -> T,
    D: Fn(T, (T, T)) -> T,
>(
    before: SincResampler<T>,
    after: SincResampler<T>,
    input: Seq<T>,
    out: Seq<T>,
    none: A,
    plus: P,
    mean: M,
    tap: D,
    g: int,
) -> (sums: Seq<A>)
    requires
        before.pre() >= 1,
        converted(before, after, input, out, none, plus, mean, tap),
        before.pre() > 1 ==> before.fed().len() <= g < after.fed().len(),
        before.pre() <= u32::MAX,
    ensures
        after.raw() == before.raw() + input,
        after.fed().take(before.fed().len() as int) == before.fed(),
        before.pre() == 1 ==> after.fed() == after.raw(),
        before.pre() > 1 ==> after.fed().len() * before.pre() <= after.raw().len() < (
        after.fed().len() + 1) * before.pre(),
        before.pre() > 1 ==> {
            &&& sums.len() == before.pre() + 1
            &&& sums[0] == none
            &&& forall|c: int|
                0 <= c < before.pre() ==> call_ensures(
                    plus,
                    (#[trigger] sums[c], after.raw()[g * before.pre() + c]),
                    sums[c + 1],
                )
            &&& call_ensures(mean, (sums[before.pre() as int], before.pre() as u32), after.fed()[g])
        },
{
    assert(after.fed().take(before.fed().len() as int) =~= before.fed());
    if before.pre() == 1 {
        Seq::empty()
    } else {
        let pre = before.pre() as int;
        let n = after.raw().len() as int;
        vstd::arithmetic::div_mod::lemma_fundamental_div_mod(n, pre);
        vstd::arithmetic::div_mod::lemma_mod_bound(n, pre);
        let q = n / pre;
        assert(pre * q == q * pre) by (nonlinear_arith);
        assert((q + 1) * pre == q * pre + pre) by (nonlinear_arith);
        assert(0 <= g * pre && g * pre + pre <= q * pre) by (nonlinear_arith)
            requires
                0 <= g,
                g + 1 <= q,
                pre > 0,
        {
        }
        let group = group_of(after.raw(), pre, g);
        let y = after.fed()[g];
        assert(is_mean(plus, none, mean, group, y));
        let sum = choose|sum: A|
            chains(plus, none, group, sum) && #[trigger] call_ensures(
                mean,
                (sum, group.len() as u32),
                y,
            );
        let sums = law_a_fold_takes_every_item(plus, none, group, sum);
        assert forall|c: int| 0 <= c < pre implies call_ensures(
            plus,
            (#[trigger] sums[c], after.raw()[g * pre + c]),
            sums[c + 1],
        ) by {
            assert(group[c] == after.raw()[g * pre + c]);
        }
        sums
    }
}

/// Where the rates are a whole number apart, the means are the output.
pub proof fn law_whole_ratios_need_no_kernel<
    T,
    A,
    P: Fn(A, T) -> A,
    M: Fn(A, u32) -> T,
    D: Fn(T, (T, T)) -> T,
>(
    before: SincResampler<T>,
    after: SincResampler<T>,
    input: Seq<T>,
    out: Seq<T>,
    none: A,
    plus: P,
    mean: M,
    tap: D,
)
    requires
        before.pre() > 1,
        before.source() == before.den(),
        converted(before, after, input, out, none, plus, mean, tap),
    ensures
        before.fed() + out == after.fed(),
{
    assert(before.fed() + out =~= after.fed());
}

/// A converter that runs gives every output that has come out: their numbers
/// follow on those of the calls before.
pub proof fn law_no_output_is_lost<
    T,
    A,
    P: Fn(A, T) -> A,
    M: Fn(A, u32) -> T,
    D: Fn(T, (T, T)) -> T,
>(
    before: SincResampler<T>,
    after: SincResampler<T>,
    input: Seq<T>,
    out: Seq<T>,
    none: A,
    plus: P,
    mean: M,
    tap: D,
)
    requires
        before.source() > 0,
        before.den() > 0,
        before.pre() == 1 || before.source() != before.den(),
        converted(before, after, input, out, none, plus, mean, tap),
    ensures
        emitted(before.source() as int, before.den() as int, before.fed().len() as int) + out.len()
            == emitted(before.source() as int, before.den() as int, after.fed().len() as int),
        after.source() == before.source(),
        after.den() == before.den(),
        after.pre() == before.pre(),
        after.table() == before.table(),
        after.zero() == before.zero(),
{
    crate::resample::law_outputs_only_grow(
        before.source() as int,
        before.den() as int,
        before.fed().len() as int,
        after.fed().len() as int,
    );
}

/// The place of a sample in the stream that starts with four silent ones.
pub open spec fn heard<T>(zero: T, fed: Seq<T>, at: int) -> T {
    if at < 4 {
        zero
    } else {
        fed[at - 4]
    }
}

/// An output is interpolated at its own position. Output `k` of the stream
/// stands at `p / den`, where `p == 4 * den + k * from`. Let `c` be the sample at
/// or before that position and `r` the kernel row of what is left, in 512ths of
/// a sample. Then the output is the sum, in order, of the eight products of the
/// samples from `c - 3` to `c + 4` with the coefficients of row `r`.
pub proof fn law_outputs_stand_at_their_positions<
    T,
    A,
    P: Fn(A, T) -> A,
    M: Fn(A, u32) -> T,
    D: Fn(T, (T, T)) -> T,
>(
    before: SincResampler<T>,
    after: SincResampler<T>,
    input: Seq<T>,
    out: Seq<T>,
    none: A,
    plus: P,
    mean: M,
    tap: D,
    i: int,
    k: int,
    p: int,
    c: int,
    r: int,
) -> (sums: Seq<T>)
    requires
        before.wf(),
        before.source() > 0,
        before.den() > 0,
        before.pre() == 1 || before.source() != before.den(),
        before.table().len() == 4096,
        converted(before, after, input, out, none, plus, mean, tap),
        0 <= i < out.len(),
        k == i + emitted(before.source() as int, before.den() as int, before.fed().len() as int),
        p == 4 * before.den() + k * before.source(),
        c * before.den() <= p < c * before.den() + before.den(),
        r * before.den() <= (p - c * before.den()) * 512 < (r + 1) * before.den(),
    ensures
        0 <= r < 512,
        4 <= c < after.fed().len(),
        sums.len() == 9,
        sums[0] == before.zero(),
        forall|t: int|
            0 <= t < 8 ==> call_ensures(
                tap,
                (
                    #[trigger] sums[t],
                    (
                        heard(before.zero(), after.fed(), c - 3 + t),
                        before.table()[r * 8 + t],
                    ),
                ),
                sums[t + 1],
            ),
        sums[8] == out[i],
{
    let from = before.source() as int;
    let den = before.den() as int;
    let n0 = before.fed().len() as int;
    let n1 = after.fed().len() as int;
    let zero = before.zero();
    let table = before.table();
    crate::resample::law_outputs_only_grow(from, den, n0, n1);
    assert(is_output(tap, zero, table, from, den, after.fed(), k, out[i]));
    crate::resample::law_outputs_are_settled(zero, after.fed(), Seq::<T>::empty(), from, den, k);
    let left = p - c * den;
    vstd::arithmetic::div_mod::lemma_fundamental_div_mod_converse(p, den, c, left);
    assert(center(from, den, k) == c);
    let most = left * 512;
    assert((r + 1) * den == r * den + den) by (nonlinear_arith);
    vstd::arithmetic::div_mod::lemma_fundamental_div_mod_converse(most, den, r, most - r * den);
    assert(phase(from, den, k) == r);
    let xs = window(zero, after.fed(), c);
    let ys = kernel_row(table, r);
    let pairs = zipped(xs, ys);
    let sums = law_a_fold_takes_every_item(tap, zero, pairs, out[i]);
    assert forall|t: int| 0 <= t < 8 implies call_ensures(
        tap,
        (#[trigger] sums[t], (heard(zero, after.fed(), c - 3 + t), table[r * 8 + t])),
        sums[t + 1],
    ) by {
        assert(pairs[t] == (xs[t], ys[t]));
        assert(xs[t] == heard(zero, after.fed(), c - 3 + t));
        assert(ys[t] == table[r * 8 + t]);
    }
    sums
}

/// Position `p / den`, where `p == 4 * den + k * from`, lies at or behind sample
/// `c` and before the next, and what is left is row `r` of 512 to a sample.
pub open spec fn is_place(from: int, den: int, k: int, c: int, r: int) -> bool {
    let p = 4 * den + k * from;
    &&& c * den <= p < c * den + den
    &&& r * den <= (p - c * den) * 512 < (r + 1) * den
}

/// `y` is interpolated at the place of output `k`: the sum, in order, of the
/// products of the eight samples around it with the coefficients of its row.
pub open spec fn is_interpolated<T, D: Fn(T, (T, T)) -> T>(
    tap: D,
    zero: T,
    table: Seq<T>,
    from: int,
    den: int,
    fed: Seq<T>,
    k: int,
    y: T,
) -> bool {
    exists|c: int, r: int, sums: Seq<T>|
        is_place(from, den, k, c, r) && #[trigger] adds_up(tap, zero, table, fed, c, r, sums)
            && sums[8] == y
}

/// `sums` are the sums of the products of the samples around `c` with row `r`,
/// one product more each time.
pub open spec fn adds_up<T, D: Fn(T, (T, T)) -> T>(
    tap: D,
    zero: T,
    table: Seq<T>,
    fed: Seq<T>,
    c: int,
    r: int,
    sums: Seq<T>,
) -> bool {
    &&& sums.len() == 9
    &&& sums[0] == zero
    &&& forall|t: int|
        0 <= t < 8 ==> call_ensures(
            tap,
            (#[trigger] sums[t], (heard(zero, fed, c - 3 + t), table[r * 8 + t])),
            sums[t + 1],
        )
}

/// Every output of a converter that interpolates is interpolated at its own
/// place.
pub proof fn law_every_output_is_interpolated<
    T,
    A,
    P: Fn(A, T) -> A,
    M: Fn(A, u32) -> T,
    D: Fn(T, (T, T)) -> T,
>(
    before: SincResampler<T>,
    after: SincResampler<T>,
    input: Seq<T>,
    out: Seq<T>,
    none: A,
    plus: P,
    mean: M,
    tap: D,
)
    requires
        before.wf(),
        before.source() > 0,
        before.den() > 0,
        before.pre() == 1 || before.source() != before.den(),
        before.table().len() == 4096,
        converted(before, after, input, out, none, plus, mean, tap),
    ensures
        forall|i: int|
            0 <= i < out.len() ==> is_interpolated(
                tap,
                before.zero(),
                before.table(),
                before.source() as int,
                before.den() as int,
                after.fed(),
                emitted(before.source() as int, before.den() as int, before.fed().len() as int) + i,
                #[trigger] out[i],
            ),
{
    let from = before.source() as int;
    let den = before.den() as int;
    let first = emitted(from, den, before.fed().len() as int);
    assert forall|i: int| 0 <= i < out.len() implies is_interpolated(
        tap,
        before.zero(),
        before.table(),
        from,
        den,
        after.fed(),
        first + i,
        #[trigger] out[i],
    ) by {
        let k = first + i;
        law_outputs_come_as_soon_as_they_can(from, den, before.fed().len() as int, 0);
        law_rows_follow_the_fraction(from, den, k, k);
        let p = 4 * den + k * from;
        let c = center(from, den, k);
        let r = phase(from, den, k);
        let left = (k * from) % den;
        vstd::arithmetic::div_mod::lemma_fundamental_div_mod(p, den);
        vstd::arithmetic::div_mod::lemma_mod_multiples_vanish(4, k * from, den);
        assert(den * 4 + k * from == p);
        assert(den * (p / den) == (p / den) * den) by (nonlinear_arith);
        assert(p - c * den == left);
        let sums = law_outputs_stand_at_their_positions(
            before,
            after,
            input,
            out,
            none,
            plus,
            mean,
            tap,
            i,
            k,
            p,
            c,
            r,
        );
        assert(is_place(from, den, k, c, r));
        assert(adds_up(tap, before.zero(), before.table(), after.fed(), c, r, sums));
    }
}

/// Outputs whose fractional positions lie a 512th or more apart use different
/// kernel rows; those at the same fraction use the same.
pub proof fn law_rows_follow_the_fraction(from: int, den: int, k: int, m: int)
    requires
        from > 0,
        den > 0,
        k >= 0,
        m >= 0,
    ensures
        ((k * from) % den - (m * from) % den) * 512 >= den ==> phase(from, den, k) > phase(
            from,
            den,
            m,
        ),
        (k * from) % den == (m * from) % den ==> phase(from, den, k) == phase(from, den, m),
        phase(from, den, k) * den <= ((k * from) % den) * 512 < (phase(from, den, k) + 1) * den,
        center(from, den, k) * den <= 4 * den + k * from < center(from, den, k) * den + den,
{
    let a = (k * from) % den;
    let b = (m * from) % den;
    vstd::arithmetic::div_mod::lemma_mod_multiples_vanish(4, k * from, den);
    vstd::arithmetic::div_mod::lemma_mod_multiples_vanish(4, m * from, den);
    assert(den * 4 + k * from == 4 * den + k * from);
    assert(den * 4 + m * from == 4 * den + m * from);
    let x = a * 512;
    let y = b * 512;
    vstd::arithmetic::div_mod::lemma_fundamental_div_mod(x, den);
    vstd::arithmetic::div_mod::lemma_mod_bound(x, den);
    vstd::arithmetic::div_mod::lemma_fundamental_div_mod(y, den);
    vstd::arithmetic::div_mod::lemma_mod_bound(y, den);
    let p = 4 * den + k * from;
    vstd::arithmetic::div_mod::lemma_fundamental_div_mod(p, den);
    vstd::arithmetic::div_mod::lemma_mod_bound(p, den);
    let rk = phase(from, den, k);
    let rm = phase(from, den, m);
    assert(rk == x / den && rm == y / den);
    assert(den * rk == rk * den && den * rm == rm * den && (rk + 1) * den == rk * den + den) by (
    nonlinear_arith);
    assert(den * (p / den) == (p / den) * den) by (nonlinear_arith);
    if x - y >= den {
        assert(rk > rm) by (nonlinear_arith)
            requires
                rk * den + x % den == x,
                rm * den + y % den == y,
                x % den < den,
                0 <= y % den,
                x - y >= den,
                den > 0,
        {
        }
    }
}

/// An output comes out as soon as the four samples behind its centre are in,
/// and no sooner.
pub proof fn law_outputs_come_as_soon_as_they_can(from: int, den: int, n: int, k: int)
    requires
        from > 0,
        den > 0,
        n >= 0,
        k >= 0,
    ensures
        k < emitted(from, den, n) <==> k * from < (n - 4) * den,
        emitted(from, den, n) >= 0,
{
    let x = (n - 4) * den;
    if n <= 4 {
        assert(x <= 0) by (nonlinear_arith)
            requires
                x == (n - 4) * den,
                n <= 4,
                den > 0,
        {
        }
        assert(k * from >= 0) by (nonlinear_arith)
            requires
                k >= 0,
                from > 0,
        {
        }
    } else {
        let y = x + from - 1;
        let q = y / from;
        assert(x > 0) by (nonlinear_arith)
            requires
                x == (n - 4) * den,
                n > 4,
                den > 0,
        {
        }
        vstd::arithmetic::div_mod::lemma_fundamental_div_mod(y, from);
        vstd::arithmetic::div_mod::lemma_mod_bound(y, from);
        vstd::arithmetic::div_mod::lemma_div_pos_is_pos(y, from);
        assert(from * q == q * from) by (nonlinear_arith);
        assert(k < q <==> k * from < x) by (nonlinear_arith)
            requires
                x <= q * from,
                q * from < x + from,
                from > 0,
        {
        }
    }
}

// ────────────────────────────────── ring ───────────────────────────────────
/// As many samples are taken in as fit, as many are purged as are older than the
/// budget, and as many are fed as are left and asked for.
pub proof fn law_counts_are_the_largest_possible<T>(
    cap: int,
    held: Seq<T>,
    block: Seq<T>,
    backlog: int,
    frames: int,
)
    requires
        held.len() <= cap,
        backlog >= 0,
        frames >= 0,
    ensures
        pushed_onto(cap, held, block).len() == held.len() + block.len() || pushed_onto(
            cap,
            held,
            block,
        ).len() == cap,
        held.is_prefix_of(pushed_onto(cap, held, block)),
        pushed_onto(cap, held, block).is_prefix_of(held + block),
        feed_of(held, backlog, frames).len() <= frames,
        feed_of(held, backlog, frames).len() == frames || rest_of(held, backlog, frames).len() == 0,
        feed_of(held, backlog, frames).len() + rest_of(held, backlog, frames).len() == held.len()
            || feed_of(held, backlog, frames).len() + rest_of(held, backlog, frames).len()
            == backlog,
        held.len() <= backlog ==> feed_of(held, backlog, frames) + rest_of(held, backlog, frames)
            == held,
        held.len() > backlog ==> feed_of(held, backlog, frames) + rest_of(held, backlog, frames)
            == held.skip(held.len() - backlog),
{
    assert(held.len() <= backlog ==> feed_of(held, backlog, frames) + rest_of(
        held,
        backlog,
        frames,
    ) =~= held);
    assert(held.len() > backlog ==> feed_of(held, backlog, frames) + rest_of(
        held,
        backlog,
        frames,
    ) =~= held.skip(held.len() - backlog));
}

/// The counts themselves: what a full ring has no room for is dropped, what
/// exceeds the budget is purged, and no more is fed than is asked for.
pub proof fn law_counts_are_exact(cap: int, held: int, len: int, backlog: int, frames: int)
    requires
        0 <= held <= cap,
        len >= 0,
        backlog >= 0,
        frames >= 0,
    ensures
        held + len <= cap ==> pushed_count(cap, held, len) == len,
        held + len >= cap ==> pushed_count(cap, held, len) == cap - held,
        held <= backlog ==> purged_count(held, backlog) == 0,
        held >= backlog ==> purged_count(held, backlog) == held - backlog,
        fed_count(held, backlog, frames) <= frames,
        fed_count(held, backlog, frames) <= held - purged_count(held, backlog),
        fed_count(held, backlog, frames) == frames || fed_count(held, backlog, frames) == held
            - purged_count(held, backlog),
{
}

/// Every channel of a fed frame hears its sample at its frame's gain, unless
/// that gain is silent; every other slot keeps its value.
pub proof fn law_every_channel_hears_the_sample<
    T,
    C: FnMut(usize) -> T,
    S: Fn(T) -> bool,
    A: Fn(T, T, T) -> T,
>(
    coef: C,
    before: Seq<T>,
    after: Seq<T>,
    samples: Seq<T>,
    gains: Seq<T>,
    channels: int,
    silent: S,
    blend: A,
    f: int,
    c: int,
    rest: int,
)
    requires
        gains_of(coef, gains),
        mixed(before, after, samples, gains, channels, silent, blend),
        0 <= f < samples.len(),
        0 <= c < channels,
        0 <= f * channels,
        f * channels + c < before.len(),
        samples.len() * channels <= rest < before.len(),
        samples.len() <= usize::MAX,
    ensures
        after.len() == before.len(),
        call_ensures(coef, (f as usize,), gains[f]),
        (call_ensures(silent, (gains[f],), true) && after[f * channels + c] == before[f * channels
            + c]) || (call_ensures(silent, (gains[f],), false) && call_ensures(
            blend,
            (before[f * channels + c], samples[f], gains[f]),
            after[f * channels + c],
        )),
        after[rest] == before[rest],
{
    let i = f * channels + c;
    vstd::arithmetic::div_mod::lemma_fundamental_div_mod_converse(i, channels, f, c);
    assert(i / channels == f);
    assert(blended(silent, blend, before[i], samples[f], gains[f], after[i]));
    vstd::arithmetic::div_mod::lemma_fundamental_div_mod(rest, channels);
    vstd::arithmetic::div_mod::lemma_mod_bound(rest, channels);
    let q = rest / channels;
    let n = samples.len() as int;
    assert(q >= n) by (nonlinear_arith)
        requires
            n * channels <= rest,
            rest == channels * q + rest % channels,
            rest % channels < channels,
            channels > 0,
    {
    }
    assert(after[rest] == before[rest]);
}

/// Every channel of every fed frame hears its sample, also where the block ends
/// with the last of them.
pub proof fn law_every_slot_is_decided<T, S: Fn(T) -> bool, A: Fn(T, T, T) -> T>(
    before: Seq<T>,
    after: Seq<T>,
    samples: Seq<T>,
    gains: Seq<T>,
    channels: int,
    silent: S,
    blend: A,
    i: int,
    f: int,
)
    requires
        mixed(before, after, samples, gains, channels, silent, blend),
        0 <= i < before.len(),
        channels > 0,
        0 <= f * channels <= i < f * channels + channels,
    ensures
        f < samples.len() ==> (call_ensures(silent, (gains[f],), true) && after[i] == before[i])
            || (call_ensures(silent, (gains[f],), false) && call_ensures(
            blend,
            (before[i], samples[f], gains[f]),
            after[i],
        )),
        f >= samples.len() ==> after[i] == before[i],
        gains.len() == samples.len(),
{
    vstd::arithmetic::div_mod::lemma_fundamental_div_mod_converse(
        i,
        channels,
        f,
        i - f * channels,
    );
    if f < samples.len() {
        assert(blended(silent, blend, before[i], samples[f], gains[f], after[i]));
    }
}

/// A ring has a power of two of slots, two or more.
pub proof fn law_rings_have_a_power_of_two(k: nat, cap: int)
    requires
        k >= 1,
    ensures
        is_ring_size(vstd::arithmetic::power2::pow2(k) as int),
        is_ring_size(cap) ==> cap >= 2 && (cap == 2 || (cap % 2 == 0 && is_ring_size(cap / 2))),
{
    vstd::arithmetic::power2::lemma_pow2_unfold(k);
    vstd::arithmetic::power2::lemma_pow2_pos((k - 1) as nat);
    if is_ring_size(cap) {
        let n = choose|n: nat| #[trigger] vstd::arithmetic::power2::pow2(n) == cap;
        if n == 0 {
            vstd::arithmetic::power2::lemma2_to64();
        } else {
            vstd::arithmetic::power2::lemma_pow2_unfold(n);
            assert(vstd::arithmetic::power2::pow2((n - 1) as nat) == cap / 2);
        }
    }
}

/// The held samples lie between the two counters, which may have wrapped.
pub proof fn law_counters_wrap(read: usize, held: usize)
    ensures
        distance(read, read.wrapping_add(held)) == held,
{
}

/// A run of slots starts at `start`, and goes on at slot zero after `first` of
/// them.
pub proof fn law_runs_go_on_at_zero(start: int, first: int, j: int)
    ensures
        j < first ==> run_slot(start, first, j) == start + j,
        j >= first ==> run_slot(start, first, j) == j - first,
{
}

// ───────────────────────────────── delivery ────────────────────────────────
/// What the worker delivers goes into the ring whole, behind what the ring held,
/// as far as it fits: the samples as they are where no converter is needed, else
/// exactly what the converter made of them.
pub proof fn law_delivery_is_whole<
    T,
    A,
    P: Fn(A, T) -> A,
    M: Fn(A, u32) -> T,
    D: Fn(T, (T, T)) -> T,
>(
    before: (Option<SincResampler<T>>, AudioRing<T>),
    after: (Option<SincResampler<T>>, AudioRing<T>),
    mono: Seq<T>,
    out: Seq<T>,
    none: A,
    plus: P,
    mean: M,
    tap: D,
)
    requires
        before.1@.len() <= before.1.capacity(),
        delivered(before, after, mono, out, none, plus, mean, tap),
    ensures
        after.1.capacity() == before.1.capacity(),
        after.1.underruns() == before.1.underruns(),
        after.1.dropped() == before.1.dropped().wrapping_add(
            (before.1@.len() + (if before.0 is Some {
                out.len()
            } else {
                mono.len()
            }) - after.1@.len()) as u64,
        ),
        before.0 is None ==> {
            &&& after.0 is None
            &&& after.1@.is_prefix_of(before.1@ + mono)
            &&& after.1@ == before.1@ + mono || after.1@.len() == before.1.capacity()
        },
        before.0 is Some ==> {
            &&& after.0 is Some
            &&& converted(before.0->0, after.0->0, mono, out, none, plus, mean, tap)
            &&& after.1@.is_prefix_of(before.1@ + out)
            &&& after.1@ == before.1@ + out || after.1@.len() == before.1.capacity()
        },
{
    let block = if before.0 is Some {
        out
    } else {
        mono
    };
    crate::ring::law_newest_are_dropped(before.1.capacity(), before.1@, block);
}

// ───────────────────────────────── the fade ────────────────────────────────
/// The level moves one step per frame towards its end, and stays there.
pub proof fn law_the_level_moves_step_by_step(level: int, active: bool, steps: int)
    requires
        0 <= level <= 480,
        0 <= steps,
    ensures
        active && level + steps <= 480 ==> faded(level, active, steps) == level + steps,
        active && level + steps >= 480 ==> faded(level, active, steps) == 480,
        !active && steps <= level ==> faded(level, active, steps) == level - steps,
        !active && steps >= level ==> faded(level, active, steps) == 0,
{
}

/// While a session mixes, the level waits for samples; afterwards it does not.
pub proof fn law_only_fed_frames_fade_in(level: int, frames: int, take: int)
    requires
        0 <= level <= 480,
        0 <= take <= frames,
    ensures
        level + take <= 480 ==> settled_level(level, true, frames, take) == level + take,
        level + take >= 480 ==> settled_level(level, true, frames, take) == 480,
        frames <= level ==> settled_level(level, false, frames, take) == level - frames,
        frames >= level ==> settled_level(level, false, frames, take) == 0,
{
}

/// The gain of frame `i` is the one for the level after its own step.
pub proof fn law_gains_follow_the_level<T, S: Fn(u32) -> T>(
    scale: &S,
    level: int,
    active: bool,
    gains: Seq<T>,
    i: int,
)
    requires
        0 <= level <= 480,
        0 <= i < gains.len(),
        fade_gains(scale, level, active, gains),
    ensures
        active && level + i + 1 <= 480 ==> call_ensures(
            *scale,
            ((level + i + 1) as u32,),
            gains[i],
        ),
        active && level + i + 1 > 480 ==> call_ensures(*scale, (480u32,), gains[i]),
        !active && i + 1 <= level ==> call_ensures(*scale, ((level - i - 1) as u32,), gains[i]),
        !active && i + 1 > level ==> call_ensures(*scale, (0u32,), gains[i]),
{
    assert(gives(scale, faded(level, active, i + 1), gains[i]));
}

/// A call hands over a block exactly where both pointers are there and neither
/// count is zero.
pub proof fn law_a_block_has_samples(
    data_null: bool,
    bypass_null: bool,
    samples: u32,
    channels: u32,
)
    ensures
        is_block(data_null, bypass_null, samples, channels) <==> !(data_null || bypass_null
            || samples == 0 || channels == 0),
{
}

/// The ring, its budget and the fade, at the host's rate.
pub proof fn law_the_times_of_the_audio_path()
    ensures
        crate::process::FADE_SAMPLES * 100 == crate::TARGET_RATE,
        crate::process::BACKLOG_SAMPLES * 10 == 3 * crate::TARGET_RATE,
        crate::process::RING_CAP == 65_536,
        crate::TARGET_RATE == 48_000,
        HALF == 4 && TAPS == 8 && PHASES == 512,
{
}

} // verus!
