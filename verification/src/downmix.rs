//! Channel downmix: interleaved or planar samples to one mono stream.
//!
//! Every backend shares these rules, so that the downmix sounds the same
//! everywhere: a mono sample is the scaled sum of its frame's channels.
use crate::fold::{chains, fold};
use vstd::prelude::*;

verus! {

/// A sample as it lies in a capture buffer.
#[derive(Clone, Copy, PartialEq, Eq, Structural, Debug)]
pub enum Raw {
    /// The bits of a 32-bit float.
    Float(u32),
    Short(i16),
    Long(i32),
}

/// How capture buffers are to be read.
#[derive(Clone, Copy, PartialEq, Eq, Structural, Debug)]
pub enum SampleKind {
    Float,
    Short,
    Long,
    /// Not understood: its frames count as silence.
    Unknown,
}

/// The kind of a declared format.
pub open spec fn kind_of(float: bool, bits: u16) -> SampleKind {
    if float && bits == 32 {
        SampleKind::Float
    } else if !float && bits == 16 {
        SampleKind::Short
    } else if !float && bits == 32 {
        SampleKind::Long
    } else {
        SampleKind::Unknown
    }
}

/// The kind of a declared format.
pub fn sample_kind(float: bool, bits: u16) -> (r: SampleKind)
    ensures
        r == kind_of(float, bits),
{
    if float && bits == 32 {
        SampleKind::Float
    } else if !float && bits == 16 {
        SampleKind::Short
    } else if !float && bits == 32 {
        SampleKind::Long
    } else {
        SampleKind::Unknown
    }
}

/// Bytes per sample.
pub open spec fn width(kind: SampleKind) -> int {
    match kind {
        SampleKind::Float => 4,
        SampleKind::Short => 2,
        SampleKind::Long => 4,
        SampleKind::Unknown => 0,
    }
}

/// The unsigned number in the four bytes from `at` on, lowest byte first.
pub open spec fn le32(bytes: Seq<u8>, at: int) -> int {
    bytes[at] + 0x100 * bytes[at + 1] + 0x1_0000 * bytes[at + 2] + 0x100_0000 * bytes[at + 3]
}

/// The unsigned number in the two bytes from `at` on, lowest byte first.
pub open spec fn le16(bytes: Seq<u8>, at: int) -> int {
    bytes[at] + 0x100 * bytes[at + 1]
}

/// Reads four bytes, lowest first.
pub fn read_le32(bytes: &[u8], at: usize) -> (r: u32)
    requires
        at + 4 <= bytes@.len(),
    ensures
        r == le32(bytes@, at as int),
{
    let _size: usize = bytes.len();
    bytes[at] as u32 + 0x100 * bytes[at + 1] as u32 + 0x1_0000 * bytes[at + 2] as u32 + 0x100_0000
        * bytes[at + 3] as u32
}

/// A two's-complement reading of `bits`-wide numbers, where `span` is `2^bits`.
pub open spec fn signed(n: int, span: int) -> int {
    if 2 * n >= span {
        n - span
    } else {
        n
    }
}

/// The `i`-th sample of a buffer.
pub open spec fn raw_at(kind: SampleKind, bytes: Seq<u8>, i: int) -> Raw {
    match kind {
        SampleKind::Float => Raw::Float(le32(bytes, 4 * i) as u32),
        SampleKind::Short => Raw::Short(signed(le16(bytes, 2 * i), 0x1_0000) as i16),
        SampleKind::Long => Raw::Long(signed(le32(bytes, 4 * i), 0x1_0000_0000) as i32),
        SampleKind::Unknown => Raw::Float(0),
    }
}

/// The first `count` samples of a buffer.
pub open spec fn raw_samples(kind: SampleKind, bytes: Seq<u8>, count: int) -> Seq<Raw> {
    Seq::new(count as nat, |i: int| raw_at(kind, bytes, i))
}

fn decode_one(kind: SampleKind, bytes: &[u8], i: usize) -> (r: Raw)
    requires
        kind != SampleKind::Unknown,
        (i + 1) * width(kind) <= bytes@.len(),
    ensures
        r == raw_at(kind, bytes@, i as int),
{
    let _size: usize = bytes.len();
    match kind {
        SampleKind::Short => {
            let at: usize = 2 * i;
            let v: i32 = bytes[at] as i32 + 0x100 * bytes[at + 1] as i32;
            if v >= 0x8000 {
                Raw::Short((v - 0x1_0000) as i16)
            } else {
                Raw::Short(v as i16)
            }
        },
        SampleKind::Long => {
            let v: i64 = read_le32(bytes, 4 * i) as i64;
            if v >= 0x8000_0000 {
                Raw::Long((v - 0x1_0000_0000) as i32)
            } else {
                Raw::Long(v as i32)
            }
        },
        _ => Raw::Float(read_le32(bytes, 4 * i)),
    }
}

/// Decodes the first `count` samples of a buffer.
pub fn decode(kind: SampleKind, bytes: &[u8], count: usize) -> (r: Vec<Raw>)
    requires
        kind != SampleKind::Unknown,
        count * width(kind) <= bytes@.len(),
    ensures
        r@ == raw_samples(kind, bytes@, count as int),
{
    let mut out: Vec<Raw> = Vec::new();
    let mut i: usize = 0;
    while i < count
        invariant
            i <= count,
            kind != SampleKind::Unknown,
            count * width(kind) <= bytes@.len(),
            out@ == raw_samples(kind, bytes@, i as int),
        decreases count - i,
    {
        assert((i + 1) * width(kind) <= count * width(kind)) by (nonlinear_arith)
            requires
                i + 1 <= count,
                0 <= width(kind),
        {
        }
        out.push(decode_one(kind, bytes, i));
        i = i + 1;
    }
    out
}

/// `y` is the mono sample of a frame: the sum of its channels, finished.
pub open spec fn is_mono<X, A, R, P: Fn(A, X) -> A, M: Fn(A, usize) -> R>(
    plus: P,
    none: A,
    finish: M,
    channels: Seq<X>,
    y: R,
) -> bool {
    exists|sum: A|
        chains(plus, none, channels, sum) && #[trigger] call_ensures(
            finish,
            (sum, channels.len() as usize),
            y,
        )
}

/// The channels of interleaved frame `f`.
pub open spec fn frame_of<X>(samples: Seq<X>, ch: int, f: int) -> Seq<X> {
    samples.subrange(f * ch, f * ch + ch)
}

/// Appends one mono sample per interleaved frame of `ch` channels.
pub fn downmix_interleaved<X: Copy, A: Copy, R, P: Fn(A, X) -> A, M: Fn(A, usize) -> R>(
    samples: &[X],
    frames: usize,
    ch: usize,
    none: A,
    plus: &P,
    finish: &M,
    out: &mut Vec<R>,
)
    requires
        frames * ch <= samples@.len(),
        forall|a: A, x: X| call_requires(*plus, (a, x)),
        forall|a: A, n: usize| call_requires(*finish, (a, n)),
    ensures
        final(out)@.len() == old(out)@.len() + frames,
        final(out)@.take(old(out)@.len() as int) == old(out)@,
        forall|f: int|
            0 <= f < frames ==> is_mono(
                *plus,
                none,
                *finish,
                #[trigger] frame_of(samples@, ch as int, f),
                final(out)@[old(out)@.len() + f],
            ),
{
    let ghost before = out@;
    let size: usize = samples.len();
    let mut f: usize = 0;
    while f < frames
        invariant
            f <= frames,
            size == samples@.len(),
            frames * ch <= samples@.len(),
            forall|a: A, x: X| call_requires(*plus, (a, x)),
            forall|a: A, n: usize| call_requires(*finish, (a, n)),
            out@.len() == before.len() + f,
            out@.take(before.len() as int) == before,
            forall|g: int|
                0 <= g < f ==> is_mono(
                    *plus,
                    none,
                    *finish,
                    #[trigger] frame_of(samples@, ch as int, g),
                    out@[before.len() + g],
                ),
        decreases frames - f,
    {
        assert(f * ch + ch <= frames * ch) by (nonlinear_arith)
            requires
                f + 1 <= frames,
        {
        }
        assert(f * ch >= 0) by (nonlinear_arith);
        let at: usize = f * ch;
        let frame: &[X] = vstd::slice::slice_subrange(samples, at, at + ch);
        let sum: A = fold(plus, none, frame);
        let y: R = finish(sum, ch);
        assert(frame@ == frame_of(samples@, ch as int, f as int));
        assert(call_ensures(*finish, (sum, frame@.len() as usize), y));
        let ghost held = out@;
        out.push(y);
        assert(out@.take(before.len() as int) =~= held.take(before.len() as int));
        assert forall|g: int| 0 <= g < f + 1 implies is_mono(
            *plus,
            none,
            *finish,
            #[trigger] frame_of(samples@, ch as int, g),
            out@[before.len() + g],
        ) by {
            if g < f {
                assert(out@[before.len() + g] == held[before.len() + g]);
            }
        }
        f = f + 1;
    }
    assert(out@.take(before.len() as int) =~= before);
}

/// At least one channel.
pub open spec fn channel_count(channels: usize) -> int {
    if channels < 1 {
        1
    } else {
        channels as int
    }
}

/// Appends `frames` mono samples read from a capture buffer; a format that is
/// not understood counts as silence.
pub fn convert_interleaved_to_mono<
    A: Copy,
    R: Copy,
    P: Fn(A, Raw) -> A,
    M: Fn(A, usize) -> R,
>(
    src: &[u8],
    frames: usize,
    channels: usize,
    bits: u16,
    float: bool,
    none: A,
    plus: &P,
    finish: &M,
    silence: R,
    out: &mut Vec<R>,
)
    requires
        frames * channel_count(channels) * width(kind_of(float, bits)) <= src@.len(),
        frames * channel_count(channels) <= usize::MAX,
        forall|a: A, x: Raw| call_requires(*plus, (a, x)),
        forall|a: A, n: usize| call_requires(*finish, (a, n)),
    ensures
        final(out)@.len() == old(out)@.len() + frames,
        final(out)@.take(old(out)@.len() as int) == old(out)@,
        kind_of(float, bits) == SampleKind::Unknown ==> forall|f: int|
            0 <= f < frames ==> #[trigger] final(out)@[old(out)@.len() + f] == silence,
        kind_of(float, bits) != SampleKind::Unknown ==> forall|f: int|
            0 <= f < frames ==> is_mono(
                *plus,
                none,
                *finish,
                #[trigger] frame_of(
                    raw_samples(kind_of(float, bits), src@, frames * channel_count(channels)),
                    channel_count(channels),
                    f,
                ),
                final(out)@[old(out)@.len() + f],
            ),
{
    let ch: usize = if channels < 1 {
        1
    } else {
        channels
    };
    let kind = sample_kind(float, bits);
    match kind {
        SampleKind::Unknown => {
            let ghost before = out@;
            let mut f: usize = 0;
            while f < frames
                invariant
                    f <= frames,
                    out@.len() == before.len() + f,
                    out@.take(before.len() as int) == before,
                    forall|g: int| 0 <= g < f ==> #[trigger] out@[before.len() + g] == silence,
                decreases frames - f,
            {
                let ghost held = out@;
                out.push(silence);
                assert(out@.take(before.len() as int) =~= held.take(before.len() as int));
                assert forall|g: int| 0 <= g < f + 1 implies #[trigger] out@[before.len() + g]
                    == silence by {
                    if g < f {
                        assert(out@[before.len() + g] == held[before.len() + g]);
                    }
                }
                f = f + 1;
            }
            assert(out@.take(before.len() as int) =~= before);
        },
        _ => {
            let count: usize = frames * ch;
            let samples: Vec<Raw> = decode(kind, src, count);
            downmix_interleaved(samples.as_slice(), frames, ch, none, plus, finish, out);
        },
    }
}

/// The samples of frame `f` across planar channels; a channel that is too
/// short counts as silent.
pub open spec fn column<X>(planes: Seq<Vec<X>>, zero: X, f: int) -> Seq<X> {
    Seq::new(
        planes.len(),
        |c: int|
            if f < planes[c]@.len() {
                planes[c]@[f]
            } else {
                zero
            },
    )
}

/// Appends one mono sample per frame of planar channels.
pub fn downmix_planar<X: Copy, A: Copy, R, P: Fn(A, X) -> A, M: Fn(A, usize) -> R>(
    planes: &Vec<Vec<X>>,
    frames: usize,
    zero: X,
    none: A,
    plus: &P,
    finish: &M,
    out: &mut Vec<R>,
)
    requires
        forall|a: A, x: X| call_requires(*plus, (a, x)),
        forall|a: A, n: usize| call_requires(*finish, (a, n)),
    ensures
        final(out)@.len() == old(out)@.len() + frames,
        final(out)@.take(old(out)@.len() as int) == old(out)@,
        forall|f: int|
            0 <= f < frames ==> is_mono(
                *plus,
                none,
                *finish,
                #[trigger] column(planes@, zero, f),
                final(out)@[old(out)@.len() + f],
            ),
{
    let ghost before = out@;
    let mut f: usize = 0;
    while f < frames
        invariant
            f <= frames,
            forall|a: A, x: X| call_requires(*plus, (a, x)),
            forall|a: A, n: usize| call_requires(*finish, (a, n)),
            out@.len() == before.len() + f,
            out@.take(before.len() as int) == before,
            forall|g: int|
                0 <= g < f ==> is_mono(
                    *plus,
                    none,
                    *finish,
                    #[trigger] column(planes@, zero, g),
                    out@[before.len() + g],
                ),
        decreases frames - f,
    {
        let mut items: Vec<X> = Vec::new();
        let mut c: usize = 0;
        while c < planes.len()
            invariant
                c <= planes@.len(),
                items@ == column(planes@, zero, f as int).take(c as int),
            decreases planes@.len() - c,
        {
            let plane: &Vec<X> = &planes[c];
            let x: X = if f < plane.len() {
                plane[f]
            } else {
                zero
            };
            items.push(x);
            assert(items@ =~= column(planes@, zero, f as int).take(c + 1));
            c = c + 1;
        }
        assert(items@ =~= column(planes@, zero, f as int));
        let sum: A = fold(plus, none, items.as_slice());
        let y: R = finish(sum, planes.len());
        assert(call_ensures(*finish, (sum, items@.len() as usize), y));
        let ghost held = out@;
        out.push(y);
        assert(out@.take(before.len() as int) =~= held.take(before.len() as int));
        assert forall|g: int| 0 <= g < f + 1 implies is_mono(
            *plus,
            none,
            *finish,
            #[trigger] column(planes@, zero, g),
            out@[before.len() + g],
        ) by {
            if g < f {
                assert(out@[before.len() + g] == held[before.len() + g]);
            }
        }
        f = f + 1;
    }
    assert(out@.take(before.len() as int) =~= before);
}

} // verus!
