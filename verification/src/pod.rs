//! SPA object pods: the byte layout in which PipeWire describes raw-audio
//! formats.
//!
//! An object pod is `[size, type][object type, number of properties]`, then the
//! properties; a property is `[value size, value type]`, the value padded to
//! eight bytes, then `[key, flags]`. All numbers are 32-bit, lowest byte first.
use crate::downmix::{le32, read_le32};
use vstd::prelude::*;

verus! {

/// The numbers that the SPA headers give to what a format pod speaks of.
#[derive(Clone, Copy, Debug)]
pub struct SpaIds {
    pub type_object: u32,
    pub type_id: u32,
    pub type_int: u32,
    pub object_format: u32,
    pub key_media_type: u32,
    pub key_media_subtype: u32,
    pub key_format: u32,
    pub key_rate: u32,
    pub key_channels: u32,
    pub media_type_audio: u32,
    pub media_subtype_raw: u32,
    pub format_f32: u32,
    pub format_s16: u32,
    pub format_s32: u32,
}

/// A negotiated raw-audio format (`kind`: 0 is F32, 1 is S16, 2 is S32).
#[derive(Clone, Copy, PartialEq, Eq, Structural, Debug)]
pub struct Fmt {
    pub rate: u32,
    pub channels: usize,
    pub kind: u8,
}

/// Bits per sample of a kind.
pub open spec fn bits_of(kind: u8) -> u16 {
    if kind == 1 {
        16
    } else {
        32
    }
}

impl Fmt {
    /// Bits per sample.
    pub fn bits(&self) -> (r: u16)
        ensures
            r == bits_of(self.kind),
    {
        match self.kind {
            0 => 32,
            1 => 16,
            _ => 32,
        }
    }

    /// Bytes per frame.
    pub fn frame_bytes(&self) -> (r: usize)
        requires
            self.channels * 4 <= usize::MAX,
        ensures
            r == self.channels * (bits_of(self.kind) / 8),
    {
        let bytes: usize = if self.bits() == 16 {
            2
        } else {
            4
        };
        self.channels * bytes
    }
}

/// The number at `off`, if it lies within the bytes.
pub open spec fn u32_at(bytes: Seq<u8>, off: int) -> Option<u32> {
    if 0 <= off && off + 4 <= bytes.len() {
        Some(le32(bytes, off) as u32)
    } else {
        None
    }
}

fn read_u32(bytes: &[u8], off: u128) -> (r: Option<u32>)
    ensures
        r == u32_at(bytes@, off as int),
{
    let n: u128 = bytes.len() as u128;
    if n >= 4 && off <= n - 4 {
        Some(read_le32(bytes, off as usize))
    } else {
        None
    }
}

/// What the properties read so far say; zero rate, zero channels and kind 255
/// stand for "not said".
#[derive(Clone, Copy, PartialEq, Eq, Structural, Debug)]
pub struct Said {
    pub rate: u32,
    pub channels: u32,
    pub kind: u8,
}

/// The kind of a sample format.
pub open spec fn kind_of_format(ids: SpaIds, id: u32) -> u8 {
    if id == ids.format_f32 {
        0
    } else if id == ids.format_s16 {
        1
    } else if id == ids.format_s32 {
        2
    } else {
        255
    }
}

/// What a property adds; `value` is the number at the value's place.
pub open spec fn said_with(
    ids: SpaIds,
    said: Said,
    key: u32,
    vtype: u32,
    value: Option<u32>,
) -> Option<Said> {
    if key == ids.key_format && vtype == ids.type_id {
        match value {
            Some(v) => Some(Said { kind: kind_of_format(ids, v), ..said }),
            None => None,
        }
    } else if key == ids.key_rate && vtype == ids.type_int {
        match value {
            Some(v) => Some(Said { rate: v, ..said }),
            None => None,
        }
    } else if key == ids.key_channels && vtype == ids.type_int {
        match value {
            Some(v) => Some(Said { channels: v, ..said }),
            None => None,
        }
    } else {
        Some(said)
    }
}

/// The value size rounded up to eight bytes.
pub open spec fn padded(size: int) -> int {
    (size + 7) / 8 * 8
}

/// Reads `n` properties from `off` on; nothing comes of bytes that end early.
#[verifier::opaque]
pub open spec fn walk(ids: SpaIds, bytes: Seq<u8>, off: int, n: nat, said: Said) -> Option<Said>
    decreases n,
{
    if n == 0 {
        Some(said)
    } else {
        match (u32_at(bytes, off), u32_at(bytes, off + 4)) {
            (Some(size), Some(vtype)) => {
                let key_off = off + 8 + padded(size as int);
                match u32_at(bytes, key_off) {
                    Some(key) => match said_with(ids, said, key, vtype, u32_at(bytes, off + 8)) {
                        Some(next) => walk(ids, bytes, key_off + 8, (n - 1) as nat, next),
                        None => None,
                    },
                    None => None,
                }
            },
            _ => None,
        }
    }
}

/// The format that an object pod describes: rate, channels and a sample format
/// of a known kind must all be said.
pub open spec fn format_of(ids: SpaIds, bytes: Seq<u8>) -> Option<Fmt> {
    match (u32_at(bytes, 4), u32_at(bytes, 12)) {
        (Some(t), Some(n)) => if t == ids.type_object {
            match walk(ids, bytes, 16, n as nat, Said { rate: 0, channels: 0, kind: 255 }) {
                Some(said) => if said.rate == 0 || said.channels == 0 || said.kind == 255 {
                    None
                } else {
                    Some(
                        Fmt { rate: said.rate, channels: said.channels as usize, kind: said.kind },
                    )
                },
                None => None,
            }
        } else {
            None
        },
        _ => None,
    }
}

fn say(ids: &SpaIds, said: Said, key: u32, vtype: u32, value: Option<u32>) -> (r: Option<Said>)
    ensures
        r == said_with(*ids, said, key, vtype, value),
{
    if key == ids.key_format && vtype == ids.type_id {
        match value {
            Some(v) => {
                let kind: u8 = if v == ids.format_f32 {
                    0
                } else if v == ids.format_s16 {
                    1
                } else if v == ids.format_s32 {
                    2
                } else {
                    255
                };
                Some(Said { rate: said.rate, channels: said.channels, kind })
            },
            None => None,
        }
    } else if key == ids.key_rate && vtype == ids.type_int {
        match value {
            Some(v) => Some(Said { rate: v, channels: said.channels, kind: said.kind }),
            None => None,
        }
    } else if key == ids.key_channels && vtype == ids.type_int {
        match value {
            Some(v) => Some(Said { rate: said.rate, channels: v, kind: said.kind }),
            None => None,
        }
    } else {
        Some(said)
    }
}

/// Reads a format pod.
pub fn parse_format_pod(ids: &SpaIds, bytes: &[u8]) -> (r: Option<Fmt>)
    ensures
        r == format_of(*ids, bytes@),
{
    let size: usize = bytes.len();
    let t: u32 = match read_u32(bytes, 4) {
        Some(t) => t,
        None => {
            return None;
        },
    };
    let n_props: u32 = match read_u32(bytes, 12) {
        Some(n) => n,
        None => {
            return None;
        },
    };
    if t != ids.type_object {
        return None;
    }
    let ghost start = Said { rate: 0, channels: 0, kind: 255 };
    let mut said = Said { rate: 0, channels: 0, kind: 255 };
    let mut off: u128 = 16;
    let mut left: u32 = n_props;
    while left > 0
        invariant
            start == (Said { rate: 0, channels: 0, kind: 255 }),
            u32_at(bytes@, 4) == Some(t),
            u32_at(bytes@, 12) == Some(n_props),
            t == ids.type_object,
            size == bytes@.len(),
            off <= bytes@.len() + 16,
            walk(*ids, bytes@, off as int, left as nat, said) == walk(
                *ids,
                bytes@,
                16,
                n_props as nat,
                start,
            ),
        decreases left,
    {
        reveal(walk);
        let vsize: u32 = match read_u32(bytes, off) {
            Some(v) => v,
            None => {
                return None;
            },
        };
        let vtype: u32 = match read_u32(bytes, off + 4) {
            Some(v) => v,
            None => {
                return None;
            },
        };
        let padding: u128 = (vsize as u128 + 7) / 8 * 8;
        let key_off: u128 = off + 8 + padding;
        let key: u32 = match read_u32(bytes, key_off) {
            Some(v) => v,
            None => {
                return None;
            },
        };
        match say(ids, said, key, vtype, read_u32(bytes, off + 8)) {
            Some(next) => {
                said = next;
            },
            None => {
                return None;
            },
        }
        off = key_off + 8;
        left = left - 1;
    }
    assert(walk(*ids, bytes@, off as int, 0, said) == Some(said)) by {
        reveal(walk);
    }
    if said.rate == 0 || said.channels == 0 || said.kind == 255 {
        return None;
    }
    Some(Fmt { rate: said.rate, channels: said.channels as usize, kind: said.kind })
}

// ────────────────────────────── writing pods ───────────────────────────────
/// The four bytes of a number, lowest first.
pub open spec fn bytes32(n: u32) -> Seq<u8> {
    seq![
        (n % 0x100) as u8,
        (n / 0x100 % 0x100) as u8,
        (n / 0x1_0000 % 0x100) as u8,
        (n / 0x100_0000) as u8,
    ]
}

/// A property with a four-byte value.
#[verifier::opaque]
pub open spec fn property_bytes(key: u32, vtype: u32, value: u32) -> Seq<u8> {
    bytes32(4) + bytes32(vtype) + bytes32(value) + bytes32(0) + bytes32(key) + bytes32(0)
}

/// The five properties of a raw-audio format.
pub open spec fn format_properties(ids: SpaIds, format: u32, rate: u32, channels: u32) -> Seq<u8> {
    property_bytes(ids.key_media_type, ids.type_id, ids.media_type_audio) + property_bytes(
        ids.key_media_subtype,
        ids.type_id,
        ids.media_subtype_raw,
    ) + property_bytes(ids.key_format, ids.type_id, format) + property_bytes(
        ids.key_rate,
        ids.type_int,
        rate,
    ) + property_bytes(ids.key_channels, ids.type_int, channels)
}

/// The pod of a raw-audio format; 128 is the size of what follows the first
/// eight bytes.
pub open spec fn format_pod(ids: SpaIds, format: u32, rate: u32, channels: u32) -> Seq<u8> {
    bytes32(128) + bytes32(ids.type_object) + bytes32(ids.object_format) + bytes32(5)
        + format_properties(ids, format, rate, channels)
}

fn push_u32(out: &mut Vec<u8>, n: u32)
    ensures
        final(out)@ == old(out)@ + bytes32(n),
{
    let ghost before = out@;
    out.push((n % 0x100) as u8);
    out.push((n / 0x100 % 0x100) as u8);
    out.push((n / 0x1_0000 % 0x100) as u8);
    out.push((n / 0x100_0000) as u8);
    assert(out@ =~= before + bytes32(n));
}

fn push_property(out: &mut Vec<u8>, key: u32, vtype: u32, value: u32)
    ensures
        final(out)@ == old(out)@ + property_bytes(key, vtype, value),
{
    let ghost before = out@;
    reveal(property_bytes);
    push_u32(out, 4);
    push_u32(out, vtype);
    push_u32(out, value);
    push_u32(out, 0);
    push_u32(out, key);
    push_u32(out, 0);
    assert(out@ =~= before + property_bytes(key, vtype, value));
}

/// Writes a format pod.
pub fn build_format_pod(ids: &SpaIds, format: u32, rate: u32, channels: u32) -> (r: Vec<u8>)
    ensures
        r@ == format_pod(*ids, format, rate, channels),
{
    let mut out: Vec<u8> = Vec::new();
    push_u32(&mut out, 128);
    push_u32(&mut out, ids.type_object);
    push_u32(&mut out, ids.object_format);
    push_u32(&mut out, 5);
    push_property(&mut out, ids.key_media_type, ids.type_id, ids.media_type_audio);
    push_property(&mut out, ids.key_media_subtype, ids.type_id, ids.media_subtype_raw);
    push_property(&mut out, ids.key_format, ids.type_id, format);
    push_property(&mut out, ids.key_rate, ids.type_int, rate);
    push_property(&mut out, ids.key_channels, ids.type_int, channels);
    assert(out@ =~= format_pod(*ids, format, rate, channels));
    out
}

proof fn lemma_number(bytes: Seq<u8>, off: int, n: u32)
    requires
        0 <= off,
        off + 4 <= bytes.len(),
        bytes.subrange(off, off + 4) == bytes32(n),
    ensures
        u32_at(bytes, off) == Some(n),
{
    let s = bytes.subrange(off, off + 4);
    assert(bytes[off] == s[0] && bytes[off + 1] == s[1] && bytes[off + 2] == s[2] && bytes[off + 3]
        == s[3]);
}

proof fn lemma_property(
    ids: SpaIds,
    bytes: Seq<u8>,
    off: int,
    key: u32,
    vtype: u32,
    value: u32,
    n: nat,
    said: Said,
)
    requires
        0 <= off,
        off + 24 <= bytes.len(),
        bytes.subrange(off, off + 24) == property_bytes(key, vtype, value),
        n > 0,
    ensures
        walk(ids, bytes, off, n, said) == match said_with(ids, said, key, vtype, Some(value)) {
            Some(next) => walk(ids, bytes, off + 24, (n - 1) as nat, next),
            None => None,
        },
{
    reveal(property_bytes);
    reveal(walk);
    let p = bytes.subrange(off, off + 24);
    assert(bytes.subrange(off, off + 4) =~= p.subrange(0, 4));
    assert(p.subrange(0, 4) =~= bytes32(4));
    lemma_number(bytes, off, 4);
    assert(bytes.subrange(off + 4, off + 4 + 4) =~= p.subrange(4, 8));
    assert(p.subrange(4, 8) =~= bytes32(vtype));
    lemma_number(bytes, off + 4, vtype);
    assert(bytes.subrange(off + 8, off + 8 + 4) =~= p.subrange(8, 12));
    assert(p.subrange(8, 12) =~= bytes32(value));
    lemma_number(bytes, off + 8, value);
    assert(bytes.subrange(off + 16, off + 16 + 4) =~= p.subrange(16, 20));
    assert(p.subrange(16, 20) =~= bytes32(key));
    lemma_number(bytes, off + 16, key);
    assert(padded(4) == 8);
}

/// The keys that carry a format are told apart from each other and from the
/// media keys.
pub open spec fn keys_differ(ids: SpaIds) -> bool {
    &&& ids.key_format != ids.key_rate
    &&& ids.key_format != ids.key_channels
    &&& ids.key_rate != ids.key_channels
    &&& ids.key_media_type != ids.key_format
    &&& ids.key_media_type != ids.key_rate
    &&& ids.key_media_type != ids.key_channels
    &&& ids.key_media_subtype != ids.key_format
    &&& ids.key_media_subtype != ids.key_rate
    &&& ids.key_media_subtype != ids.key_channels
}

/// A pod that was written is read back as the format that it was written for;
/// a format that cannot be captured is not read at all.
pub proof fn law_pod_is_read_back(ids: SpaIds, format: u32, rate: u32, channels: u32)
    requires
        keys_differ(ids),
    ensures
        format_of(ids, format_pod(ids, format, rate, channels)) == if rate == 0 || channels == 0
            || kind_of_format(ids, format) == 255 {
            None::<Fmt>
        } else {
            Some(Fmt { rate, channels: channels as usize, kind: kind_of_format(ids, format) })
        },
{
    let pod = format_pod(ids, format, rate, channels);
    let start = Said { rate: 0, channels: 0, kind: 255 };
    let a = property_bytes(ids.key_media_type, ids.type_id, ids.media_type_audio);
    let b = property_bytes(ids.key_media_subtype, ids.type_id, ids.media_subtype_raw);
    let c = property_bytes(ids.key_format, ids.type_id, format);
    let d = property_bytes(ids.key_rate, ids.type_int, rate);
    let e = property_bytes(ids.key_channels, ids.type_int, channels);
    assert(a.len() == 24 && b.len() == 24 && c.len() == 24 && d.len() == 24 && e.len() == 24) by {
        reveal(property_bytes);
    }
    lemma_places(
        bytes32(128),
        bytes32(ids.type_object),
        bytes32(ids.object_format),
        bytes32(5),
        a,
        b,
        c,
        d,
        e,
    );
    lemma_number(pod, 4, ids.type_object);
    lemma_number(pod, 12, 5);
    lemma_property(ids, pod, 16, ids.key_media_type, ids.type_id, ids.media_type_audio, 5, start);
    lemma_property(
        ids,
        pod,
        40,
        ids.key_media_subtype,
        ids.type_id,
        ids.media_subtype_raw,
        4,
        start,
    );
    lemma_property(ids, pod, 64, ids.key_format, ids.type_id, format, 3, start);
    let with_kind = Said { kind: kind_of_format(ids, format), ..start };
    lemma_property(ids, pod, 88, ids.key_rate, ids.type_int, rate, 2, with_kind);
    let with_rate = Said { rate, ..with_kind };
    lemma_property(ids, pod, 112, ids.key_channels, ids.type_int, channels, 1, with_rate);
    let with_all = Said { channels, ..with_rate };
    assert(walk(ids, pod, 136, 0, with_all) == Some(with_all)) by {
        reveal(walk);
    }
}

/// Where the parts of a format pod lie.
proof fn lemma_places(
    h1: Seq<u8>,
    h2: Seq<u8>,
    h3: Seq<u8>,
    h4: Seq<u8>,
    a: Seq<u8>,
    b: Seq<u8>,
    c: Seq<u8>,
    d: Seq<u8>,
    e: Seq<u8>,
)
    requires
        h1.len() == 4,
        h2.len() == 4,
        h3.len() == 4,
        h4.len() == 4,
        a.len() == 24,
        b.len() == 24,
        c.len() == 24,
        d.len() == 24,
        e.len() == 24,
    ensures
        ({
            let all = h1 + h2 + h3 + h4 + (a + b + c + d + e);
            &&& all.len() == 136
            &&& all.subrange(4, 8) == h2
            &&& all.subrange(12, 16) == h4
            &&& all.subrange(16, 40) == a
            &&& all.subrange(40, 64) == b
            &&& all.subrange(64, 88) == c
            &&& all.subrange(88, 112) == d
            &&& all.subrange(112, 136) == e
        }),
{
    let all = h1 + h2 + h3 + h4 + (a + b + c + d + e);
    assert(all.subrange(4, 8) =~= h2);
    assert(all.subrange(12, 16) =~= h4);
    assert(all.subrange(16, 40) =~= a);
    assert(all.subrange(40, 64) =~= b);
    assert(all.subrange(64, 88) =~= c);
    assert(all.subrange(88, 112) =~= d);
    assert(all.subrange(112, 136) =~= e);
}

// ─────────────────────────── formats on offer ──────────────────────────────
/// The sample formats on offer, best first.
pub open spec fn offered_format(ids: SpaIds, i: int) -> u32 {
    if i == 0 {
        ids.format_f32
    } else if i == 1 {
        ids.format_s32
    } else {
        ids.format_s16
    }
}

/// The rates on offer, best first.
pub open spec fn offered_rate(i: int) -> u32 {
    if i == 0 {
        48_000
    } else if i == 1 {
        44_100
    } else if i == 2 {
        96_000
    } else {
        192_000
    }
}

/// The channel counts on offer, best first.
pub open spec fn offered_channels(i: int) -> u32 {
    if i == 0 {
        2
    } else {
        1
    }
}

/// The `i`-th of the 24 combinations: the format varies slowest, the channel
/// count fastest.
pub open spec fn offer(ids: SpaIds, i: int) -> Seq<u8> {
    format_pod(ids, offered_format(ids, i / 8), offered_rate(i % 8 / 2), offered_channels(i % 2))
}

/// Whatever is agreed on among the combinations on offer is understood.
pub proof fn law_offers_are_understood(ids: SpaIds, i: int)
    requires
        keys_differ(ids),
        0 <= i < 24,
    ensures
        format_of(ids, offer(ids, i)) matches Some(f) && f.rate == offered_rate(i % 8 / 2)
            && f.channels == offered_channels(i % 2),
{
    law_pod_is_read_back(
        ids,
        offered_format(ids, i / 8),
        offered_rate(i % 8 / 2),
        offered_channels(i % 2),
    );
}

/// The pods to connect with: the target's own format where it gave one, else
/// every combination on offer.
pub fn connect_pods(ids: &SpaIds, adopted: Option<Vec<u8>>) -> (r: Vec<Vec<u8>>)
    ensures
        adopted matches Some(own) ==> r@.len() == 1 && r@[0]@ == own@,
        adopted is None ==> r@.len() == 24 && forall|i: int|
            0 <= i < 24 ==> (#[trigger] r@[i])@ == offer(*ids, i),
{
    let mut pods: Vec<Vec<u8>> = Vec::new();
    match adopted {
        Some(own) => {
            pods.push(own);
            return pods;
        },
        None => {},
    }
    let mut i: u32 = 0;
    while i < 24
        invariant
            i <= 24,
            pods@.len() == i,
            forall|j: int| 0 <= j < i ==> (#[trigger] pods@[j])@ == offer(*ids, j),
        decreases 24 - i,
    {
        let format: u32 = match i / 8 {
            0 => ids.format_f32,
            1 => ids.format_s32,
            _ => ids.format_s16,
        };
        let rate: u32 = match i % 8 / 2 {
            0 => 48_000,
            1 => 44_100,
            2 => 96_000,
            _ => 192_000,
        };
        let channels: u32 = match i % 2 {
            0 => 2,
            _ => 1,
        };
        pods.push(build_format_pod(ids, format, rate, channels));
        i = i + 1;
    }
    pods
}

// ─────────────────────────── buffers and properties ────────────────────────
/// Where the whole frames of a buffer chunk lie: `start` and the frame count.
/// `total` is the buffer's length; a chunk that claims more is cut.
pub open spec fn chunk_frames(total: int, offset: int, size: int, frame: int) -> (int, int) {
    let start = if offset < total {
        offset
    } else {
        total
    };
    let len = if size < total - start {
        size
    } else {
        total - start
    };
    (start, len / if frame < 1 {
        1
    } else {
        frame
    })
}

/// Cuts a buffer chunk to whole frames.
pub fn chunk_window(total: usize, offset: u32, size: u32, fmt: &Fmt) -> (r: (usize, usize))
    requires
        fmt.channels * 4 <= usize::MAX,
    ensures
        ({
            let w = chunk_frames(
                total as int,
                offset as int,
                size as int,
                fmt.channels * (bits_of(fmt.kind) / 8),
            );
            r.0 == w.0 && r.1 == w.1
        }),
        fmt.channels >= 1 ==> r.0 + r.1 * (fmt.channels * (bits_of(fmt.kind) / 8)) <= total,
{
    let start: usize = if (offset as usize) < total {
        offset as usize
    } else {
        total
    };
    let left: usize = total - start;
    let len: usize = if (size as usize) < left {
        size as usize
    } else {
        left
    };
    let frame: usize = fmt.frame_bytes();
    let step: usize = if frame < 1 {
        1
    } else {
        frame
    };
    proof {
        vstd::arithmetic::div_mod::lemma_fundamental_div_mod(len as int, step as int);
        vstd::arithmetic::div_mod::lemma_mod_bound(len as int, step as int);
        let q = len as int / step as int;
        assert(step * q == q * step) by (nonlinear_arith);
        if fmt.channels >= 1 {
            assert(frame >= 1) by (nonlinear_arith)
                requires
                    frame == fmt.channels * (bits_of(fmt.kind) / 8),
                    fmt.channels >= 1,
                    bits_of(fmt.kind) / 8 >= 2,
            {
            }
        }
    }
    (start, len / step)
}

/// The 32-bit number that a window property starts with.
pub fn property_number(value: &[u8]) -> (r: Option<u32>)
    ensures
        r == u32_at(value@, 0),
{
    read_u32(value, 0)
}

/// The window that the active-window property names; none where it is zero.
pub fn active_window(value: &[u8]) -> (r: Option<u32>)
    ensures
        r == match u32_at(value@, 0) {
            Some(w) => if w == 0 {
                None
            } else {
                Some(w)
            },
            None => None::<u32>,
        },
{
    match property_number(value) {
        Some(w) => if w == 0 {
            None
        } else {
            Some(w)
        },
        None => None,
    }
}

} // verus!
