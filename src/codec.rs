//! Byte-stuffed, CRC-protected frames on a serial stream.
//!
//! A frame is `START ++ stuff(packet) ++ END`, where the packet is the CRC-8
//! byte, a varint length (one or two bytes) and the payload.
use vstd::prelude::*;

verus! {

pub const START_BYTE: u8 = 0x3C;

pub const END_BYTE: u8 = 0x3E;

pub const ESCAPE_BYTE: u8 = 0x5C;

pub const MASK: u8 = 0x08;

/// Largest payload whose length prefix fits in two varint bytes.
pub const MAX_PAYLOAD: usize = 16383;

/// Errors of the frame codec.
#[derive(Debug, PartialEq, Eq, Structural, Clone, Copy)]
pub enum Error {
    /// The CRC stored in the packet differs from the payload's CRC.
    CRC,
    /// The packet inside the frame is malformed.
    Des,
    /// The frame does not fit in the given capacity.
    ENOMEM,
    /// An internal inconsistency (never produced by this library).
    LibBug,
}

/// Name of the CRC-8/LTE checksum of a byte sequence.
pub uninterp spec fn crc8_lte(s: Seq<u8>) -> u8;

/// Relies on `crc::Crc::<u8>::checksum` with the `CRC_8_LTE` parameters: the
/// checksum depends on the bytes alone.
#[verifier::external_body]
fn checksum(data: &[u8]) -> (r: u8)
    ensures
        r == crc8_lte(data@),
{
    crc::Crc::<u8>::new(&crc::CRC_8_LTE).checksum(data)
}

pub open spec fn is_special(b: u8) -> bool {
    b == START_BYTE || b == END_BYTE || b == ESCAPE_BYTE
}

/// What one byte becomes in the stuffed stream.
pub open spec fn stuff_byte(b: u8) -> Seq<u8> {
    if is_special(b) {
        seq![ESCAPE_BYTE, b ^ MASK]
    } else {
        seq![b]
    }
}

/// Byte stuffing: every special byte is replaced by `ESCAPE, b ^ MASK`.
pub open spec fn stuff(s: Seq<u8>) -> Seq<u8>
    decreases s.len(),
{
    if s.len() == 0 {
        seq![]
    } else {
        stuff_byte(s[0]) + stuff(s.drop_first())
    }
}

/// Undoes byte stuffing: an `ESCAPE` is dropped and the byte after it is
/// unmasked; a trailing `ESCAPE` is dropped.
pub open spec fn unstuff(t: Seq<u8>) -> Seq<u8>
    decreases t.len(),
{
    if t.len() == 0 {
        seq![]
    } else if t[0] == ESCAPE_BYTE {
        if t.len() >= 2 {
            seq![t[1] ^ MASK] + unstuff(t.subrange(2, t.len() as int))
        } else {
            seq![]
        }
    } else {
        seq![t[0]] + unstuff(t.drop_first())
    }
}

/// The varint length prefix of a packet (at most two bytes).
pub open spec fn varint(n: nat) -> Seq<u8> {
    if n < 128 {
        seq![n as u8]
    } else {
        seq![(n % 128 + 128) as u8, (n / 128) as u8]
    }
}

/// The packet carried inside a frame: CRC, length, payload.
pub open spec fn packet_bytes(data: Seq<u8>) -> Seq<u8> {
    seq![crc8_lte(data)] + varint(data.len()) + data
}

/// The frame for a payload.
pub open spec fn frame_bytes(data: Seq<u8>) -> Seq<u8> {
    seq![START_BYTE] + stuff(packet_bytes(data)) + seq![END_BYTE]
}

/// The payload length read from the varint prefix at offset 1 and the
/// offset of the payload, if the prefix is well formed.
pub open spec fn parse_len(p: Seq<u8>) -> Option<(nat, nat)> {
    if p.len() < 2 {
        None
    } else if p[1] < 128 {
        Some((p[1] as nat, 2nat))
    } else if p.len() >= 3 && p[2] < 128 {
        Some((((p[1] - 128) + 128 * p[2]) as nat, 3nat))
    } else {
        None
    }
}

/// The CRC byte and the payload of a packet, if it is well formed. Bytes
/// after the payload are ignored.
pub open spec fn parse_packet(p: Seq<u8>) -> Option<(u8, Seq<u8>)> {
    match parse_len(p) {
        Some((n, off)) => if off + n <= p.len() {
            Some((p[0], p.subrange(off as int, (off + n) as int)))
        } else {
            None
        },
        None => None,
    }
}

/// The middle of a frame: what lies between its first and its last byte.
pub open spec fn frame_middle(f: Seq<u8>) -> Seq<u8> {
    if f.len() < 2 {
        seq![]
    } else {
        f.subrange(1, f.len() - 1)
    }
}

/// What unframing a byte sequence yields.
pub open spec fn unframe_result(f: Seq<u8>) -> Result<Seq<u8>, Error> {
    match parse_packet(unstuff(frame_middle(f))) {
        None => Err(Error::Des),
        Some((c, data)) => if c == crc8_lte(data) {
            Ok(data)
        } else {
            Err(Error::CRC)
        },
    }
}

proof fn lemma_stuff_append(a: Seq<u8>, b: Seq<u8>)
    ensures
        stuff(a + b) == stuff(a) + stuff(b),
    decreases a.len(),
{
    if a.len() == 0 {
        assert(a + b =~= b);
    } else {
        assert((a + b).drop_first() =~= a.drop_first() + b);
        lemma_stuff_append(a.drop_first(), b);
    }
}

/// Stuffing never shortens a sequence.
pub proof fn lemma_stuff_len(s: Seq<u8>)
    ensures
        stuff(s).len() >= s.len(),
    decreases s.len(),
{
    if s.len() > 0 {
        lemma_stuff_len(s.drop_first());
    }
}

proof fn lemma_unmask(b: u8)
    ensures
        (b ^ MASK) ^ MASK == b,
        is_special(b) ==> !is_special(b ^ MASK) && (b ^ MASK) != ESCAPE_BYTE,
{
    assert((b ^ 0x08u8) ^ 0x08u8 == b) by (bit_vector);
    if b == START_BYTE {
        assert(0x3Cu8 ^ 0x08u8 == 0x34u8) by (bit_vector);
    } else if b == END_BYTE {
        assert(0x3Eu8 ^ 0x08u8 == 0x36u8) by (bit_vector);
    } else if b == ESCAPE_BYTE {
        assert(0x5Cu8 ^ 0x08u8 == 0x54u8) by (bit_vector);
    }
}

/// Unstuffing undoes stuffing.
pub proof fn lemma_unstuff_stuff(s: Seq<u8>)
    ensures
        unstuff(stuff(s)) == s,
    decreases s.len(),
{
    if s.len() > 0 {
        let rest = stuff(s.drop_first());
        lemma_unstuff_stuff(s.drop_first());
        lemma_unmask(s[0]);
        let t = stuff(s);
        if is_special(s[0]) {
            assert(t.subrange(2, t.len() as int) =~= rest);
        } else {
            assert(t.drop_first() =~= rest);
        }
        assert(s =~= seq![s[0]] + s.drop_first());
    }
}

/// A stuffed stream holds no `START` or `END`, and every `ESCAPE` in it
/// opens a pair whose second byte is a masked special byte.
pub open spec fn is_clean(t: Seq<u8>) -> bool {
    &&& forall|i: int| 0 <= i < t.len() ==> #[trigger] t[i] != START_BYTE && t[i] != END_BYTE
    &&& forall|i: int|
        0 <= i < t.len() && #[trigger] t[i] == ESCAPE_BYTE ==> i + 1 < t.len() && is_special(
            t[i + 1] ^ MASK,
        ) && t[i + 1] != ESCAPE_BYTE
}

/// Stuffed output is clean.
pub proof fn lemma_stuff_clean(s: Seq<u8>)
    ensures
        is_clean(stuff(s)),
    decreases s.len(),
{
    if s.len() > 0 {
        lemma_stuff_clean(s.drop_first());
        lemma_unmask(s[0]);
        let h = stuff_byte(s[0]);
        let r = stuff(s.drop_first());
        let t = stuff(s);
        assert(t == h + r);
        assert forall|i: int| 0 <= i < t.len() implies #[trigger] t[i] != START_BYTE && t[i]
            != END_BYTE by {
            if i >= h.len() {
                assert(t[i] == r[i - h.len()]);
            }
        }
        assert forall|i: int| 0 <= i < t.len() && #[trigger] t[i] == ESCAPE_BYTE implies i + 1
            < t.len() && is_special(t[i + 1] ^ MASK) && t[i + 1] != ESCAPE_BYTE by {
            if i >= h.len() {
                assert(t[i] == r[i - h.len()]);
                assert(t[i + 1] == r[i + 1 - h.len()]);
            } else if is_special(s[0]) {
                assert(i == 0);
                assert((s[0] ^ MASK) ^ MASK == s[0]);
            }
        }
    }
}

/// Every frame starts with its only `START` and ends with its only `END`,
/// and every `ESCAPE` inside it opens an escape pair.
pub proof fn lemma_frame_shape(data: Seq<u8>)
    ensures
        ({
            let f = frame_bytes(data);
            &&& f.len() >= 2
            &&& f[0] == START_BYTE
            &&& f[f.len() - 1] == END_BYTE
            &&& forall|i: int| 0 < i < f.len() ==> #[trigger] f[i] != START_BYTE
            &&& forall|i: int| 0 <= i < f.len() - 1 ==> #[trigger] f[i] != END_BYTE
            &&& is_clean(frame_middle(f))
        }),
{
    let m = stuff(packet_bytes(data));
    lemma_stuff_clean(packet_bytes(data));
    let f = frame_bytes(data);
    assert(frame_middle(f) =~= m);
    assert forall|i: int| 0 < i < f.len() implies #[trigger] f[i] != START_BYTE by {
        if i < f.len() - 1 {
            assert(f[i] == m[i - 1]);
        }
    }
    assert forall|i: int| 0 <= i < f.len() - 1 implies #[trigger] f[i] != END_BYTE by {
        if i > 0 {
            assert(f[i] == m[i - 1]);
        }
    }
}

/// No masked token equals another token, so escaped bytes never look like
/// frame delimiters.
pub proof fn lemma_token_exclusivity()
    ensures
        ESCAPE_BYTE ^ MASK != START_BYTE,
        ESCAPE_BYTE ^ MASK != END_BYTE,
        START_BYTE ^ MASK != ESCAPE_BYTE,
        START_BYTE ^ MASK != END_BYTE,
        END_BYTE ^ MASK != START_BYTE,
        END_BYTE ^ MASK != ESCAPE_BYTE,
{
    assert(0x5Cu8 ^ 0x08u8 == 0x54u8) by (bit_vector);
    assert(0x3Cu8 ^ 0x08u8 == 0x34u8) by (bit_vector);
    assert(0x3Eu8 ^ 0x08u8 == 0x36u8) by (bit_vector);
}


proof fn lemma_varint_parse(data: Seq<u8>)
    requires
        data.len() <= MAX_PAYLOAD,
    ensures
        parse_packet(packet_bytes(data)) == Some((crc8_lte(data), data)),
{
    let p = packet_bytes(data);
    let n = data.len();
    if n < 128 {
        assert(p.subrange(2, 2 + n as int) =~= data);
    } else {
        assert(n % 128 + 128 < 256) by (nonlinear_arith)
            requires
                n >= 128,
        ;
        assert(n / 128 < 128) by (nonlinear_arith)
            requires
                n <= 16383,
        ;
        assert(n == n % 128 + 128 * (n / 128)) by (nonlinear_arith);
        assert(p.subrange(3, 3 + n as int) =~= data);
    }
}

/// Unframing a frame gives back its payload.
pub proof fn lemma_unframe_frame(data: Seq<u8>)
    requires
        data.len() <= MAX_PAYLOAD,
    ensures
        unframe_result(frame_bytes(data)) == Ok::<Seq<u8>, Error>(data),
{
    let f = frame_bytes(data);
    assert(frame_middle(f) =~= stuff(packet_bytes(data)));
    lemma_unstuff_stuff(packet_bytes(data));
    lemma_varint_parse(data);
}

/// Appends the stuffed form of `src` to `out`.
fn push_stuffed(out: &mut Vec<u8>, src: &Vec<u8>)
    ensures
        final(out)@ == old(out)@ + stuff(src@),
{
    let mut i: usize = 0;
    let ghost start = out@;
    while i < src.len()
        invariant
            i <= src.len(),
            out@ == start + stuff(src@.take(i as int)),
        decreases src.len() - i,
    {
        let b = src[i];
        proof {
            lemma_stuff_append(src@.take(i as int), seq![b]);
            assert(src@.take(i as int + 1) =~= src@.take(i as int) + seq![b]);
            assert(seq![b].drop_first() =~= Seq::<u8>::empty());
            assert(stuff(Seq::<u8>::empty()) == Seq::<u8>::empty());
            assert(seq![b][0] == b);
            assert(stuff(seq![b]) =~= stuff_byte(b));
        }
        if b == START_BYTE || b == END_BYTE || b == ESCAPE_BYTE {
            out.push(ESCAPE_BYTE);
            out.push(b ^ MASK);
        } else {
            out.push(b);
        }
        i = i + 1;
    }
    assert(src@.take(src@.len() as int) =~= src@);
}

/// Builds the frame for `data`: the CRC-8 of the payload, its varint length
/// and the payload, byte-stuffed between `START_BYTE` and `END_BYTE`.
///
/// Fails with `ENOMEM` exactly when the payload is longer than
/// `MAX_PAYLOAD` or the frame is longer than `cap`.
pub fn frame(data: &Vec<u8>, cap: usize) -> (r: Result<Vec<u8>, Error>)
    ensures
        r.is_ok() <==> data@.len() <= MAX_PAYLOAD && frame_bytes(data@).len() <= cap,
        r matches Ok(f) ==> f@ == frame_bytes(data@) && unframe_result(f@) == Ok::<
            Seq<u8>,
            Error,
        >(data@),
        r matches Err(e) ==> e == Error::ENOMEM,
{
    let n = data.len();
    if n > MAX_PAYLOAD {
        proof {
            lemma_stuff_len(packet_bytes(data@));
        }
        return Err(Error::ENOMEM);
    }
    let mut packet: Vec<u8> = Vec::new();
    packet.push(checksum(data.as_slice()));
    if n < 128 {
        packet.push(n as u8);
    } else {
        packet.push((n % 128 + 128) as u8);
        packet.push((n / 128) as u8);
    }
    let mut i: usize = 0;
    let ghost head = packet@;
    while i < n
        invariant
            i <= n,
            n == data@.len(),
            packet@ == head + data@.take(i as int),
        decreases n - i,
    {
        packet.push(data[i]);
        i = i + 1;
        assert(packet@ =~= head + data@.take(i as int));
    }
    assert(data@.take(n as int) =~= data@);
    assert(packet@ =~= packet_bytes(data@));
    let mut out: Vec<u8> = Vec::new();
    out.push(START_BYTE);
    push_stuffed(&mut out, &packet);
    out.push(END_BYTE);
    assert(out@ =~= frame_bytes(data@));
    if out.len() > cap {
        return Err(Error::ENOMEM);
    }
    proof {
        lemma_unframe_frame(data@);
    }
    Ok(out)
}

/// The bytes of `v` from `lo` to `hi`.
fn copy_range(v: &Vec<u8>, lo: usize, hi: usize) -> (r: Vec<u8>)
    requires
        lo <= hi <= v@.len(),
    ensures
        r@ == v@.subrange(lo as int, hi as int),
{
    let mut r: Vec<u8> = Vec::new();
    let mut i: usize = lo;
    while i < hi
        invariant
            lo <= i <= hi,
            hi <= v@.len(),
            r@ == v@.subrange(lo as int, i as int),
        decreases hi - i,
    {
        r.push(v[i]);
        i = i + 1;
        assert(r@ =~= v@.subrange(lo as int, i as int));
    }
    r
}

/// Undoes the stuffing of the bytes between the first and the last byte of
/// `f`.
fn unstuff_middle(f: &Vec<u8>) -> (r: Vec<u8>)
    ensures
        r@ == unstuff(frame_middle(f@)),
{
    let mut out: Vec<u8> = Vec::new();
    if f.len() < 2 {
        return out;
    }
    let m: usize = f.len() - 2;
    let ghost mid = frame_middle(f@);
    let mut j: usize = 0;
    assert(mid.subrange(0, m as int) =~= mid);
    assert(out@ + unstuff(mid) =~= unstuff(mid));
    while j < m
        invariant
            j <= m,
            m == f@.len() - 2,
            mid == f@.subrange(1, f@.len() - 1),
            mid.len() == m,
            out@ + unstuff(mid.subrange(j as int, m as int)) == unstuff(mid),
        decreases m - j,
    {
        let ghost t = mid.subrange(j as int, m as int);
        assert(t[0] == f@[j + 1]);
        if f[j + 1] == ESCAPE_BYTE {
            if j + 1 < m {
                assert(t[1] == f@[j + 2]);
                assert(t.subrange(2, t.len() as int) =~= mid.subrange(j + 2, m as int));
                out.push(f[j + 2] ^ MASK);
                j = j + 2;
                assert(out@ + unstuff(mid.subrange(j as int, m as int)) =~= unstuff(mid));
            } else {
                assert(unstuff(t) =~= Seq::<u8>::empty());
                assert(mid.subrange(m as int, m as int) =~= Seq::<u8>::empty());
                j = m;
                assert(out@ =~= unstuff(mid));
            }
        } else {
            assert(t.drop_first() =~= mid.subrange(j + 1, m as int));
            out.push(f[j + 1]);
            j = j + 1;
            assert(out@ + unstuff(mid.subrange(j as int, m as int)) =~= unstuff(mid));
        }
    }
    assert(mid.subrange(m as int, m as int) =~= Seq::<u8>::empty());
    assert(out@ + Seq::<u8>::empty() =~= out@);
    out
}

/// Extracts the payload of a frame: strips the first and the last byte,
/// undoes the stuffing, checks the packet's shape (`Des`) and its CRC
/// (`CRC`).
pub fn unframe(f: &Vec<u8>) -> (r: Result<Vec<u8>, Error>)
    ensures
        r matches Ok(d) ==> unframe_result(f@) == Ok::<Seq<u8>, Error>(d@),
        r matches Err(e) ==> unframe_result(f@) == Err::<Seq<u8>, Error>(e),
{
    let p = unstuff_middle(f);
    if p.len() < 2 {
        return Err(Error::Des);
    }
    let n: usize;
    let off: usize;
    if p[1] < 128 {
        n = p[1] as usize;
        off = 2;
    } else if p.len() >= 3 && p[2] < 128 {
        n = (p[1] - 128) as usize + 128 * (p[2] as usize);
        off = 3;
    } else {
        return Err(Error::Des);
    }
    if n > p.len() - off {
        return Err(Error::Des);
    }
    let data = copy_range(&p, off, off + n);
    if p[0] != checksum(data.as_slice()) {
        return Err(Error::CRC);
    }
    Ok(data)
}

} // verus!
