//! The receiving side of the serial pipe: a ring buffer of received bytes
//! from which whole frames are extracted, and the framing of outgoing
//! messages.
use vstd::prelude::*;
use ringbuffer::AllocRingBuffer;
use crate::codec::{frame_bytes, Error, START_BYTE, END_BYTE};
use crate::protocol::{DataT, encoding, decoded};

verus! {

#[verifier::external_type_specification]
#[verifier::external_body]
#[verifier::reject_recursive_types(T)]
pub struct ExAllocRingBuffer<T>(AllocRingBuffer<T>);

/// The bytes held by a ring buffer, oldest first.
pub uninterp spec fn ring_items(r: AllocRingBuffer<u8>) -> Seq<u8>;

/// The capacity a ring buffer was made with.
pub uninterp spec fn ring_capacity(r: AllocRingBuffer<u8>) -> nat;

/// Relies on `AllocRingBuffer::new`: an empty buffer of the given capacity
/// (it panics on zero).
#[verifier::external_body]
fn ring_new(cap: usize) -> (r: AllocRingBuffer<u8>)
    requires
        cap > 0,
    ensures
        ring_items(r) == Seq::<u8>::empty(),
        ring_capacity(r) == cap,
{
    AllocRingBuffer::new(cap)
}

/// Relies on `RingBuffer::len`: the number of items held, which never
/// exceeds the capacity.
#[verifier::external_body]
fn ring_len(r: &AllocRingBuffer<u8>) -> (n: usize)
    ensures
        n == ring_items(*r).len(),
        n <= ring_capacity(*r),
{
    ringbuffer::RingBuffer::len(r)
}

/// Relies on `RingBuffer::capacity`: the capacity the buffer was made with.
#[verifier::external_body]
fn ring_cap(r: &AllocRingBuffer<u8>) -> (n: usize)
    ensures
        n == ring_capacity(*r),
{
    ringbuffer::RingBuffer::capacity(r)
}

/// Relies on `RingBuffer::enqueue` of `AllocRingBuffer`: appends the value;
/// when the buffer is full the oldest item is dropped first.
#[verifier::external_body]
fn ring_enqueue(r: &mut AllocRingBuffer<u8>, v: u8)
    ensures
        ring_capacity(*final(r)) == ring_capacity(*old(r)),
        ring_items(*old(r)).len() < ring_capacity(*old(r)) ==> ring_items(*final(r)) == ring_items(
            *old(r),
        ).push(v),
        ring_items(*old(r)).len() >= ring_capacity(*old(r)) ==> ring_items(*final(r)) == ring_items(
            *old(r),
        ).drop_first().push(v),
{
    let _ = ringbuffer::RingBuffer::enqueue(r, v);
}

/// Relies on `RingBuffer::dequeue` of `AllocRingBuffer`: removes and returns
/// the oldest item, or `None` when empty.
#[verifier::external_body]
fn ring_dequeue(r: &mut AllocRingBuffer<u8>) -> (o: Option<u8>)
    ensures
        ring_capacity(*final(r)) == ring_capacity(*old(r)),
        ring_items(*old(r)).len() == 0 ==> o is None && ring_items(*final(r)) == ring_items(
            *old(r),
        ),
        ring_items(*old(r)).len() > 0 ==> o == Some(ring_items(*old(r))[0]) && ring_items(
            *final(r),
        ) == ring_items(*old(r)).drop_first(),
{
    ringbuffer::RingBuffer::dequeue(r)
}

/// Relies on indexing an `AllocRingBuffer`: the item `i` places after the
/// oldest one (it panics when the buffer is empty).
#[verifier::external_body]
fn ring_at(r: &AllocRingBuffer<u8>, i: usize) -> (v: u8)
    requires
        i < ring_items(*r).len(),
    ensures
        v == ring_items(*r)[i as int],
{
    r[i]
}

/// Errors of the pipe.
#[derive(Debug, PartialEq, Eq, Structural, Clone, Copy)]
pub enum ComErr {
    /// No whole frame has been received yet.
    Empty,
    /// A `START_BYTE` was followed by another one before any `END_BYTE`.
    InvalPacket,
    /// A frame does not fit in the given capacity.
    ENOMEM,
    /// The bytes could not be written.
    Busy,
    /// The frame codec failed.
    UartError(Error),
    /// An internal inconsistency (never produced by this library).
    Bug,
}

/// The received bytes from the first `START_BYTE` on (empty if none).
pub open spec fn align(s: Seq<u8>) -> Seq<u8>
    decreases s.len(),
{
    if s.len() == 0 || s[0] == START_BYTE {
        s
    } else {
        align(s.drop_first())
    }
}

/// The first position from `i` on that holds `END_BYTE`, or a
/// `START_BYTE` other than the first byte.
pub open spec fn scan(a: Seq<u8>, i: nat) -> Option<nat>
    decreases a.len() - i,
{
    if i >= a.len() {
        None
    } else if a[i as int] == END_BYTE || (i != 0 && a[i as int] == START_BYTE) {
        Some(i)
    } else {
        scan(a, i + 1)
    }
}

/// What extracting a frame from the held bytes `s` returns, and the bytes
/// held afterwards.
pub open spec fn extract(s: Seq<u8>, cap: nat) -> (Result<Seq<u8>, ComErr>, Seq<u8>) {
    let a = align(s);
    if a.len() == 0 {
        (Err(ComErr::Empty), a)
    } else {
        match scan(a, 0) {
            None => (Err(ComErr::Empty), a),
            Some(j) => if a[j as int] == END_BYTE {
                let f = a.take(j + 1int);
                let rest = a.skip(j + 1int);
                if j + 1 <= cap {
                    (Ok(f), rest)
                } else {
                    (Err(ComErr::ENOMEM), rest)
                }
            } else {
                (Err(ComErr::InvalPacket), a.skip(j as int))
            },
        }
    }
}

proof fn lemma_align_len(s: Seq<u8>)
    ensures
        align(s).len() <= s.len(),
    decreases s.len(),
{
    if s.len() > 0 && s[0] != START_BYTE {
        lemma_align_len(s.drop_first());
    }
}

proof fn lemma_scan_bound(a: Seq<u8>, i: nat)
    ensures
        scan(a, i) matches Some(j) ==> i <= j < a.len(),
    decreases a.len() - i,
{
    if i < a.len() && !(a[i as int] == END_BYTE || (i != 0 && a[i as int] == START_BYTE)) {
        lemma_scan_bound(a, i + 1);
    }
}

/// Extracting never adds bytes, and a frame taken out removes at least
/// one.
pub proof fn lemma_extract_shrinks(s: Seq<u8>, cap: nat)
    ensures
        extract(s, cap).1.len() <= s.len(),
        extract(s, cap).0 is Ok ==> extract(s, cap).1.len() < s.len(),
{
    lemma_align_len(s);
    lemma_scan_bound(align(s), 0);
}

proof fn lemma_align_head(s: Seq<u8>)
    ensures
        align(s).len() > 0 ==> align(s)[0] == START_BYTE,
    decreases s.len(),
{
    if s.len() > 0 && s[0] != START_BYTE {
        lemma_align_head(s.drop_first());
    }
}

proof fn lemma_scan_none(a: Seq<u8>, i: nat)
    requires
        scan(a, i) is None,
    ensures
        forall|k: int|
            i <= k < a.len() ==> #[trigger] a[k] != END_BYTE && (k == 0 || a[k] != START_BYTE),
    decreases a.len() - i,
{
    if i < a.len() {
        lemma_scan_none(a, i + 1);
    }
}

/// When no frame can be taken out, the bytes left are nothing, or the
/// start of a single frame still arriving: a `START_BYTE` followed by no
/// `START_BYTE` and no `END_BYTE`.
pub proof fn lemma_empty_leaves_pending_prefix(s: Seq<u8>, cap: nat)
    requires
        extract(s, cap).0 == Err::<Seq<u8>, ComErr>(ComErr::Empty),
    ensures
        ({
            let rest = extract(s, cap).1;
            rest.len() == 0 || (rest[0] == START_BYTE && forall|k: int|
                0 < k < rest.len() ==> #[trigger] rest[k] != START_BYTE && rest[k] != END_BYTE)
        }),
{
    let a = align(s);
    lemma_align_head(s);
    if a.len() > 0 {
        if scan(a, 0) is None {
            lemma_scan_none(a, 0);
        } else {
            lemma_scan_bound(a, 0);
        }
    }
}

/// The pipe's receiving buffer. Bytes read from the device go in with
/// `receive_bytes`; frames come out with `extract_frame` and `read_data`.
pub struct ComT {
    recv_buffer: AllocRingBuffer<u8>,
}

impl ComT {
    /// The bytes held, oldest first.
    pub closed spec fn view(&self) -> Seq<u8> {
        ring_items(self.recv_buffer)
    }

    pub closed spec fn capacity(&self) -> nat {
        ring_capacity(self.recv_buffer)
    }

    /// A pipe whose buffer holds up to `buf_cap` bytes.
    pub fn new(buf_cap: usize) -> (r: ComT)
        requires
            buf_cap > 0,
        ensures
            r@ == Seq::<u8>::empty(),
            r.capacity() == buf_cap,
    {
        ComT { recv_buffer: ring_new(buf_cap) }
    }

    /// Room left in the buffer.
    pub fn free_space(&self) -> (n: usize)
        ensures
            n == self.capacity() - self@.len(),
    {
        let c = ring_cap(&self.recv_buffer);
        let l = ring_len(&self.recv_buffer);
        c - l
    }

    /// Appends bytes read from the device; when the buffer is full the
    /// oldest bytes give way.
    pub fn receive_bytes(&mut self, bytes: &[u8])
        ensures
            final(self).capacity() == old(self).capacity(),
            old(self)@.len() + bytes@.len() <= old(self).capacity() ==> final(self)@ == old(
                self,
            )@ + bytes@,
    {
        let mut i: usize = 0;
        while i < bytes.len()
            invariant
                i <= bytes@.len(),
                self.capacity() == old(self).capacity(),
                old(self)@.len() + bytes@.len() <= old(self).capacity() ==> self@ == old(self)@
                    + bytes@.take(i as int),
            decreases bytes@.len() - i,
        {
            ring_enqueue(&mut self.recv_buffer, bytes[i]);
            proof {
                assert(bytes@.take(i + 1) =~= bytes@.take(i as int).push(bytes@[i as int]));
                assert(old(self)@ + bytes@.take(i + 1) =~= (old(self)@ + bytes@.take(
                    i as int,
                )).push(bytes@[i as int]));
            }
            i = i + 1;
        }
        assert(bytes@.take(bytes@.len() as int) =~= bytes@);
    }

    /// Drops bytes until the oldest one is `START_BYTE`.
    fn align_to_packet(&mut self)
        ensures
            final(self)@ == align(old(self)@),
            final(self).capacity() == old(self).capacity(),
    {
        while ring_len(&self.recv_buffer) > 0 && ring_at(&self.recv_buffer, 0) != START_BYTE
            invariant
                align(self@) == align(old(self)@),
                self.capacity() == old(self).capacity(),
            decreases self@.len(),
        {
            let _ = ring_dequeue(&mut self.recv_buffer);
        }
    }

    /// Finds the end of the frame at the head of the buffer. On a second
    /// `START_BYTE` before any `END_BYTE`, drops the bytes before it.
    fn get_end_of_packet(&mut self) -> (r: Result<usize, ComErr>)
        ensures
            final(self).capacity() == old(self).capacity(),
            r matches Ok(j) ==> j < old(self)@.len() && scan(old(self)@, 0) == Some(j as nat)
                && old(self)@[j as int]
                == END_BYTE && final(self)@ == old(self)@,
            r matches Err(e) ==> match scan(old(self)@, 0) {
                None => e == ComErr::Empty && final(self)@ == old(self)@,
                Some(j) => old(self)@[j as int] != END_BYTE && e == ComErr::InvalPacket
                    && final(self)@ == old(self)@.skip(j as int),
            },
    {
        let n = ring_len(&self.recv_buffer);
        let mut i: usize = 0;
        while i < n
            invariant
                i <= n,
                n == self@.len(),
                self@ == old(self)@,
                self.capacity() == old(self).capacity(),
                scan(self@, 0) == scan(self@, i as nat),
            decreases n - i,
        {
            let b = ring_at(&self.recv_buffer, i);
            if b == END_BYTE {
                return Ok(i);
            } else if i != 0 && b == START_BYTE {
                let mut k: usize = 0;
                while k < i
                    invariant
                        k <= i,
                        i < n,
                        n == old(self)@.len(),
                        self@ == old(self)@.skip(k as int),
                        self.capacity() == old(self).capacity(),
                    decreases i - k,
                {
                    let _ = ring_dequeue(&mut self.recv_buffer);
                    k = k + 1;
                    assert(self@ =~= old(self)@.skip(k as int));
                }
                return Err(ComErr::InvalPacket);
            }
            i = i + 1;
        }
        Err(ComErr::Empty)
    }

    /// Takes the next whole frame out of the buffer: leading bytes before a
    /// `START_BYTE` are dropped, then the bytes through the first
    /// `END_BYTE` are taken. A frame longer than `cap` is dropped with
    /// `ENOMEM`.
    pub fn extract_frame_from_recv_buf(&mut self, cap: usize) -> (r: Result<Vec<u8>, ComErr>)
        ensures
            final(self).capacity() == old(self).capacity(),
            ({
                let (res, rest) = extract(old(self)@, cap as nat);
                &&& final(self)@ == rest
                &&& match r {
                    Ok(f) => res == Ok::<Seq<u8>, ComErr>(f@),
                    Err(e) => res == Err::<Seq<u8>, ComErr>(e),
                }
            }),
    {
        self.align_to_packet();
        if ring_len(&self.recv_buffer) == 0 {
            return Err(ComErr::Empty);
        }
        let ghost a = self@;
        let _n = ring_len(&self.recv_buffer);
        let end = self.get_end_of_packet()?;
        let mut data: Vec<u8> = Vec::new();
        let mut k: usize = 0;
        while k <= end
            invariant
                k <= end + 1,
                end < a.len(),
                a.len() <= usize::MAX,
                data@ == a.take(k as int),
                self@ == a.skip(k as int),
                self.capacity() == old(self).capacity(),
            decreases end + 1 - k,
        {
            let o = ring_dequeue(&mut self.recv_buffer);
            match o {
                Some(v) => data.push(v),
                None => {},
            }
            k = k + 1;
            assert(data@ =~= a.take(k as int));
            assert(self@ =~= a.skip(k as int));
        }
        if data.len() > cap {
            return Err(ComErr::ENOMEM);
        }
        Ok(data)
    }

    /// Takes the next frame out of the buffer and decodes the message in it.
    pub fn read_data(&mut self, cap: usize) -> (r: Result<DataT, ComErr>)
        ensures
            final(self).capacity() == old(self).capacity(),
            ({
                let (res, rest) = extract(old(self)@, cap as nat);
                &&& final(self)@ == rest
                &&& match res {
                    Err(e) => r == Err::<DataT, ComErr>(e),
                    Ok(f) => match r {
                        Ok(m) => decoded(f, Ok(m)),
                        Err(e) => e matches ComErr::UartError(ue) && decoded(f, Err(ue)),
                    },
                }
            }),
    {
        let f = self.extract_frame_from_recv_buf(cap)?;
        match DataT::from_packet(&f) {
            Ok(m) => Ok(m),
            Err(e) => Err(ComErr::UartError(e)),
        }
    }

    /// The frame that carries `data`, ready to be written to the device.
    /// Fails with `UartError(ENOMEM)` when it does not fit in `cap` bytes.
    pub fn send_data(&self, data: &DataT, cap: usize) -> (r: Result<Vec<u8>, ComErr>)
        requires
            data.wf(),
        ensures
            r.is_ok() <==> encoding(*data).len() <= cap && frame_bytes(encoding(*data)).len()
                <= cap,
            r matches Ok(f) ==> f@ == frame_bytes(encoding(*data)),
            r matches Err(e) ==> e == ComErr::UartError(Error::ENOMEM),
    {
        match data.to_packet(cap) {
            Ok(f) => Ok(f),
            Err(e) => Err(ComErr::UartError(e)),
        }
    }
}

} // verus!
