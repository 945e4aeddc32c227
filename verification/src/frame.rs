//! Length-prefixed framing: every message on a stream is a four-byte
//! big-endian length followed by that many payload bytes.

use vstd::prelude::*;

verus! {

/// 2^32, the modulus of the length field.
pub open spec fn length_modulus() -> nat {
    0x1_0000_0000
}

/// The four big-endian bytes of `n`, for `n < 2^32`.
pub open spec fn be_bytes(n: nat) -> Seq<u8> {
    seq![
        (n / 0x100_0000) as u8,
        ((n / 0x1_0000) % 0x100) as u8,
        ((n / 0x100) % 0x100) as u8,
        (n % 0x100) as u8,
    ]
}

/// The number that four big-endian bytes denote.
pub open spec fn be_value(b: Seq<u8>) -> nat {
    (b[0] as nat) * 0x100_0000 + (b[1] as nat) * 0x1_0000 + (b[2] as nat) * 0x100 + (b[3] as nat)
}

/// The header written before a payload of `len` bytes: the length taken
/// modulo 2^32, as a `u32` cast does.
pub open spec fn header_of(len: nat) -> Seq<u8> {
    be_bytes(len % length_modulus())
}

/// The bytes that put `payload` on a stream.
pub open spec fn framed(payload: Seq<u8>) -> Seq<u8> {
    header_of(payload.len()) + payload
}

/// The bytes that put each of `payloads` on a stream, one after the other.
pub open spec fn framed_all(payloads: Seq<Seq<u8>>) -> Seq<u8>
    decreases payloads.len(),
{
    if payloads.len() == 0 {
        Seq::empty()
    } else {
        framed(payloads[0]) + framed_all(payloads.drop_first())
    }
}

pub proof fn lemma_be_roundtrip(n: nat)
    requires
        n < length_modulus(),
    ensures
        be_bytes(n).len() == 4,
        be_value(be_bytes(n)) == n,
{
    let b = be_bytes(n);
    assert(n / 0x100_0000 < 0x100);
    assert(b[0] as nat == n / 0x100_0000);
    assert(b[1] as nat == (n / 0x1_0000) % 0x100);
    assert(b[2] as nat == (n / 0x100) % 0x100);
    assert(b[3] as nat == n % 0x100);
    assert(be_value(b) == n) by (nonlinear_arith)
        requires
            b[0] as nat == n / 0x100_0000,
            b[1] as nat == (n / 0x1_0000) % 0x100,
            b[2] as nat == (n / 0x100) % 0x100,
            b[3] as nat == n % 0x100,
            be_value(b) == (b[0] as nat) * 0x100_0000 + (b[1] as nat) * 0x1_0000 + (b[2] as nat) * 0x100 + (b[3] as nat),
    ;
}

/// The header that announces a payload of `len` bytes.
pub fn frame_header(len: usize) -> (h: Vec<u8>)
    ensures
        h@ == header_of(len as nat),
{
    let n: u64 = (len as u64) % 0x1_0000_0000;
    let mut h: Vec<u8> = Vec::new();
    h.push((n / 0x100_0000) as u8);
    h.push(((n / 0x1_0000) % 0x100) as u8);
    h.push(((n / 0x100) % 0x100) as u8);
    h.push((n % 0x100) as u8);
    assert(h@ =~= header_of(len as nat));
    h
}


/// Puts `payload` on the wire: its header, then the payload itself.
pub fn encode_frame(payload: &[u8]) -> (out: Vec<u8>)
    ensures
        out@ == framed(payload@),
{
    let mut out = frame_header(payload.len());
    let ghost head = out@;
    let mut i: usize = 0;
    while i < payload.len()
        invariant
            i <= payload.len(),
            head == header_of(payload@.len()),
            out@ == head + payload@.subrange(0, i as int),
        decreases payload.len() - i,
    {
        out.push(payload[i]);
        i = i + 1;
        assert(payload@.subrange(0, i as int) =~= payload@.subrange(0, i - 1) + seq![payload@[i - 1]]);
    }
    assert(payload@.subrange(0, payload.len() as int) =~= payload@);
    out
}

/// The opening bytes a viewer sends on a fresh stream: an empty message.
pub fn handshake() -> (out: Vec<u8>)
    ensures
        out@ == framed(Seq::empty()),
{
    let h = frame_header(0);
    assert(framed(Seq::<u8>::empty()) =~= header_of(0));
    h
}

/// What the reading side of a stream waits for: a header, or the payload of
/// a header already read.
pub open spec fn wanted(state: Option<nat>) -> nat {
    match state {
        None => 4,
        Some(n) => n,
    }
}

/// One step of the reader: given exactly `wanted(state)` bytes, the next
/// state and, when a payload is complete, that payload.
pub open spec fn step(state: Option<nat>, chunk: Seq<u8>) -> (Option<nat>, Option<Seq<u8>>) {
    match state {
        None => (Some(be_value(chunk)), None),
        Some(_) => (None, Some(chunk)),
    }
}

/// Runs the reader from `state` over `buf`, each time taking the bytes it
/// wants while enough remain, and collects the payloads it completes.
pub open spec fn read_all(state: Option<nat>, buf: Seq<u8>) -> Seq<Seq<u8>>
    decreases buf.len(), if state is Some { 1nat } else { 0nat },
{
    let w = wanted(state);
    if buf.len() < w {
        Seq::empty()
    } else {
        let next = step(state, buf.take(w as int));
        let rest = read_all(next.0, buf.skip(w as int));
        match next.1 {
            Some(p) => seq![p] + rest,
            None => rest,
        }
    }
}

/// The reading side of a framed stream.
pub struct FrameReader {
    pending: Option<usize>,
}

impl View for FrameReader {
    type V = Option<nat>;

    closed spec fn view(&self) -> Option<nat> {
        match self.pending {
            None => None,
            Some(n) => Some(n as nat),
        }
    }
}

impl FrameReader {
    /// A reader waiting for the first header.
    pub fn new() -> (r: FrameReader)
        ensures
            r@ == None::<nat>,
    {
        FrameReader { pending: None }
    }

    /// How many bytes the next read must deliver.
    pub fn wanted(&self) -> (n: usize)
        ensures
            n == wanted(self@),
    {
        match self.pending {
            None => 4,
            Some(n) => n,
        }
    }

    /// Takes exactly the bytes that `wanted` asked for; returns the payload
    /// when those bytes complete one.
    pub fn accept(&mut self, chunk: &[u8]) -> (out: Option<Vec<u8>>)
        requires
            chunk@.len() == wanted(old(self)@),
        ensures
            final(self)@ == step(old(self)@, chunk@).0,
            out matches Some(p) ==> step(old(self)@, chunk@).1 == Some(p@),
            out is None ==> step(old(self)@, chunk@).1 is None,
    {
        match self.pending {
            None => {
                let len: u32 = (chunk[0] as u32) * 0x100_0000 + (chunk[1] as u32) * 0x1_0000
                    + (chunk[2] as u32) * 0x100 + (chunk[3] as u32);
                self.pending = Some(len as usize);
                None
            },
            Some(_) => {
                let mut p: Vec<u8> = Vec::new();
                let mut i: usize = 0;
                while i < chunk.len()
                    invariant
                        i <= chunk@.len(),
                        p@ == chunk@.subrange(0, i as int),
                    decreases chunk.len() - i,
                {
                    p.push(chunk[i]);
                    i = i + 1;
                    assert(chunk@.subrange(0, i as int) =~= chunk@.subrange(0, i - 1) + seq![chunk@[i - 1]]);
                }
                assert(chunk@.subrange(0, chunk@.len() as int) =~= chunk@);
                self.pending = None;
                Some(p)
            },
        }
    }
}

/// Reading back one message: a reader waiting for a header, given the bytes
/// that framed `payload` followed by any further bytes, yields `payload` first
/// and then exactly what it yields on the further bytes alone.
pub proof fn law_read_frame(payload: Seq<u8>, rest: Seq<u8>)
    requires
        payload.len() < length_modulus(),
    ensures
        read_all(None, framed(payload) + rest) == seq![payload] + read_all(None, rest),
{
    let buf = framed(payload) + rest;
    lemma_be_roundtrip(payload.len());
    assert(buf.take(4) =~= header_of(payload.len()));
    let after = buf.skip(4);
    assert(after =~= payload + rest);
    let n = payload.len();
    assert(after.take(n as int) =~= payload);
    assert(after.skip(n as int) =~= rest);
    assert(read_all(Some(n), after) == seq![payload] + read_all(None, rest));
}

/// Reading back a stream: a reader waiting for a header, given the bytes that
/// framed a sequence of payloads one after the other, yields exactly those
/// payloads in order.
pub proof fn law_read_stream(payloads: Seq<Seq<u8>>)
    requires
        forall|i: int| 0 <= i < payloads.len() ==> (#[trigger] payloads[i]).len() < length_modulus(),
    ensures
        read_all(None, framed_all(payloads)) == payloads,
    decreases payloads.len(),
{
    if payloads.len() == 0 {
        assert(read_all(None, Seq::<u8>::empty()) =~= Seq::<Seq<u8>>::empty());
    } else {
        let tail = payloads.drop_first();
        assert forall|i: int| 0 <= i < tail.len() implies (#[trigger] tail[i]).len() < length_modulus() by {
            assert(tail[i] == payloads[i + 1]);
        }
        law_read_stream(tail);
        law_read_frame(payloads[0], framed_all(tail));
        assert(seq![payloads[0]] + tail =~= payloads);
    }
}


/// Reading back a stream followed by further bytes: the payloads framed one
/// after the other come out first, in order, then whatever the further bytes
/// yield on their own.
pub proof fn law_read_stream_then(payloads: Seq<Seq<u8>>, rest: Seq<u8>)
    requires
        forall|i: int| 0 <= i < payloads.len() ==> (#[trigger] payloads[i]).len() < length_modulus(),
    ensures
        read_all(None, framed_all(payloads) + rest) == payloads + read_all(None, rest),
    decreases payloads.len(),
{
    if payloads.len() == 0 {
        assert(framed_all(payloads) + rest =~= rest);
        assert(payloads + read_all(None, rest) =~= read_all(None, rest));
    } else {
        let tail = payloads.drop_first();
        assert forall|i: int| 0 <= i < tail.len() implies (#[trigger] tail[i]).len() < length_modulus() by {
            assert(tail[i] == payloads[i + 1]);
        }
        law_read_stream_then(tail, rest);
        assert(framed_all(payloads) + rest =~= framed(payloads[0]) + (framed_all(tail) + rest));
        law_read_frame(payloads[0], framed_all(tail) + rest);
        assert(seq![payloads[0]] + (tail + read_all(None, rest)) =~= payloads + read_all(None, rest));
    }
}

/// A message cut short yields nothing: a reader waiting for a header, given
/// only a proper beginning of the bytes that framed a payload, completes no
/// payload.
pub proof fn law_partial_frame_yields_nothing(payload: Seq<u8>, cut: int)
    requires
        payload.len() < length_modulus(),
        0 <= cut < framed(payload).len(),
    ensures
        read_all(None, framed(payload).take(cut)) == Seq::<Seq<u8>>::empty(),
{
    let buf = framed(payload).take(cut);
    if cut >= 4 {
        lemma_be_roundtrip(payload.len());
        assert(buf.take(4) =~= header_of(payload.len()));
        let after = buf.skip(4);
        assert(after.len() < payload.len());
        assert(read_all(Some(payload.len()), after) == Seq::<Seq<u8>>::empty());
    }
}

/// A stream that breaks off inside a message yields exactly the messages
/// completed before the break.
pub proof fn law_read_broken_stream(payloads: Seq<Seq<u8>>, last: Seq<u8>, cut: int)
    requires
        forall|i: int| 0 <= i < payloads.len() ==> (#[trigger] payloads[i]).len() < length_modulus(),
        last.len() < length_modulus(),
        0 <= cut < framed(last).len(),
    ensures
        read_all(None, framed_all(payloads) + framed(last).take(cut)) == payloads,
{
    law_read_stream_then(payloads, framed(last).take(cut));
    law_partial_frame_yields_nothing(last, cut);
    assert(payloads + Seq::<Seq<u8>>::empty() =~= payloads);
}

} // verus!
