use vstd::prelude::*;

verus! {

// ---------------------------------------------------------------------------
// The length prefix
// ---------------------------------------------------------------------------

/// The four big-endian bytes of a 32-bit length.
pub open spec fn u32_be_bytes(n: nat) -> Seq<u8>
    recommends
        n <= u32::MAX,
{
    seq![
        (n / 0x1000000 % 256) as u8,
        (n / 0x10000 % 256) as u8,
        (n / 0x100 % 256) as u8,
        (n % 256) as u8,
    ]
}

/// The length read back from the first four bytes, big-endian.
pub open spec fn u32_from_be(b: Seq<u8>) -> nat
    recommends
        b.len() >= 4,
{
    (b[0] as nat) * 0x1000000 + (b[1] as nat) * 0x10000 + (b[2] as nat) * 0x100 + (b[3] as nat)
}

/// Reading back the four big-endian bytes of a length gives the length.
pub proof fn lemma_u32_be_round_trip(n: nat)
    requires
        n <= u32::MAX,
    ensures
        u32_from_be(u32_be_bytes(n)) == n,
{
    assert((n / 0x1000000 % 256) * 0x1000000 + (n / 0x10000 % 256) * 0x10000 + (n / 0x100 % 256)
        * 0x100 + n % 256 == n) by (nonlinear_arith)
        requires
            n <= u32::MAX,
    ;
}

// ---------------------------------------------------------------------------
// Frames
// ---------------------------------------------------------------------------

/// The payload length announced by a buffer's first four bytes.
pub open spec fn spec_frame_len(b: Seq<u8>) -> nat
    recommends
        b.len() >= 4,
{
    u32_from_be(b)
}

/// Whether the buffer holds one whole frame: the length prefix and at least
/// as many payload bytes as it announces.
pub open spec fn spec_has_frame(b: Seq<u8>) -> bool {
    b.len() >= 4 && b.len() >= 4 + spec_frame_len(b)
}

/// The payload of the buffer's first frame.
pub open spec fn spec_frame_payload(b: Seq<u8>) -> Seq<u8>
    recommends
        spec_has_frame(b),
{
    b.subrange(4, 4 + spec_frame_len(b) as int)
}

/// What remains of the buffer once its first frame is taken off.
pub open spec fn spec_frame_rest(b: Seq<u8>) -> Seq<u8>
    recommends
        spec_has_frame(b),
{
    b.subrange(4 + spec_frame_len(b) as int, b.len() as int)
}

/// Incremental decoder for length-prefixed frames. Bytes arrive in chunks of
/// any size; a frame comes out exactly when its length prefix and whole
/// payload have arrived, however the chunks were cut.
pub struct FrameDecoder {
    buf: Vec<u8>,
}

impl View for FrameDecoder {
    type V = Seq<u8>;

    closed spec fn view(&self) -> Seq<u8> {
        self.buf@
    }
}

impl FrameDecoder {
    /// An empty decoder.
    pub fn new() -> (r: Self)
        ensures
            r@ == Seq::<u8>::empty(),
    {
        FrameDecoder { buf: Vec::new() }
    }

    /// Takes in the next chunk of received bytes, in arrival order.
    pub fn feed(&mut self, bytes: &[u8])
        ensures
            final(self)@ == old(self)@ + bytes@,
    {
        let mut i: usize = 0;
        while i < bytes.len()
            invariant
                i <= bytes@.len(),
                self.buf@ == old(self)@ + bytes@.subrange(0, i as int),
            decreases bytes@.len() - i,
        {
            let b = bytes[i];
            self.buf.push(b);
            i = i + 1;
            proof {
                assert(old(self)@ + bytes@.subrange(0, i - 1 as int) + seq![bytes@[i - 1]] =~= old(
                    self,
                )@ + bytes@.subrange(0, i as int));
            }
        }
        proof {
            assert(bytes@.subrange(0, bytes@.len() as int) =~= bytes@);
        }
    }

    /// Hands out the next complete frame's payload, if one whole frame has
    /// arrived, and removes it from the buffer; otherwise leaves the buffer
    /// as it is.
    pub fn next_frame(&mut self) -> (r: Option<Vec<u8>>)
        ensures
            spec_has_frame(old(self)@) ==> (r matches Some(p) && p@ == spec_frame_payload(
                old(self)@,
            ) && final(self)@ == spec_frame_rest(old(self)@)),
            !spec_has_frame(old(self)@) ==> r is None && final(self)@ == old(self)@,
    {
        if self.buf.len() < 4 {
            return Option::None;
        }
        let b0 = self.buf[0] as u32;
        let b1 = self.buf[1] as u32;
        let b2 = self.buf[2] as u32;
        let b3 = self.buf[3] as u32;
        let msg_len: u32 = b0 * 0x1000000 + b1 * 0x10000 + b2 * 0x100 + b3;
        proof {
            assert(msg_len as nat == spec_frame_len(self.buf@));
        }
        let total: u64 = 4u64 + msg_len as u64;
        if (self.buf.len() as u64) < total {
            return Option::None;
        }
        let len: usize = msg_len as usize;
        let mut payload: Vec<u8> = Vec::new();
        let mut i: usize = 0;
        while i < len
            invariant
                i <= len,
                len as nat == spec_frame_len(old(self)@),
                4 + len as nat <= self.buf@.len() <= usize::MAX,
                self.buf@ == old(self)@,
                payload@.len() == i as nat,
                forall|j: int| 0 <= j < i as int ==> payload@[j] == self.buf@[4 + j],
            decreases len - i,
        {
            let b = self.buf[4 + i];
            payload.push(b);
            i = i + 1;
        }
        let start: usize = 4 + len;
        let mut rest: Vec<u8> = Vec::new();
        let mut j: usize = start;
        while j < self.buf.len()
            invariant
                start <= j <= self.buf@.len(),
                self.buf@ == old(self)@,
                start as nat == 4 + spec_frame_len(old(self)@),
                rest@.len() == j - start,
                forall|k: int| 0 <= k < rest@.len() ==> rest@[k] == self.buf@[start as int + k],
            decreases self.buf@.len() - j,
        {
            let b = self.buf[j];
            rest.push(b);
            j = j + 1;
        }
        self.buf = rest;
        proof {
            assert(payload@ =~= spec_frame_payload(old(self)@));
            assert(self.buf@ =~= spec_frame_rest(old(self)@));
        }
        Option::Some(payload)
    }
}

/// Frames a payload for the wire: its length as four big-endian bytes, then
/// the payload itself. `None` when the payload is longer than the length
/// field can say.
pub fn encode_frame(payload: &Vec<u8>) -> (r: Option<Vec<u8>>)
    ensures
        payload@.len() <= u32::MAX ==> (r matches Some(f) && f@ == u32_be_bytes(payload@.len())
            + payload@),
        payload@.len() > u32::MAX ==> r is None,
{
    if payload.len() as u64 > u32::MAX as u64 {
        return Option::None;
    }
    let n = payload.len() as u32;
    let mut out: Vec<u8> = Vec::new();
    out.push((n / 0x1000000 % 256) as u8);
    out.push((n / 0x10000 % 256) as u8);
    out.push((n / 0x100 % 256) as u8);
    out.push((n % 256) as u8);
    let mut i: usize = 0;
    while i < payload.len()
        invariant
            i <= payload@.len(),
            payload@.len() <= u32::MAX,
            n as nat == payload@.len(),
            out@ == u32_be_bytes(payload@.len()) + payload@.subrange(0, i as int),
        decreases payload@.len() - i,
    {
        let b = payload[i];
        out.push(b);
        i = i + 1;
        proof {
            assert(u32_be_bytes(payload@.len()) + payload@.subrange(0, i - 1 as int) + seq![
                payload@[i - 1],
            ] =~= u32_be_bytes(payload@.len()) + payload@.subrange(0, i as int));
        }
    }
    proof {
        assert(u32_be_bytes(payload@.len()) + payload@.subrange(0, payload@.len() as int)
            =~= u32_be_bytes(payload@.len()) + payload@);
    }
    Option::Some(out)
}

/// A frame cut into a length prefix and a payload that arrive separately is
/// still reassembled into exactly one message: the buffer made of the two
/// pieces holds one whole frame, its payload is the second piece, and
/// nothing is left over.
pub proof fn lemma_split_frame_reassembles(prefix: Seq<u8>, payload: Seq<u8>)
    requires
        payload.len() <= u32::MAX,
        prefix == u32_be_bytes(payload.len()),
    ensures
        spec_has_frame(prefix + payload),
        spec_frame_payload(prefix + payload) == payload,
        spec_frame_rest(prefix + payload) == Seq::<u8>::empty(),
{
    lemma_u32_be_round_trip(payload.len());
    let whole = prefix + payload;
    assert(whole[0] == prefix[0] && whole[1] == prefix[1] && whole[2] == prefix[2] && whole[3]
        == prefix[3]);
    assert(spec_frame_len(whole) == payload.len());
    assert(spec_frame_payload(whole) =~= payload);
    assert(spec_frame_rest(whole) =~= Seq::<u8>::empty());
}

} // verus!
