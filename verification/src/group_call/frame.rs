//! Framing of encrypted media and data.  The ciphertext is the encrypted
//! payload followed by a footer: 1 byte ratchet counter, 4 byte big-endian
//! frame counter and a 16 byte MAC.

use vstd::prelude::*;
use crate::error::RingRtcError;
use crate::util::bytes::{be_value, lemma_be_value_bound, pow256};

verus! {

/// Writes into a buffer from the front.
pub struct Writer<'buf> {
    pub buf: &'buf mut [u8],
    pub offset: usize,
}

/// The bytes after `s` has `input` written at `offset`.
pub open spec fn written(s: Seq<u8>, offset: int, input: Seq<u8>) -> Seq<u8> {
    s.subrange(0, offset) + input + s.subrange(offset + input.len(), s.len() as int)
}

/// The bytes after the `len` bytes of `s` at `offset` were handed out and
/// left holding `region`.
pub open spec fn written_through(s: Seq<u8>, offset: int, len: nat, region: Seq<u8>) -> Seq<u8> {
    s.subrange(0, offset) + region + s.subrange(offset + len, s.len() as int)
}

/// The four big-endian bytes of a number.
pub open spec fn u32_be_bytes(v: u32) -> Seq<u8> {
    seq![(v / 0x1000000) as u8, ((v / 0x10000) % 0x100) as u8, ((v / 0x100) % 0x100) as u8, (v % 0x100) as u8]
}

impl<'buf> Writer<'buf> {
    pub open spec fn offset(&self) -> usize {
        self.offset
    }

    /// What the buffer holds now.
    pub open spec fn contents(&self) -> Seq<u8> {
        self.buf@
    }

    pub open spec fn wf(&self) -> bool {
        self.offset() <= self.contents().len()
    }

    /// A writer at the start of the buffer.
    pub fn new(buf: &'buf mut [u8]) -> (w: Self)
        ensures
            w.wf(),
            w.offset() == 0,
            w.contents() == old(buf)@,
            final(buf)@ == final(w.buf)@,
    {
        Writer { buf, offset: 0 }
    }

    /// The bytes left to write.
    pub fn remaining_len(&self) -> (n: usize)
        requires
            self.wf(),
        ensures
            n == self.contents().len() - self.offset(),
    {
        self.buf.len() - self.offset
    }

    /// Writes the bytes, or fails with `BufferTooSmall` (writing nothing) if
    /// they don't fit.
    pub fn write_slice(&mut self, input: &[u8]) -> (r: Result<&mut [u8], RingRtcError>)
        requires
            old(self).wf(),
        ensures
            final(final(self).buf)@ == final(old(self).buf)@,
            if input@.len() <= old(self).contents().len() - old(self).offset() {
                r matches Ok(out) && out@ == input@
                    && final(self).offset() == old(self).offset() + input@.len()
                    && final(self).contents() == written_through(old(self).contents(), old(self).offset() as int, input@.len(), final(out)@)
            } else {
                r matches Err(RingRtcError::BufferTooSmall) && final(self).offset() == old(self).offset()
                    && final(self).contents() == old(self).contents() && final(self).wf()
            },
    {
        if self.remaining_len() < input.len() {
            return Err(RingRtcError::BufferTooSmall);
        }
        let ghost start = self.buf@;
        let offset = self.offset;
        let n = self.buf.len();
        let mut i: usize = 0;
        while i < input.len()
            invariant
                n == self.buf@.len(),
                offset + input@.len() <= self.buf@.len(),
                self.buf@.len() == start.len(),
                self.offset == offset,
                final(self.buf)@ == final(old(self).buf)@,
                i <= input@.len(),
                self.buf@ == written(start, offset as int, input@.subrange(0, i as int)),
            decreases input@.len() - i,
        {
            self.buf[offset + i] = input[i];
            i = i + 1;
            assert(self.buf@ =~= written(start, offset as int, input@.subrange(0, i as int)));
        }
        assert(input@.subrange(0, input@.len() as int) =~= input@);
        self.offset = offset + input.len();
        let (_, rest) = self.buf.split_at_mut(offset);
        let (out, _) = rest.split_at_mut(input.len());
        assert(out@ =~= input@);
        Ok(out)
    }

    /// Like `write_slice`; the input is copied as it was when the call began.
    pub fn write_slice_overlapping(&mut self, input: &[u8]) -> (r: Result<&mut [u8], RingRtcError>)
        requires
            old(self).wf(),
        ensures
            final(final(self).buf)@ == final(old(self).buf)@,
            if input@.len() <= old(self).contents().len() - old(self).offset() {
                r matches Ok(out) && out@ == input@
                    && final(self).offset() == old(self).offset() + input@.len()
                    && final(self).contents() == written_through(old(self).contents(), old(self).offset() as int, input@.len(), final(out)@)
            } else {
                r matches Err(RingRtcError::BufferTooSmall) && final(self).offset() == old(self).offset()
                    && final(self).contents() == old(self).contents() && final(self).wf()
            },
    {
        self.write_slice(input)
    }

    /// Writes one byte, or fails with `BufferTooSmall`.
    pub fn write_u8(&mut self, input: u8) -> (r: Result<(), RingRtcError>)
        requires
            old(self).wf(),
        ensures
            final(self).wf(),
            final(final(self).buf)@ == final(old(self).buf)@,
            if old(self).offset() < old(self).contents().len() {
                r is Ok && final(self).offset() == old(self).offset() + 1
                    && final(self).contents() == written(old(self).contents(), old(self).offset() as int, seq![input])
            } else {
                r matches Err(RingRtcError::BufferTooSmall) && final(self).offset() == old(self).offset()
                    && final(self).contents() == old(self).contents()
            },
    {
        if self.remaining_len() < 1 {
            return Err(RingRtcError::BufferTooSmall);
        }
        let ghost start = self.buf@;
        self.buf[self.offset] = input;
        assert(self.buf@ =~= written(start, self.offset as int, seq![input]));
        self.offset += 1;
        Ok(())
    }

    /// Writes a number as 4 big-endian bytes, or fails with `BufferTooSmall`.
    pub fn write_u32(&mut self, input: u32) -> (r: Result<(), RingRtcError>)
        requires
            old(self).wf(),
        ensures
            final(self).wf(),
            final(final(self).buf)@ == final(old(self).buf)@,
            if 4 <= old(self).contents().len() - old(self).offset() {
                r is Ok && final(self).offset() == old(self).offset() + 4
                    && final(self).contents() == written(old(self).contents(), old(self).offset() as int, u32_be_bytes(input))
            } else {
                r matches Err(RingRtcError::BufferTooSmall) && final(self).offset() == old(self).offset()
                    && final(self).contents() == old(self).contents()
            },
    {
        let bytes = u32_to_be_bytes(input);
        match self.write_slice(bytes.as_slice()) {
            Ok(_) => Ok(()),
            Err(e) => Err(e),
        }
    }
}

/// The four big-endian bytes of a number.
pub fn u32_to_be_bytes(v: u32) -> (r: Vec<u8>)
    ensures
        r@ == u32_be_bytes(v),
{
    let r = vec![(v / 0x1000000) as u8, ((v / 0x10000) % 0x100) as u8, ((v / 0x100) % 0x100) as u8, (v % 0x100) as u8];
    assert(r@ =~= u32_be_bytes(v));
    r
}

/// Reads fields from the end of data.
pub struct Reader<'data> {
    data: &'data [u8],
}

impl<'data> Reader<'data> {
    /// The data not yet read.
    pub closed spec fn rest(&self) -> Seq<u8> {
        self.data@
    }

    pub fn new(data: &'data [u8]) -> (r: Self)
        ensures
            r.rest() == data@,
    {
        Reader { data }
    }

    /// The data not yet read.
    pub fn remaining(&self) -> (r: &'data [u8])
        ensures
            r@ == self.rest(),
    {
        self.data
    }

    /// Takes the last `len` bytes, or fails with `BufferTooSmall` (taking
    /// nothing) if there are fewer.
    pub fn read_slice_from_end(&mut self, len: usize) -> (r: Result<&'data [u8], RingRtcError>)
        ensures
            if len <= old(self).rest().len() {
                let n = old(self).rest().len();
                r matches Ok(s) && s@ == old(self).rest().subrange(n - len, n as int)
                    && final(self).rest() == old(self).rest().subrange(0, n - len)
            } else {
                r matches Err(RingRtcError::BufferTooSmall) && final(self).rest() == old(self).rest()
            },
    {
        if len > self.data.len() {
            return Err(RingRtcError::BufferTooSmall);
        }
        let (rest, read) = self.data.split_at(self.data.len() - len);
        self.data = rest;
        Ok(read)
    }

    /// Takes the last byte, or fails with `BufferTooSmall` if there is none.
    pub fn read_u8_from_end(&mut self) -> (r: Result<u8, RingRtcError>)
        ensures
            if old(self).rest().len() > 0 {
                r == Ok::<u8, RingRtcError>(old(self).rest().last()) && final(self).rest() == old(self).rest().drop_last()
            } else {
                r matches Err(RingRtcError::BufferTooSmall) && final(self).rest() == old(self).rest()
            },
    {
        match self.read_slice_from_end(1) {
            Ok(s) => {
                assert(self.rest() =~= old(self).rest().drop_last());
                Ok(s[0])
            },
            Err(e) => Err(e),
        }
    }

    /// Takes the last 4 bytes as a big-endian number, or fails with
    /// `BufferTooSmall` if there are fewer.
    pub fn read_u32_from_end(&mut self) -> (r: Result<u32, RingRtcError>)
        ensures
            if old(self).rest().len() >= 4 {
                let n = old(self).rest().len();
                r matches Ok(v) && v == be_value(old(self).rest().subrange(n - 4, n as int))
                    && final(self).rest() == old(self).rest().subrange(0, n - 4)
            } else {
                r matches Err(RingRtcError::BufferTooSmall) && final(self).rest() == old(self).rest()
            },
    {
        match self.read_slice_from_end(4) {
            Ok(s) => {
                let v: u32 = ((s[0] as u32) * 0x1000000) + ((s[1] as u32) * 0x10000) + ((s[2] as u32) * 0x100) + (s[3] as u32);
                proof {
                    let q = s@;
                    assert(q.drop_last().drop_last().drop_last().drop_last() =~= Seq::<u8>::empty());
                    assert(q.drop_last().drop_last().drop_last().last() == q[0]);
                    assert(q.drop_last().drop_last().last() == q[1]);
                    assert(q.drop_last().last() == q[2]);
                    assert(q.last() == q[3]);
                    reveal_with_fuel(be_value, 5);
                }
                Ok(v)
            },
            Err(e) => Err(e),
        }
    }
}

/// Bytes in the footer of an encrypted frame.
pub const FRAME_ENCRYPTION_FOOTER_LEN: usize = 21;

/// The ciphertext size for a plaintext size (saturating).
pub fn get_ciphertext_buffer_size(plaintext_size: usize) -> (r: usize)
    ensures
        r == if plaintext_size + FRAME_ENCRYPTION_FOOTER_LEN <= usize::MAX {
            (plaintext_size + FRAME_ENCRYPTION_FOOTER_LEN) as usize
        } else {
            usize::MAX
        },
{
    plaintext_size.saturating_add(FRAME_ENCRYPTION_FOOTER_LEN)
}

/// The plaintext size for a ciphertext size (saturating at zero).
pub fn get_plaintext_buffer_size(ciphertext_size: usize) -> (r: usize)
    ensures
        r == if ciphertext_size >= FRAME_ENCRYPTION_FOOTER_LEN {
            (ciphertext_size - FRAME_ENCRYPTION_FOOTER_LEN) as usize
        } else {
            0
        },
{
    ciphertext_size.saturating_sub(FRAME_ENCRYPTION_FOOTER_LEN)
}

/// The fields of an encrypted frame.
pub struct FrameParts<'data> {
    pub encrypted_payload: &'data [u8],
    pub ratchet_counter: u8,
    pub frame_counter: u32,
    pub mac: &'data [u8],
}

/// Splits an encrypted frame into its payload and footer fields, or fails
/// with `BufferTooSmall` if it is shorter than a footer.
pub fn parse_encrypted_frame<'data>(ciphertext: &'data [u8]) -> (r: Result<FrameParts<'data>, RingRtcError>)
    ensures
        if ciphertext@.len() >= FRAME_ENCRYPTION_FOOTER_LEN {
            let n = ciphertext@.len() as int;
            r matches Ok(p) && p.mac@ == ciphertext@.subrange(n - 16, n)
                && p.frame_counter == be_value(ciphertext@.subrange(n - 20, n - 16))
                && p.ratchet_counter == ciphertext@[n - 21]
                && p.encrypted_payload@ == ciphertext@.subrange(0, n - 21)
        } else {
            r matches Err(RingRtcError::BufferTooSmall)
        },
{
    let mut reader = Reader::new(ciphertext);
    let mac = match reader.read_slice_from_end(16) {
        Ok(m) => m,
        Err(e) => return Err(e),
    };
    let frame_counter = match reader.read_u32_from_end() {
        Ok(v) => v,
        Err(e) => return Err(e),
    };
    let ratchet_counter = match reader.read_u8_from_end() {
        Ok(v) => v,
        Err(e) => return Err(e),
    };
    let encrypted_payload = reader.remaining();
    proof {
        let n = ciphertext@.len() as int;
        assert(ciphertext@.subrange(0, n - 16).subrange(n - 20, n - 16) =~= ciphertext@.subrange(n - 20, n - 16));
        assert(ciphertext@.subrange(0, n - 16).subrange(0, n - 20) =~= ciphertext@.subrange(0, n - 20));
        assert(ciphertext@.subrange(0, n - 20).drop_last() =~= ciphertext@.subrange(0, n - 21));
    }
    Ok(FrameParts { encrypted_payload, ratchet_counter, frame_counter, mac })
}

/// Writes an encrypted frame into the buffer: the payload and then the
/// footer.  Fails with `FrameCounterTooBig` if the frame counter doesn't
/// fit in 4 bytes and with `BufferTooSmall` if the buffer is too short.
/// Returns the ciphertext size.
pub fn write_encrypted_frame(
    ciphertext_buffer: &mut [u8],
    encrypted_payload: &[u8],
    ratchet_counter: u8,
    frame_counter: u64,
    mac: &[u8],
) -> (r: Result<usize, RingRtcError>)
    requires
        mac@.len() == 16,
    ensures
        r is Ok <==> (frame_counter <= u32::MAX && encrypted_payload@.len() + FRAME_ENCRYPTION_FOOTER_LEN <= old(ciphertext_buffer)@.len()),
        encrypted_payload@.len() + FRAME_ENCRYPTION_FOOTER_LEN > old(ciphertext_buffer)@.len() && frame_counter <= u32::MAX
            ==> r matches Err(RingRtcError::BufferTooSmall),
        encrypted_payload@.len() > old(ciphertext_buffer)@.len() ==> r matches Err(RingRtcError::BufferTooSmall),
        frame_counter > u32::MAX && encrypted_payload@.len() <= old(ciphertext_buffer)@.len()
            ==> r matches Err(RingRtcError::FrameCounterTooBig),
        r matches Ok(n) ==> {
            let p = encrypted_payload@.len() as int;
            &&& n == p + FRAME_ENCRYPTION_FOOTER_LEN
            &&& final(ciphertext_buffer)@.len() == old(ciphertext_buffer)@.len()
            &&& final(ciphertext_buffer)@.subrange(0, p + 21)
                == encrypted_payload@ + seq![ratchet_counter] + u32_be_bytes(frame_counter as u32) + mac@
            &&& final(ciphertext_buffer)@.subrange(p + 21, old(ciphertext_buffer)@.len() as int)
                == old(ciphertext_buffer)@.subrange(p + 21, old(ciphertext_buffer)@.len() as int)
        },
{
    let ghost start = ciphertext_buffer@;
    let mut w = Writer::new(ciphertext_buffer);
    if let Err(e) = w.write_slice(encrypted_payload) {
        return Err(e);
    }
    if frame_counter > 0xFFFF_FFFF {
        return Err(RingRtcError::FrameCounterTooBig);
    }
    if let Err(e) = w.write_u8(ratchet_counter) {
        return Err(e);
    }
    if let Err(e) = w.write_u32(frame_counter as u32) {
        return Err(e);
    }
    if let Err(e) = w.write_slice(mac) {
        return Err(e);
    }
    proof {
        let p = encrypted_payload@.len() as int;
        assert(w.contents().subrange(0, p + 21)
            =~= encrypted_payload@ + seq![ratchet_counter] + u32_be_bytes(frame_counter as u32) + mac@);
        assert(w.contents().subrange(p + 21, start.len() as int) =~= start.subrange(p + 21, start.len() as int));
    }
    Ok(encrypted_payload.len() + FRAME_ENCRYPTION_FOOTER_LEN)
}

/// The bytes of an encrypted frame: the payload, then the footer of ratchet
/// counter, frame counter and MAC.
pub open spec fn frame_bytes(payload: Seq<u8>, ratchet_counter: u8, frame_counter: u32, mac: Seq<u8>) -> Seq<u8> {
    payload + seq![ratchet_counter] + u32_be_bytes(frame_counter) + mac
}

/// A frame written with a payload and footer fields parses back into the same
/// payload and fields.
pub proof fn law_frame_roundtrip(payload: Seq<u8>, ratchet_counter: u8, frame_counter: u32, mac: Seq<u8>)
    requires
        mac.len() == 16,
    ensures
        ({
            let c = frame_bytes(payload, ratchet_counter, frame_counter, mac);
            let n = c.len() as int;
            &&& n >= FRAME_ENCRYPTION_FOOTER_LEN
            &&& c.subrange(n - 16, n) == mac
            &&& be_value(c.subrange(n - 20, n - 16)) == frame_counter
            &&& c[n - 21] == ratchet_counter
            &&& c.subrange(0, n - 21) == payload
        }),
{
    let c = frame_bytes(payload, ratchet_counter, frame_counter, mac);
    let n = c.len() as int;
    let p = payload.len() as int;
    assert(c.subrange(n - 16, n) =~= mac);
    assert(c.subrange(0, n - 21) =~= payload);
    let q = c.subrange(n - 20, n - 16);
    assert(q =~= u32_be_bytes(frame_counter));
    assert(q.drop_last().drop_last().drop_last().drop_last() =~= Seq::<u8>::empty());
    assert(q.drop_last().drop_last().drop_last().last() == q[0]);
    assert(q.drop_last().drop_last().last() == q[1]);
    assert(q.drop_last().last() == q[2]);
    assert(q.last() == q[3]);
    reveal_with_fuel(be_value, 5);
    let v = frame_counter;
    assert(v == (v / 0x1000000) * 0x1000000 + ((v / 0x10000) % 0x100) * 0x10000 + ((v / 0x100) % 0x100) * 0x100 + v % 0x100) by (nonlinear_arith);
}
} // verus!
