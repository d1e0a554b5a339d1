//! Length-prefixed framing over a byte stream.
//!
//! Every message body travels as one frame: a 4-byte little-endian
//! length followed by exactly that many body bytes.  A reader can thus
//! cut one message's bytes out of the stream before decoding them,
//! however the stream's delivery was chunked: the reader's buffer is
//! the concatenation of everything fed to it, and concatenation does
//! not depend on chunk boundaries.

use vstd::prelude::*;

verus! {

use vstd::bytes::{
    lemma_auto_spec_u32_to_from_le_bytes,
    spec_u32_from_le_bytes,
    spec_u32_to_le_bytes,
    u32_from_le_bytes,
    u32_to_le_bytes,
};
use vstd::slice::{slice_index_get, slice_subrange, slice_to_vec};
use crate::errors::SyncError;

/// Exclusive bound on the length a 4-byte prefix can announce: one
/// past the largest representable body length.
pub open spec fn block_len_limit() -> int {
    0x1_0000_0000
}

/// The largest frame body this system sends or accepts.  A prefix
/// announcing more than this cannot come from a well-behaved peer, so
/// the reader treats it as framing corruption rather than buffering
/// without bound.
pub const MAX_FRAME_LEN: u32 = 0x0080_0000;

/// The buffered stream opens with a prefix announcing a body over the
/// frame cap: unrecoverable boundary loss.
pub open spec fn frame_over_cap(stream: Seq<u8>) -> bool {
    stream.len() >= 4 && spec_u32_from_le_bytes(stream.subrange(0, 4)) > MAX_FRAME_LEN
}

/// `body`, wrapped with its 4-byte little-endian length prefix.
pub open spec fn spec_len_prefixed(body: Seq<u8>) -> Seq<u8> {
    spec_u32_to_le_bytes(body.len() as u32) + body
}

/// The first length-prefixed block of `stream`, and what follows it;
/// `None` while the stream holds no complete block yet.
pub open spec fn spec_take_block(stream: Seq<u8>) -> Option<(Seq<u8>, Seq<u8>)> {
    if stream.len() >= 4 {
        let n = spec_u32_from_le_bytes(stream.subrange(0, 4)) as int;
        if 4 + n <= stream.len() {
            Some((stream.subrange(4, 4 + n), stream.subrange(4 + n, stream.len() as int)))
        } else {
            None
        }
    } else {
        None
    }
}

/// Taking a block from a prefixed body followed by anything returns
/// exactly that body and leaves exactly the rest.
pub proof fn lemma_take_block_of_prefixed(body: Seq<u8>, rest: Seq<u8>)
    requires
        body.len() < block_len_limit(),
    ensures
        spec_take_block(spec_len_prefixed(body) + rest) == Some((body, rest)),
{
    lemma_auto_spec_u32_to_from_le_bytes();
    let whole = spec_len_prefixed(body) + rest;
    assert(whole.subrange(0, 4) =~= spec_u32_to_le_bytes(body.len() as u32));
    assert(spec_u32_from_le_bytes(whole.subrange(0, 4)) == body.len());
    assert(whole.subrange(4, 4 + body.len() as int) =~= body);
    assert(whole.subrange(4 + body.len() as int, whole.len() as int) =~= rest);
}

/// Two frames concatenated come back out in order: the first block of
/// `frame(a) + frame(b)` is `a`, and the first block of what remains
/// is `b`, leaving nothing.  Because a reader's buffer is the
/// concatenation of everything fed to it, this holds however the
/// combined byte stream was chunked during delivery.
pub proof fn lemma_frames_in_order(a: Seq<u8>, b: Seq<u8>)
    requires
        a.len() < block_len_limit(),
        b.len() < block_len_limit(),
    ensures
        spec_take_block(spec_len_prefixed(a) + spec_len_prefixed(b)) == Some(
            (a, spec_len_prefixed(b)),
        ),
        spec_take_block(spec_len_prefixed(b)) == Some((b, Seq::<u8>::empty())),
{
    lemma_take_block_of_prefixed(a, spec_len_prefixed(b));
    lemma_take_block_of_prefixed(b, Seq::empty());
    assert(spec_len_prefixed(b) + Seq::<u8>::empty() =~= spec_len_prefixed(b));
}

/// Wraps one message body into a frame.  Fails only on a body over
/// the frame cap, which no peer would accept.
pub fn frame_message(body: &Vec<u8>) -> (r: Result<Vec<u8>, SyncError>)
    ensures
        body@.len() <= MAX_FRAME_LEN ==> (r matches Ok(f) && f@ == spec_len_prefixed(body@)),
        body@.len() > MAX_FRAME_LEN ==> (r matches Err(e) && e is ProtocolFailure),
{
    if (body.len() as u64) > MAX_FRAME_LEN as u64 {
        return Err(SyncError::ProtocolFailure);
    }
    let mut out = u32_to_le_bytes(body.len() as u32);
    let mut i: usize = 0;
    while i < body.len()
        invariant
            i <= body@.len(),
            body@.len() < block_len_limit(),
            out@ == spec_u32_to_le_bytes(body@.len() as u32) + body@.take(i as int),
        decreases body@.len() - i,
    {
        out.push(body[i]);
        i = i + 1;
    }
    proof {
        assert(body@.take(body@.len() as int) =~= body@);
    }
    Ok(out)
}

/// Incremental frame extraction from a byte stream.
///
/// `feed` appends whatever bytes arrived; `next_frame` removes and
/// returns the first complete frame's body.  The reader's state is
/// exactly the bytes received and not yet returned, so message
/// boundaries never depend on how the stream was chunked.  A length
/// prefix over the frame cap poisons the reader: the boundary is lost
/// for good, nothing more comes out, and the owner must drop the
/// connection.
pub struct FrameReader {
    buf: Vec<u8>,
    corrupt: bool,
}

impl View for FrameReader {
    type V = Seq<u8>;

    closed spec fn view(&self) -> Seq<u8> {
        self.buf@
    }
}

impl FrameReader {
    /// Whether the stream's framing has been found corrupted.
    pub closed spec fn corrupted(&self) -> bool {
        self.corrupt
    }

    /// A reader with nothing buffered.
    pub fn new() -> (r: FrameReader)
        ensures
            r@ == Seq::<u8>::empty(),
            !r.corrupted(),
    {
        FrameReader { buf: Vec::new(), corrupt: false }
    }

    /// Reports framing corruption: an announced frame over the cap.
    /// Once set it never clears; the connection must be torn down.
    pub fn is_corrupted(&self) -> (r: bool)
        ensures
            r == self.corrupted(),
    {
        self.corrupt
    }

    /// Appends one delivery chunk to the buffered stream.
    pub fn feed(&mut self, chunk: &[u8])
        ensures
            final(self)@ == old(self)@ + chunk@,
            final(self).corrupted() == old(self).corrupted(),
    {
        let mut i: usize = 0;
        while i < chunk.len()
            invariant
                i <= chunk@.len(),
                self.buf@ == old(self).buf@ + chunk@.take(i as int),
                self.corrupt == old(self).corrupt,
            decreases chunk@.len() - i,
        {
            self.buf.push(*slice_index_get(chunk, i));
            i = i + 1;
        }
        proof {
            assert(chunk@.take(chunk@.len() as int) =~= chunk@);
        }
    }

    /// Removes and returns the first complete frame's body, or `None`
    /// while the buffer holds no complete frame.  A prefix announcing
    /// a body over the frame cap yields nothing and poisons the
    /// reader instead.
    pub fn next_frame(&mut self) -> (r: Option<Vec<u8>>)
        ensures
            match r {
                Some(body) => {
                    &&& !old(self).corrupted()
                    &&& !final(self).corrupted()
                    &&& spec_take_block(old(self)@) == Some((body@, final(self)@))
                    &&& body@.len() <= MAX_FRAME_LEN
                },
                None => {
                    &&& final(self)@ == old(self)@
                    &&& final(self).corrupted() == (old(self).corrupted() || frame_over_cap(
                        old(self)@,
                    ))
                    &&& (old(self).corrupted() || frame_over_cap(old(self)@) || spec_take_block(
                        old(self)@,
                    ) is None)
                },
            },
    {
        if self.corrupt {
            return None;
        }
        if self.buf.len() < 4 {
            return None;
        }
        let header = slice_subrange(self.buf.as_slice(), 0, 4);
        let n_raw = u32_from_le_bytes(header);
        proof {
            assert(self.buf@.subrange(0, 4) == header@);
        }
        if n_raw > MAX_FRAME_LEN {
            self.corrupt = true;
            return None;
        }
        let n = n_raw as usize;
        if n > self.buf.len() - 4 {
            return None;
        }
        let body = slice_to_vec(slice_subrange(self.buf.as_slice(), 4, 4 + n));
        let rest = slice_to_vec(
            slice_subrange(self.buf.as_slice(), 4 + n, self.buf.len()),
        );
        proof {
            assert(body@ == old(self)@.subrange(4, 4 + n as int));
            assert(rest@ == old(self)@.subrange(4 + n as int, old(self)@.len() as int));
        }
        self.buf = rest;
        Some(body)
    }
}

} // verus!
