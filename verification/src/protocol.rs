//! The wire protocol: message kinds and their byte encoding.
//!
//! A message is one of a closed set of four variants, serialized to a
//! self-describing byte body: a one-byte tag, then each variable-width
//! field as a length-prefixed block.  The body then travels inside one
//! frame (see `framing`).  Decoding dispatches on the tag and rejects
//! anything malformed; a rejected body is dropped by the receiver
//! without tearing the connection down.

use vstd::prelude::*;

verus! {

use vstd::slice::{slice_index_get, slice_subrange, slice_to_vec};
use vstd::string::StrSliceExecFns;
use vstd::utf8::{decode_utf8, encode_utf8, encode_utf8_decode_utf8, encode_utf8_valid_utf8,
    valid_utf8};
use crate::errors::SyncError;
use crate::framing::{block_len_limit, lemma_take_block_of_prefixed, spec_len_prefixed,
    spec_take_block};
use crate::text::string_from_utf8;

/// The unit of wire exchange between devices.  Exactly one variant is
/// active per message; the tag decides dispatch on the receiving side.
pub enum SyncMessage {
    /// A file under the sender's sync root changed.
    FileChange { path: String, change_type: String },
    /// The full content of one file, pushed to the receiver.
    FileContent { path: String, content: Vec<u8> },
    /// The sender asks for the receiver's fingerprint table.
    SyncRequest,
    /// Reconciliation results carried back to a requester.
    SyncResponse,
}

/// The mathematical content of a `SyncMessage`.
pub enum MessageView {
    FileChange { path: Seq<char>, change_type: Seq<char> },
    FileContent { path: Seq<char>, content: Seq<u8> },
    SyncRequest,
    SyncResponse,
}

impl View for SyncMessage {
    type V = MessageView;

    open spec fn view(&self) -> MessageView {
        match self {
            SyncMessage::FileChange { path, change_type } => MessageView::FileChange {
                path: path@,
                change_type: change_type@,
            },
            SyncMessage::FileContent { path, content } => MessageView::FileContent {
                path: path@,
                content: content@,
            },
            SyncMessage::SyncRequest => MessageView::SyncRequest,
            SyncMessage::SyncResponse => MessageView::SyncResponse,
        }
    }
}

/// Whether every variable-width field fits its 4-byte length prefix.
pub open spec fn msg_wf(m: MessageView) -> bool {
    match m {
        MessageView::FileChange { path, change_type } => encode_utf8(path).len()
            < block_len_limit() && encode_utf8(change_type).len() < block_len_limit(),
        MessageView::FileContent { path, content } => encode_utf8(path).len() < block_len_limit()
            && content.len() < block_len_limit(),
        MessageView::SyncRequest => true,
        MessageView::SyncResponse => true,
    }
}

/// The byte encoding of a message body.
pub open spec fn spec_encode_message(m: MessageView) -> Seq<u8> {
    match m {
        MessageView::FileChange { path, change_type } => seq![1u8] + spec_len_prefixed(
            encode_utf8(path),
        ) + spec_len_prefixed(encode_utf8(change_type)),
        MessageView::FileContent { path, content } => seq![2u8] + spec_len_prefixed(
            encode_utf8(path),
        ) + spec_len_prefixed(content),
        MessageView::SyncRequest => seq![3u8],
        MessageView::SyncResponse => seq![4u8],
    }
}

/// The message a byte body decodes to, or `None` where the body is
/// malformed: empty, an unknown tag, a field that overruns the body,
/// trailing bytes, or text that is not valid UTF-8.
pub open spec fn spec_decode_message(b: Seq<u8>) -> Option<MessageView> {
    if b.len() == 0 {
        None
    } else {
        let rest = b.subrange(1, b.len() as int);
        if b[0] == 1 {
            match spec_take_block(rest) {
                Some((pb, r1)) => match spec_take_block(r1) {
                    Some((cb, r2)) => if r2.len() == 0 && valid_utf8(pb) && valid_utf8(cb) {
                        Some(
                            MessageView::FileChange {
                                path: decode_utf8(pb),
                                change_type: decode_utf8(cb),
                            },
                        )
                    } else {
                        None
                    },
                    None => None,
                },
                None => None,
            }
        } else if b[0] == 2 {
            match spec_take_block(rest) {
                Some((pb, r1)) => match spec_take_block(r1) {
                    Some((cb, r2)) => if r2.len() == 0 && valid_utf8(pb) {
                        Some(MessageView::FileContent { path: decode_utf8(pb), content: cb })
                    } else {
                        None
                    },
                    None => None,
                },
                None => None,
            }
        } else if b[0] == 3 {
            if b.len() == 1 {
                Some(MessageView::SyncRequest)
            } else {
                None
            }
        } else if b[0] == 4 {
            if b.len() == 1 {
                Some(MessageView::SyncResponse)
            } else {
                None
            }
        } else {
            None
        }
    }
}

/// Decoding inverts encoding: every well-formed message comes back
/// equal in all fields, for all four variants, zero-length content and
/// empty paths included.
pub proof fn lemma_message_round_trip(m: MessageView)
    requires
        msg_wf(m),
    ensures
        spec_decode_message(spec_encode_message(m)) == Some(m),
{
    let b = spec_encode_message(m);
    match m {
        MessageView::FileChange { path, change_type } => {
            let ep = encode_utf8(path);
            let ec = encode_utf8(change_type);
            let rest = b.subrange(1, b.len() as int);
            assert(rest =~= spec_len_prefixed(ep) + spec_len_prefixed(ec));
            lemma_take_block_of_prefixed(ep, spec_len_prefixed(ec));
            lemma_take_block_of_prefixed(ec, Seq::empty());
            assert(spec_len_prefixed(ec) + Seq::<u8>::empty() =~= spec_len_prefixed(ec));
            encode_utf8_valid_utf8(path);
            encode_utf8_valid_utf8(change_type);
            encode_utf8_decode_utf8(path);
            encode_utf8_decode_utf8(change_type);
        },
        MessageView::FileContent { path, content } => {
            let ep = encode_utf8(path);
            let rest = b.subrange(1, b.len() as int);
            assert(rest =~= spec_len_prefixed(ep) + spec_len_prefixed(content));
            lemma_take_block_of_prefixed(ep, spec_len_prefixed(content));
            lemma_take_block_of_prefixed(content, Seq::empty());
            assert(spec_len_prefixed(content) + Seq::<u8>::empty() =~= spec_len_prefixed(content));
            encode_utf8_valid_utf8(path);
            encode_utf8_decode_utf8(path);
        },
        MessageView::SyncRequest => {
        },
        MessageView::SyncResponse => {
        },
    }
}

/// Appends a length-prefixed block to `out`.
fn push_block(out: &mut Vec<u8>, mut block: Vec<u8>)
    requires
        block@.len() < block_len_limit(),
    ensures
        final(out)@ == old(out)@ + spec_len_prefixed(block@),
{
    let mut header = vstd::bytes::u32_to_le_bytes(block.len() as u32);
    out.append(&mut header);
    out.append(&mut block);
}

/// Serializes a message to its byte body.  Fails only where a field is
/// too large for its 4-byte length prefix.
pub fn encode_message(m: &SyncMessage) -> (r: Result<Vec<u8>, SyncError>)
    ensures
        msg_wf(m@) ==> (r matches Ok(b) && b@ == spec_encode_message(m@)),
        !msg_wf(m@) ==> (r matches Err(e) && e is ProtocolFailure),
{
    match m {
        SyncMessage::FileChange { path, change_type } => {
            let pb = path.as_str().as_bytes_vec();
            let cb = change_type.as_str().as_bytes_vec();
            if (pb.len() as u64) >= 0x1_0000_0000u64 || (cb.len() as u64) >= 0x1_0000_0000u64 {
                return Err(SyncError::ProtocolFailure);
            }
            let mut out: Vec<u8> = Vec::new();
            out.push(1u8);
            proof {
                assert(out@ =~= seq![1u8]);
            }
            push_block(&mut out, pb);
            push_block(&mut out, cb);
            Ok(out)
        },
        SyncMessage::FileContent { path, content } => {
            let pb = path.as_str().as_bytes_vec();
            if (pb.len() as u64) >= 0x1_0000_0000u64 || (content.len() as u64)
                >= 0x1_0000_0000u64 {
                return Err(SyncError::ProtocolFailure);
            }
            let mut out: Vec<u8> = Vec::new();
            out.push(2u8);
            proof {
                assert(out@ =~= seq![2u8]);
            }
            push_block(&mut out, pb);
            push_block(&mut out, slice_to_vec(content.as_slice()));
            Ok(out)
        },
        SyncMessage::SyncRequest => {
            let mut out: Vec<u8> = Vec::new();
            out.push(3u8);
            proof {
                assert(out@ =~= seq![3u8]);
            }
            Ok(out)
        },
        SyncMessage::SyncResponse => {
            let mut out: Vec<u8> = Vec::new();
            out.push(4u8);
            proof {
                assert(out@ =~= seq![4u8]);
            }
            Ok(out)
        },
    }
}

/// Reads the length-prefixed block starting at `offset` and returns it
/// with the offset just past it.
fn read_block(bytes: &[u8], offset: usize) -> (r: Option<(Vec<u8>, usize)>)
    requires
        offset <= bytes@.len(),
    ensures
        match r {
            Some(p) => {
                &&& spec_take_block(bytes@.skip(offset as int)) == Some(
                    (p.0@, bytes@.skip(p.1 as int)),
                )
                &&& offset <= p.1 <= bytes@.len()
            },
            None => spec_take_block(bytes@.skip(offset as int)) is None,
        },
{
    if bytes.len() - offset < 4 {
        return None;
    }
    let header = slice_subrange(bytes, offset, offset + 4);
    let n = vstd::bytes::u32_from_le_bytes(header) as usize;
    proof {
        assert(bytes@.skip(offset as int).subrange(0, 4) =~= header@);
    }
    if n > bytes.len() - offset - 4 {
        return None;
    }
    let block = slice_to_vec(slice_subrange(bytes, offset + 4, offset + 4 + n));
    let next = offset + 4 + n;
    proof {
        assert(bytes@.skip(offset as int).subrange(4, 4 + n as int) =~= block@);
        assert(bytes@.skip(offset as int).subrange(
            4 + n as int,
            bytes@.skip(offset as int).len() as int,
        ) =~= bytes@.skip(next as int));
    }
    Some((block, next))
}

/// Decodes one message body.  Returns the decoded message exactly when
/// the body is well formed, and a protocol failure otherwise; the
/// caller drops the body and keeps the connection.
pub fn decode_message(bytes: &[u8]) -> (r: Result<SyncMessage, SyncError>)
    ensures
        match r {
            Ok(m) => spec_decode_message(bytes@) == Some(m@),
            Err(e) => {
                &&& spec_decode_message(bytes@) is None
                &&& e is ProtocolFailure
            },
        },
{
    if bytes.len() == 0 {
        return Err(SyncError::ProtocolFailure);
    }
    let tag = *slice_index_get(bytes, 0);
    proof {
        assert(bytes@.subrange(1, bytes@.len() as int) =~= bytes@.skip(1));
    }
    if tag == 1 {
        match read_block(bytes, 1) {
            Some((pb, o1)) => match read_block(bytes, o1) {
                Some((cb, o2)) => {
                    if o2 != bytes.len() {
                        return Err(SyncError::ProtocolFailure);
                    }
                    proof {
                        assert(bytes@.skip(o2 as int) =~= Seq::<u8>::empty());
                    }
                    let ghost pbv = pb@;
                    let ghost cbv = cb@;
                    match string_from_utf8(pb) {
                        Some(path) => match string_from_utf8(cb) {
                            Some(change_type) => {
                                proof {
                                    encode_utf8_decode_utf8(path@);
                                    encode_utf8_decode_utf8(change_type@);
                                }
                                Ok(SyncMessage::FileChange { path, change_type })
                            },
                            None => Err(SyncError::ProtocolFailure),
                        },
                        None => Err(SyncError::ProtocolFailure),
                    }
                },
                None => Err(SyncError::ProtocolFailure),
            },
            None => Err(SyncError::ProtocolFailure),
        }
    } else if tag == 2 {
        match read_block(bytes, 1) {
            Some((pb, o1)) => match read_block(bytes, o1) {
                Some((cb, o2)) => {
                    if o2 != bytes.len() {
                        return Err(SyncError::ProtocolFailure);
                    }
                    proof {
                        assert(bytes@.skip(o2 as int) =~= Seq::<u8>::empty());
                    }
                    match string_from_utf8(pb) {
                        Some(path) => {
                            proof {
                                encode_utf8_decode_utf8(path@);
                            }
                            Ok(SyncMessage::FileContent { path, content: cb })
                        },
                        None => Err(SyncError::ProtocolFailure),
                    }
                },
                None => Err(SyncError::ProtocolFailure),
            },
            None => Err(SyncError::ProtocolFailure),
        }
    } else if tag == 3 {
        if bytes.len() == 1 {
            Ok(SyncMessage::SyncRequest)
        } else {
            Err(SyncError::ProtocolFailure)
        }
    } else if tag == 4 {
        if bytes.len() == 1 {
            Ok(SyncMessage::SyncResponse)
        } else {
            Err(SyncError::ProtocolFailure)
        }
    } else {
        Err(SyncError::ProtocolFailure)
    }
}

} // verus!
