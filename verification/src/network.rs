//! Transport endpoints, as the verified core sees them.
//!
//! The listener and the connector themselves are byte-stream I/O and
//! live in the application; the core holds their configuration and
//! builds the exact frames they carry.  An outbound send opens one
//! connection, writes one frame, and closes.

use vstd::prelude::*;

verus! {

use crate::errors::SyncError;
use crate::framing::{frame_message, spec_len_prefixed, MAX_FRAME_LEN};
use crate::protocol::{encode_message, msg_wf, spec_encode_message, MessageView, SyncMessage};

/// The inbound endpoint: accepts connections on one port.
pub struct SyncServer {
    port: u16,
}

impl SyncServer {
    /// The configured port.
    pub closed spec fn port_view(&self) -> u16 {
        self.port
    }

    /// A listener configuration for the given port.
    pub fn new(port: u16) -> (r: SyncServer)
        ensures
            r.port_view() == port,
    {
        SyncServer { port }
    }

    /// The port to bind, for the application's listener.
    pub fn port(&self) -> (r: u16)
        ensures
            r == self.port_view(),
    {
        self.port
    }
}

/// The outbound endpoint: dials one peer address per send.
pub struct SyncClient {
    server_address: String,
}

/// Whether a message both encodes and fits in one frame under the
/// frame cap.
pub open spec fn frameable(m: MessageView) -> bool {
    msg_wf(m) && spec_encode_message(m).len() <= MAX_FRAME_LEN
}

impl SyncClient {
    /// The peer this client dials.
    pub closed spec fn address_view(&self) -> Seq<char> {
        self.server_address@
    }

    /// A connector for the given peer address.
    pub fn new(server_address: String) -> (r: SyncClient)
        ensures
            r.address_view() == server_address@,
    {
        SyncClient { server_address }
    }

    /// The address to dial, for the application's connector.
    pub fn server_address(&self) -> (r: &str)
        ensures
            r@ == self.address_view(),
    {
        self.server_address.as_str()
    }

    /// The frame announcing one file change to this peer.  Fails only
    /// where a field is too large for its length prefix.
    pub fn file_change_frame(&self, path: &str, change_type: &str) -> (r: Result<
        Vec<u8>,
        SyncError,
    >)
        ensures
            frameable(MessageView::FileChange { path: path@, change_type: change_type@ }) ==> (
            r matches Ok(f) && f@ == spec_len_prefixed(
                spec_encode_message(
                    MessageView::FileChange { path: path@, change_type: change_type@ },
                ),
            )),
            !frameable(MessageView::FileChange { path: path@, change_type: change_type@ }) ==> (
            r matches Err(e) && e is ProtocolFailure),
    {
        let msg = SyncMessage::FileChange {
            path: path.to_owned(),
            change_type: change_type.to_owned(),
        };
        match encode_message(&msg) {
            Ok(body) => frame_message(&body),
            Err(e) => Err(e),
        }
    }

    /// The frame that opens a full-state reconciliation exchange.
    pub fn sync_request_frame(&self) -> (r: Vec<u8>)
        ensures
            r@ == spec_len_prefixed(spec_encode_message(MessageView::SyncRequest)),
    {
        let body = match encode_message(&SyncMessage::SyncRequest) {
            Ok(b) => b,
            Err(_) => {
                proof {
                    assert(false);
                }
                Vec::new()
            },
        };
        match frame_message(&body) {
            Ok(f) => f,
            Err(_) => {
                proof {
                    assert(false);
                }
                Vec::new()
            },
        }
    }
}

} // verus!
