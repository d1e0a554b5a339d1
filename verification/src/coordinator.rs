//! The replication loop's decisions.
//!
//! The coordinator reacts to one changed-path event at a time: it
//! recomputes the path's fingerprint, compares it with the cached one,
//! and, if the content really changed, plans one `FileChange` send per
//! configured device.  The application carries the sends out; one
//! unreachable peer never blocks the others, because every send is
//! planned up front and attempted independently.  On the receiving
//! side it dispatches each decoded message to the action the
//! application must take.

use vstd::prelude::*;

verus! {

use vstd::slice::slice_to_vec;
use crate::errors::SyncError;
use crate::file_manager::{FileInfo, FileInfoView, FileManager};
use crate::framing::{frame_message, spec_len_prefixed};
use crate::hashing::{content_hash, sha256_hex_of};
use crate::network::frameable;
use crate::paths::{check_path, path_safe};
use crate::protocol::{decode_message, encode_message, spec_decode_message, spec_encode_message,
    MessageView, SyncMessage};
use crate::config::Device;
use crate::text::str_eq;

/// One changed-path notification from the watch mechanism, with the
/// path's current state as the application read it: `None` content
/// means the file could not be read back.
pub struct ChangeEvent {
    pub path: String,
    pub change_type: String,
    pub last_modified: u64,
    pub content: Option<Vec<u8>>,
}

/// The mathematical content of a `ChangeEvent`.
pub struct ChangeEventView {
    pub path: Seq<char>,
    pub change_type: Seq<char>,
    pub last_modified: u64,
    pub content: Option<Seq<u8>>,
}

impl View for ChangeEvent {
    type V = ChangeEventView;

    open spec fn view(&self) -> ChangeEventView {
        ChangeEventView {
            path: self.path@,
            change_type: self.change_type@,
            last_modified: self.last_modified,
            content: match self.content {
                Some(c) => Some(c@),
                None => None,
            },
        }
    }
}

/// One planned outbound send: the frame to write and the peer to dial.
pub struct OutboundSend {
    pub device_name: String,
    pub address: String,
    pub frame: Vec<u8>,
}

/// The fingerprint a change event's state computes to.
pub open spec fn event_fingerprint(e: ChangeEventView) -> FileInfoView {
    FileInfoView {
        path: e.path,
        last_modified: e.last_modified,
        size: e.content->0.len() as u64,
        hash: sha256_hex_of(e.content->0),
    }
}

/// Whether the event's content differs from the cached fingerprint:
/// only then is there anything to propagate.
pub open spec fn change_is_news(
    table: Map<Seq<char>, FileInfoView>,
    e: ChangeEventView,
) -> bool {
    !(table.contains_key(e.path) && table[e.path].hash == sha256_hex_of(e.content->0))
}

/// The notification sent for a change event.
pub open spec fn change_message(e: ChangeEventView) -> MessageView {
    MessageView::FileChange { path: e.path, change_type: e.change_type }
}

/// Reacts to one changed-path event: recomputes the fingerprint,
/// updates the table if the content changed, and plans exactly one
/// `FileChange` frame per configured device.  An unsafe path or
/// unreadable content rejects only this event; an unchanged content
/// plans nothing.
pub fn process_change_event(
    manager: &mut FileManager,
    event: &ChangeEvent,
    devices: &Vec<Device>,
) -> (r: Result<Vec<OutboundSend>, SyncError>)
    requires
        old(manager).wf(),
    ensures
        final(manager).wf(),
        final(manager).base_path_view() == old(manager).base_path_view(),
        match r {
            Ok(sends) => {
                &&& path_safe(event@.path)
                &&& event@.content is Some
                &&& if change_is_news(old(manager)@, event@) {
                    &&& final(manager)@ == old(manager)@.insert(
                        event@.path,
                        event_fingerprint(event@),
                    )
                    &&& sends@.len() == devices@.len()
                    &&& forall|i: int|
                        0 <= i < sends@.len() ==> {
                            &&& (#[trigger] sends@[i]).device_name@ == devices@[i].name@
                            &&& sends@[i].address@ == devices@[i].address@
                            &&& sends@[i].frame@ == spec_len_prefixed(
                                spec_encode_message(change_message(event@)),
                            )
                        }
                } else {
                    &&& final(manager)@ == old(manager)@
                    &&& sends@.len() == 0
                }
            },
            Err(e) => {
                &&& final(manager)@ == old(manager)@
                &&& (e is PathSafetyViolation || e is IoFailure || e is ProtocolFailure)
                &&& (e is PathSafetyViolation <==> !path_safe(event@.path))
                &&& (e is IoFailure <==> path_safe(event@.path) && event@.content is None)
                &&& (e is ProtocolFailure <==> path_safe(event@.path) && event@.content is Some
                    && change_is_news(old(manager)@, event@) && !frameable(change_message(event@)))
            },
        },
{
    if !check_path(event.path.as_str()) {
        return Err(SyncError::PathSafetyViolation);
    }
    let content = match &event.content {
        Some(c) => c,
        None => {
            return Err(SyncError::IoFailure);
        },
    };
    let hash = content_hash(content.as_slice());
    let news = match manager.get_file_info(event.path.as_str()) {
        Some(info) => !str_eq(info.hash.as_str(), hash.as_str()),
        None => true,
    };
    if !news {
        return Ok(Vec::new());
    }
    let body = match encode_message(
        &SyncMessage::FileChange {
            path: event.path.clone(),
            change_type: event.change_type.clone(),
        },
    ) {
        Ok(b) => b,
        Err(e) => {
            return Err(e);
        },
    };
    let frame = match frame_message(&body) {
        Ok(f) => f,
        Err(e) => {
            return Err(e);
        },
    };
    let info = FileInfo {
        path: event.path.clone(),
        last_modified: event.last_modified,
        size: content.len() as u64,
        hash,
    };
    manager.update_file_info(event.path.clone(), info);
    let mut sends: Vec<OutboundSend> = Vec::new();
    let n = devices.len();
    let mut k: usize = 0;
    while k < n
        invariant
            k <= n,
            n == devices.len(),
            sends@.len() == k,
            frame@ == spec_len_prefixed(spec_encode_message(change_message(event@))),
            forall|i: int|
                0 <= i < k ==> {
                    &&& (#[trigger] sends@[i]).device_name@ == devices@[i].name@
                    &&& sends@[i].address@ == devices@[i].address@
                    &&& sends@[i].frame@ == frame@
                },
        decreases n - k,
    {
        sends.push(
            OutboundSend {
                device_name: devices[k].name.clone(),
                address: devices[k].address.clone(),
                frame: slice_to_vec(frame.as_slice()),
            },
        );
        k = k + 1;
    }
    Ok(sends)
}

/// What the application must do with one inbound message.
pub enum InboundAction {
    /// Write `content` to `path` under the sync root, creating parent
    /// directories as needed, then record the written fingerprint.
    WriteFile { path: String, content: Vec<u8> },
    /// A peer announced a change; the content follows in a later
    /// exchange.
    NoteChange { path: String, change_type: String },
    /// A peer asked for the fingerprint table.
    StateRequested,
    /// A peer answered a reconciliation request.
    StateReceived,
}

/// The mathematical content of an `InboundAction`.
pub enum InboundActionView {
    WriteFile { path: Seq<char>, content: Seq<u8> },
    NoteChange { path: Seq<char>, change_type: Seq<char> },
    StateRequested,
    StateReceived,
}

impl View for InboundAction {
    type V = InboundActionView;

    open spec fn view(&self) -> InboundActionView {
        match self {
            InboundAction::WriteFile { path, content } => InboundActionView::WriteFile {
                path: path@,
                content: content@,
            },
            InboundAction::NoteChange { path, change_type } => InboundActionView::NoteChange {
                path: path@,
                change_type: change_type@,
            },
            InboundAction::StateRequested => InboundActionView::StateRequested,
            InboundAction::StateReceived => InboundActionView::StateReceived,
        }
    }
}

/// The action one decoded message dispatches to, or the violation that
/// rejects it.  A write or a change note with an unsafe path is
/// rejected and never coerced into another path.
pub open spec fn spec_dispatch(m: MessageView) -> Result<InboundActionView, SyncError> {
    match m {
        MessageView::FileChange { path, change_type } => if path_safe(path) {
            Ok(InboundActionView::NoteChange { path, change_type })
        } else {
            Err(SyncError::PathSafetyViolation)
        },
        MessageView::FileContent { path, content } => if path_safe(path) {
            Ok(InboundActionView::WriteFile { path, content })
        } else {
            Err(SyncError::PathSafetyViolation)
        },
        MessageView::SyncRequest => Ok(InboundActionView::StateRequested),
        MessageView::SyncResponse => Ok(InboundActionView::StateReceived),
    }
}

/// Dispatches one decoded message to the action the application must
/// take.
pub fn apply_message(msg: SyncMessage) -> (r: Result<InboundAction, SyncError>)
    ensures
        match spec_dispatch(msg@) {
            Ok(a) => r matches Ok(got) && got@ == a,
            Err(e) => r matches Err(got) && got is PathSafetyViolation,
        },
{
    match msg {
        SyncMessage::FileChange { path, change_type } => {
            if check_path(path.as_str()) {
                Ok(InboundAction::NoteChange { path, change_type })
            } else {
                Err(SyncError::PathSafetyViolation)
            }
        },
        SyncMessage::FileContent { path, content } => {
            if check_path(path.as_str()) {
                Ok(InboundAction::WriteFile { path, content })
            } else {
                Err(SyncError::PathSafetyViolation)
            }
        },
        SyncMessage::SyncRequest => Ok(InboundAction::StateRequested),
        SyncMessage::SyncResponse => Ok(InboundAction::StateReceived),
    }
}

/// Handles one frame body read off a connection: decodes it and
/// dispatches it.  A malformed body is reported as a protocol failure
/// and the connection may go on.
pub fn handle_frame(body: &[u8]) -> (r: Result<InboundAction, SyncError>)
    ensures
        match spec_decode_message(body@) {
            Some(m) => match spec_dispatch(m) {
                Ok(a) => r matches Ok(got) && got@ == a,
                Err(e) => r matches Err(got) && got is PathSafetyViolation,
            },
            None => r matches Err(e) && e is ProtocolFailure,
        },
{
    match decode_message(body) {
        Ok(m) => apply_message(m),
        Err(e) => Err(e),
    }
}

/// Records the fingerprint of content just written under the sync
/// root, after the application carried a `WriteFile` action out.
pub fn record_written(
    manager: &mut FileManager,
    path: String,
    last_modified: u64,
    content: &[u8],
)
    requires
        old(manager).wf(),
    ensures
        final(manager).wf(),
        final(manager).base_path_view() == old(manager).base_path_view(),
        final(manager)@ == old(manager)@.insert(
            path@,
            FileInfoView {
                path: path@,
                last_modified: last_modified,
                size: content@.len() as u64,
                hash: sha256_hex_of(content@),
            },
        ),
{
    let info = FileInfo {
        path: path.clone(),
        last_modified,
        size: content.len() as u64,
        hash: content_hash(content),
    };
    manager.update_file_info(path, info);
}

} // verus!
