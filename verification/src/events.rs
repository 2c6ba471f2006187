//! Events of the application and of LocalSend transfers.
use vstd::prelude::*;

use crate::localsend::protocol::{FileDto, FileModel, Peer, PeerModel};

verus! {

/// An incoming file transfer request from a remote peer.
#[derive(Debug, Clone)]
pub struct IncomingTransferRequest {
    /// The sending device.
    pub peer: Peer,
    /// The files offered in the transfer request.
    pub files: Vec<FileDto>,
}

/// What an [`IncomingTransferRequest`] says.
#[verifier::ext_equal]
pub struct RequestModel {
    pub peer: PeerModel,
    pub files: Seq<FileModel>,
}

impl DeepView for IncomingTransferRequest {
    type V = RequestModel;

    open spec fn deep_view(&self) -> RequestModel {
        RequestModel { peer: self.peer.deep_view(), files: self.files.deep_view() }
    }
}

/// System and LocalSend events received by the main loop.
#[derive(Debug, Clone)]
pub enum AppEvent {
    /// A LocalSend peer device was discovered on the network.
    PeerDiscovered(Peer),
    /// A remote peer requested to send files.
    IncomingTransfer(IncomingTransferRequest),
    /// Progress of an ongoing file upload or download session.
    TransferProgress {
        session_id: String,
        file_id: String,
        bytes_transferred: u64,
        total_bytes: u64,
        is_upload: bool,
    },
    /// A file transfer session completed successfully.
    TransferCompleted { session_id: String, message: String },
    /// A file transfer session encountered an error or was cancelled.
    TransferFailed { session_id: String, error: String },
    /// A received file has been completely written to its final path.
    FileReceived { path: String },
    /// Transient status message.
    StatusMessage(String),
}

/// What an [`AppEvent`] says.
#[verifier::ext_equal]
pub enum EventModel {
    PeerDiscovered(PeerModel),
    IncomingTransfer(RequestModel),
    TransferProgress {
        session_id: Seq<char>,
        file_id: Seq<char>,
        bytes_transferred: u64,
        total_bytes: u64,
        is_upload: bool,
    },
    TransferCompleted { session_id: Seq<char>, message: Seq<char> },
    TransferFailed { session_id: Seq<char>, error: Seq<char> },
    FileReceived { path: Seq<char> },
    StatusMessage(Seq<char>),
}

impl DeepView for AppEvent {
    type V = EventModel;

    open spec fn deep_view(&self) -> EventModel {
        match *self {
            AppEvent::PeerDiscovered(peer) => EventModel::PeerDiscovered(peer.deep_view()),
            AppEvent::IncomingTransfer(request) => EventModel::IncomingTransfer(
                request.deep_view(),
            ),
            AppEvent::TransferProgress {
                session_id,
                file_id,
                bytes_transferred,
                total_bytes,
                is_upload,
            } => EventModel::TransferProgress {
                session_id: session_id@,
                file_id: file_id@,
                bytes_transferred,
                total_bytes,
                is_upload,
            },
            AppEvent::TransferCompleted { session_id, message } => EventModel::TransferCompleted {
                session_id: session_id@,
                message: message@,
            },
            AppEvent::TransferFailed { session_id, error } => EventModel::TransferFailed {
                session_id: session_id@,
                error: error@,
            },
            AppEvent::FileReceived { path } => EventModel::FileReceived { path: path@ },
            AppEvent::StatusMessage(message) => EventModel::StatusMessage(message@),
        }
    }
}

/// A failure of the session `session_id`.
pub fn failed(session_id: &str, error: String) -> (r: AppEvent)
    ensures
        r.deep_view() == (EventModel::TransferFailed { session_id: session_id@, error: error@ }),
{
    AppEvent::TransferFailed { session_id: session_id.to_owned(), error }
}

/// The completion of the session `session_id`.
pub fn completed(session_id: &str, message: String) -> (r: AppEvent)
    ensures
        r.deep_view() == (EventModel::TransferCompleted {
            session_id: session_id@,
            message: message@,
        }),
{
    AppEvent::TransferCompleted { session_id: session_id.to_owned(), message }
}

/// A list of the one event `event`.
pub fn just(event: AppEvent) -> (r: Vec<AppEvent>)
    ensures
        r.deep_view() == seq![event.deep_view()],
{
    let mut events: Vec<AppEvent> = Vec::new();
    events.push(event);
    assert(events.deep_view() =~= seq![event.deep_view()]);
    events
}

/// A list of no events.
pub fn nothing() -> (r: Vec<AppEvent>)
    ensures
        r.deep_view() == Seq::<EventModel>::empty(),
{
    let events: Vec<AppEvent> = Vec::new();
    assert(events.deep_view() =~= Seq::<EventModel>::empty());
    events
}

/// What is known of an event is what it says.
pub proof fn law_events_are_known_as_they_say(event: AppEvent)
    ensures
        match event {
            AppEvent::PeerDiscovered(peer) => event.deep_view() == EventModel::PeerDiscovered(
                peer.deep_view(),
            ),
            AppEvent::IncomingTransfer(request) => event.deep_view()
                == EventModel::IncomingTransfer(
                (RequestModel { peer: request.peer.deep_view(), files: request.files.deep_view() }),
            ),
            AppEvent::TransferProgress {
                session_id,
                file_id,
                bytes_transferred,
                total_bytes,
                is_upload,
            } => event.deep_view() == (EventModel::TransferProgress {
                session_id: session_id@,
                file_id: file_id@,
                bytes_transferred,
                total_bytes,
                is_upload,
            }),
            AppEvent::TransferCompleted { session_id, message } => event.deep_view()
                == (EventModel::TransferCompleted { session_id: session_id@, message: message@ }),
            AppEvent::TransferFailed { session_id, error } => event.deep_view()
                == (EventModel::TransferFailed { session_id: session_id@, error: error@ }),
            AppEvent::FileReceived { path } => event.deep_view() == (EventModel::FileReceived {
                path: path@,
            }),
            AppEvent::StatusMessage(message) => event.deep_view() == EventModel::StatusMessage(
                message@,
            ),
        },
{
}

/// Failures and completions are of the session that they are made for, with what
/// they are given to say; one event is a list of one, and no event an empty one.
pub proof fn law_events_are_made_as_given(
    session_id: &str,
    text: String,
    event: AppEvent,
    failure: AppEvent,
    completion: AppEvent,
    one: Vec<AppEvent>,
    none: Vec<AppEvent>,
)
    requires
        call_ensures(failed, (session_id, text), failure),
        call_ensures(completed, (session_id, text), completion),
        call_ensures(just, (event,), one),
        call_ensures(nothing, (), none),
    ensures
        failure matches AppEvent::TransferFailed { session_id: id, error } && id@ == session_id@
            && error@ == text@,
        completion matches AppEvent::TransferCompleted { session_id: id, message } && id@
            == session_id@ && message@ == text@,
        one@.len() == 1,
        one@[0].deep_view() == event.deep_view(),
        none@.len() == 0,
{
    assert(one.deep_view().len() == one@.len());
    assert(one.deep_view()[0] == one@[0].deep_view());
    assert(none.deep_view().len() == none@.len());
}

}
