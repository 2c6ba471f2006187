//! Uploads: the contents of the files that a session waits for.
use vstd::prelude::*;
use vstd::string::*;

use crate::events::{completed, failed, just, nothing, AppEvent, EventModel};
use crate::localsend::prepare::{
    law_distinct_files_are_all_kept, law_each_file_has_a_token, session_for,
};
use crate::localsend::protocol::FileModel;
use crate::localsend::server::{is_cancelled, ActiveSession, ServerState, SessionModel, Status};
use crate::table::Table;
use crate::text::{decimal, decimal_text, join2, same};

verus! {

/// How many seconds to wait for a chunk of an upload.
pub const CHUNK_WAIT_SECONDS: u64 = 5;

/// The session, the file and the token that an upload gives.
#[derive(Debug)]
pub struct UploadQuery {
    pub session_id: String,
    pub file_id: String,
    pub token: String,
}

/// An upload in progress. No more than the declared size is ever counted as
/// received.
#[derive(Debug)]
pub struct Upload {
    session_id: String,
    file_id: String,
    file_name: String,
    total_size: u64,
    bytes_transferred: u64,
}

/// What an [`Upload`] stands at.
#[verifier::ext_equal]
pub struct UploadModel {
    pub session_id: Seq<char>,
    pub file_id: Seq<char>,
    pub file_name: Seq<char>,
    pub total_size: u64,
    pub bytes_transferred: u64,
}

impl DeepView for Upload {
    type V = UploadModel;

    closed spec fn deep_view(&self) -> UploadModel {
        UploadModel {
            session_id: self.session_id@,
            file_id: self.file_id@,
            file_name: self.file_name@,
            total_size: self.total_size,
            bytes_transferred: self.bytes_transferred,
        }
    }
}

/// An upload whose contents have all come, and have yet to reach the disk.
#[derive(Debug)]
pub struct ReceivedUpload {
    upload: Upload,
}

impl DeepView for ReceivedUpload {
    type V = UploadModel;

    closed spec fn deep_view(&self) -> UploadModel {
        self.upload.deep_view()
    }
}

impl Upload {
    #[verifier::type_invariant]
    spec fn counted_within_size(&self) -> bool {
        self.bytes_transferred <= self.total_size
    }
}

impl ReceivedUpload {
    #[verifier::type_invariant]
    spec fn all_received(&self) -> bool {
        self.upload.bytes_transferred == self.upload.total_size
    }
}

/// The sessions by their identifiers.
pub type SessionsModel = Map<Seq<char>, SessionModel>;

/// How an upload that gives `session_id`, `file_id` and `token` begins: it is
/// refused where the session is unknown, where the token is not the one for
/// the file, and where the session no longer waits for the file.
pub open spec fn beginning(
    sessions: SessionsModel,
    session_id: Seq<char>,
    file_id: Seq<char>,
    token: Seq<char>,
) -> Result<UploadModel, Status> {
    if !sessions.contains_key(session_id) {
        Err(Status::NotFound)
    } else {
        let session = sessions[session_id];
        if !session.tokens.contains_key(file_id) || session.tokens[file_id] != token {
            Err(Status::Forbidden)
        } else if !session.files.contains_key(file_id) {
            Err(Status::NotFound)
        } else {
            Ok(
                UploadModel {
                    session_id,
                    file_id,
                    file_name: session.files[file_id].0,
                    total_size: session.files[file_id].1,
                    bytes_transferred: 0,
                },
            )
        }
    }
}

/// Begins the upload that `query` is for.
pub fn handle_upload(sessions: &Table<ActiveSession>, query: &UploadQuery) -> (r: Result<
    Upload,
    Status,
>)
    ensures
        match beginning(
            sessions.deep_view(),
            query.session_id@,
            query.file_id@,
            query.token@,
        ) {
            Ok(upload) => r is Ok && r->Ok_0.deep_view() == upload,
            Err(status) => r == Err::<Upload, Status>(status),
        },
{
    match sessions.get(query.session_id.as_str()) {
        Some(session) => {
            let known: bool = match session.tokens.get(query.file_id.as_str()) {
                Some(token) => same(token.as_str(), query.token.as_str()),
                None => false,
            };
            if !known {
                return Err(Status::Forbidden);
            }
            match session.files.get(query.file_id.as_str()) {
                Some(file) => Ok(
                    Upload {
                        session_id: query.session_id.clone(),
                        file_id: query.file_id.clone(),
                        file_name: file.0.clone(),
                        total_size: file.1,
                        bytes_transferred: 0,
                    },
                ),
                None => Err(Status::NotFound),
            }
        },
        None => Err(Status::NotFound),
    }
}

// ---------------------------------------------------------------------------
// Receiving
// ---------------------------------------------------------------------------

/// What happened to an upload outside.
#[derive(Debug, Clone, Copy, PartialEq, Eq, Structural)]
pub enum UploadEvent {
    /// The file to write to was created.
    Created,
    /// The file to write to could not be created.
    NotCreated,
    /// A chunk of this many bytes came and was written.
    Chunk(u64),
    /// A chunk came and could not be written.
    NotWritten,
    /// The contents ended.
    Ended,
    /// No chunk came in time.
    TimedOut,
    /// The contents broke off.
    Broken,
}

/// How an upload ends: the answer, whether what was written is to be removed,
/// and the events by which the end is made known.
#[derive(Debug)]
pub struct UploadEnd {
    pub status: Status,
    pub remove_file: bool,
    pub events: Vec<AppEvent>,
}

/// What an [`UploadEnd`] says.
#[verifier::ext_equal]
pub struct EndModel {
    pub status: Status,
    pub remove_file: bool,
    pub events: Seq<EventModel>,
}

impl DeepView for UploadEnd {
    type V = EndModel;

    open spec fn deep_view(&self) -> EndModel {
        EndModel {
            status: self.status,
            remove_file: self.remove_file,
            events: self.events.deep_view(),
        }
    }
}

/// What is to be done next for an upload.
#[derive(Debug)]
pub enum UploadStep {
    /// Report `events`, and wait for the next chunk.
    Receive { upload: Upload, events: Vec<AppEvent> },
    /// Bring what was written to the disk.
    Flush(ReceivedUpload),
    /// Answer.
    Finish(UploadEnd),
}

/// What an [`UploadStep`] says.
#[verifier::ext_equal]
pub enum StepModel {
    Receive { upload: UploadModel, events: Seq<EventModel> },
    Flush(UploadModel),
    Finish(EndModel),
}

impl DeepView for UploadStep {
    type V = StepModel;

    open spec fn deep_view(&self) -> StepModel {
        match *self {
            UploadStep::Receive { upload, events } => StepModel::Receive {
                upload: upload.deep_view(),
                events: events.deep_view(),
            },
            UploadStep::Flush(received) => StepModel::Flush(received.deep_view()),
            UploadStep::Finish(end) => StepModel::Finish(end.deep_view()),
        }
    }
}

impl UploadModel {
    /// The failure of this upload for the reason `error`.
    pub open spec fn failure(self, error: Seq<char>) -> Seq<EventModel> {
        seq![EventModel::TransferFailed { session_id: self.session_id, error }]
    }

    /// This upload after a chunk of `n` bytes that is within its size.
    pub open spec fn with_chunk(self, n: u64) -> UploadModel {
        UploadModel { bytes_transferred: (self.bytes_transferred + n) as u64, ..self }
    }

    /// The progress of this upload.
    pub open spec fn progress(self) -> EventModel {
        EventModel::TransferProgress {
            session_id: self.session_id,
            file_id: self.file_id,
            bytes_transferred: self.bytes_transferred,
            total_bytes: self.total_size,
            is_upload: false,
        }
    }

    /// Whether `n` more bytes would be more than this upload was to be.
    pub open spec fn overrun_by(self, n: u64) -> bool {
        self.bytes_transferred + n > self.total_size
    }

    /// The end of this upload with what was written removed, for the reason
    /// `error`.
    pub open spec fn dropped(self, status: Status, error: Seq<char>) -> StepModel {
        StepModel::Finish(EndModel { status, remove_file: true, events: self.failure(error) })
    }

    /// Going on with this upload, after reporting `events`. It ends, and what
    /// was written is removed, where its session is no longer there.
    pub open spec fn going_on(self, sessions: SessionsModel, events: Seq<EventModel>) -> StepModel {
        if sessions.contains_key(self.session_id) {
            StepModel::Receive { upload: self, events }
        } else {
            StepModel::Finish(EndModel { status: Status::BadRequest, remove_file: true, events })
        }
    }
}

/// What is done for the upload `upload` when `event` happens. The chunks that
/// came are counted. The upload fails where they are more than was declared,
/// and where they end before that.
pub open spec fn upload_step(
    sessions: SessionsModel,
    upload: UploadModel,
    event: UploadEvent,
) -> StepModel {
    match event {
        UploadEvent::Created => upload.going_on(sessions, Seq::empty()),
        UploadEvent::NotCreated => StepModel::Finish(
            EndModel {
                status: Status::InternalServerError,
                remove_file: false,
                events: upload.failure("Failed creating file "@ + upload.file_name),
            },
        ),
        UploadEvent::Chunk(n) => if upload.overrun_by(n) {
            upload.dropped(
                Status::BadRequest,
                "Received more data than declared for "@ + upload.file_name,
            )
        } else {
            let upload = upload.with_chunk(n);
            upload.going_on(sessions, seq![upload.progress()])
        },
        UploadEvent::NotWritten => StepModel::Finish(
            EndModel {
                status: Status::InternalServerError,
                remove_file: false,
                events: upload.failure("Failed writing file "@ + upload.file_name),
            },
        ),
        UploadEvent::Ended => if upload.bytes_transferred < upload.total_size {
            upload.dropped(
                Status::BadRequest,
                "Transfer cancelled by sender (received "@ + decimal(
                    upload.bytes_transferred as nat,
                ) + "/"@ + decimal(upload.total_size as nat) + " bytes)"@,
            )
        } else {
            StepModel::Flush(upload)
        },
        UploadEvent::TimedOut => upload.dropped(
            Status::BadRequest,
            "Upload stream timed out or cancelled for "@ + upload.file_name,
        ),
        UploadEvent::Broken => upload.dropped(
            Status::BadRequest,
            "Upload stream interrupted or cancelled for "@ + upload.file_name,
        ),
    }
}

/// The sessions after `event` happened to the upload `upload`: where its
/// contents did not come as declared, its session is ended.
pub open spec fn sessions_after(
    sessions: SessionsModel,
    upload: UploadModel,
    event: UploadEvent,
) -> SessionsModel {
    let ends = match event {
        UploadEvent::Chunk(n) => upload.overrun_by(n),
        UploadEvent::Ended => upload.bytes_transferred < upload.total_size,
        UploadEvent::TimedOut => true,
        UploadEvent::Broken => true,
        _ => false,
    };
    if ends {
        sessions.remove(upload.session_id)
    } else {
        sessions
    }
}

impl Upload {
    fn failed(&self, error: String) -> (r: Vec<AppEvent>)
        ensures
            r.deep_view() == self.deep_view().failure(error@),
    {
        just(failed(self.session_id.as_str(), error))
    }

    fn dropped(&self, status: Status, error: String) -> (r: UploadStep)
        ensures
            r.deep_view() == self.deep_view().dropped(status, error@),
    {
        UploadStep::Finish(UploadEnd { status, remove_file: true, events: self.failed(error) })
    }

    fn go_on(self, sessions: &Table<ActiveSession>, events: Vec<AppEvent>) -> (r: UploadStep)
        ensures
            r.deep_view() == self.deep_view().going_on(sessions.deep_view(), events.deep_view()),
    {
        if sessions.contains_key(self.session_id.as_str()) {
            UploadStep::Receive { upload: self, events }
        } else {
            UploadStep::Finish(UploadEnd { status: Status::BadRequest, remove_file: true, events })
        }
    }

    /// The name under which the contents are to be stored.
    pub fn file_name(&self) -> (r: &String)
        ensures
            r@ == self.deep_view().file_name,
    {
        &self.file_name
    }

    /// Takes note of what happened outside, and says what is to be done next.
    pub fn step(self, sessions: &mut Table<ActiveSession>, event: UploadEvent) -> (r: UploadStep)
        ensures
            r.deep_view() == upload_step(old(sessions).deep_view(), self.deep_view(), event),
            final(sessions).deep_view() == sessions_after(
                old(sessions).deep_view(),
                self.deep_view(),
                event,
            ),
            r matches UploadStep::Flush(received) ==> received.deep_view().bytes_transferred
                == received.deep_view().total_size,
    {
        proof {
            use_type_invariant(&self);
        }
        match event {
            UploadEvent::Created => self.go_on(sessions, nothing()),
            UploadEvent::NotCreated => {
                let error: String = join2("Failed creating file ", self.file_name.as_str());
                UploadStep::Finish(
                    UploadEnd {
                        status: Status::InternalServerError,
                        remove_file: false,
                        events: self.failed(error),
                    },
                )
            },
            UploadEvent::Chunk(n) => {
                if n > self.total_size - self.bytes_transferred {
                    let _ = sessions.remove(self.session_id.as_str());
                    return self.dropped(
                        Status::BadRequest,
                        join2("Received more data than declared for ", self.file_name.as_str()),
                    );
                }
                let upload = Upload {
                    session_id: self.session_id,
                    file_id: self.file_id,
                    file_name: self.file_name,
                    total_size: self.total_size,
                    bytes_transferred: self.bytes_transferred + n,
                };
                let progress = AppEvent::TransferProgress {
                    session_id: upload.session_id.clone(),
                    file_id: upload.file_id.clone(),
                    bytes_transferred: upload.bytes_transferred,
                    total_bytes: upload.total_size,
                    is_upload: false,
                };
                upload.go_on(sessions, just(progress))
            },
            UploadEvent::NotWritten => {
                let error: String = join2("Failed writing file ", self.file_name.as_str());
                UploadStep::Finish(
                    UploadEnd {
                        status: Status::InternalServerError,
                        remove_file: false,
                        events: self.failed(error),
                    },
                )
            },
            UploadEvent::Ended => {
                if self.bytes_transferred < self.total_size {
                    let _ = sessions.remove(self.session_id.as_str());
                    let mut error: String = join2(
                        "Transfer cancelled by sender (received ",
                        decimal_text(self.bytes_transferred).as_str(),
                    );
                    error.append("/");
                    error.append(decimal_text(self.total_size).as_str());
                    error.append(" bytes)");
                    return self.dropped(Status::BadRequest, error);
                }
                UploadStep::Flush(ReceivedUpload { upload: self })
            },
            UploadEvent::TimedOut => {
                let _ = sessions.remove(self.session_id.as_str());
                self.dropped(
                    Status::BadRequest,
                    join2("Upload stream timed out or cancelled for ", self.file_name.as_str()),
                )
            },
            UploadEvent::Broken => {
                let _ = sessions.remove(self.session_id.as_str());
                self.dropped(
                    Status::BadRequest,
                    join2("Upload stream interrupted or cancelled for ", self.file_name.as_str()),
                )
            },
        }
    }
}

// ---------------------------------------------------------------------------
// Finishing
// ---------------------------------------------------------------------------

/// The sessions after the file of `upload` was stored: its session no longer
/// waits for it, and is ended where it waits for no other.
pub open spec fn sessions_stored(sessions: SessionsModel, upload: UploadModel) -> SessionsModel {
    if sessions.contains_key(upload.session_id) {
        let session = sessions[upload.session_id];
        let files = session.files.remove(upload.file_id);
        if files == Map::<Seq<char>, (Seq<char>, u64)>::empty() {
            sessions.remove(upload.session_id)
        } else {
            sessions.insert(upload.session_id, SessionModel { files, tokens: session.tokens })
        }
    } else {
        sessions
    }
}

/// The end of the upload `upload`, whose file was stored at `path`. The
/// transfer is complete where this was the last file that its session waited
/// for; it is not where the session was ended before.
pub open spec fn stored(sessions: SessionsModel, upload: UploadModel, path: Seq<char>) -> EndModel {
    let received = EventModel::FileReceived { path };
    EndModel {
        status: Status::Success,
        remove_file: false,
        events: if sessions.contains_key(upload.session_id) && !sessions_stored(
            sessions,
            upload,
        ).contains_key(upload.session_id) {
            seq![
                received,
                EventModel::TransferCompleted {
                    session_id: upload.session_id,
                    message: "Received "@ + upload.file_name,
                },
            ]
        } else {
            seq![received]
        },
    }
}

impl ReceivedUpload {
    /// Ends an upload whose file reached the disk at `path`.
    pub fn flushed(self, sessions: &mut Table<ActiveSession>, path: String) -> (r: UploadEnd)
        ensures
            self.deep_view().bytes_transferred == self.deep_view().total_size,
            r.deep_view() == stored(old(sessions).deep_view(), self.deep_view(), path@),
            final(sessions).deep_view() == sessions_stored(
                old(sessions).deep_view(),
                self.deep_view(),
            ),
    {
        proof {
            use_type_invariant(&self);
        }
        let ghost model = self.deep_view();
        let ghost before = sessions.deep_view();
        let upload: Upload = self.upload;
        let mut events: Vec<AppEvent> = Vec::new();
        events.push(AppEvent::FileReceived { path });
        let complete: bool = match sessions.remove(upload.session_id.as_str()) {
            Some(session) => {
                let tokens: Table<String> = session.tokens;
                let mut files: Table<(String, u64)> = session.files;
                let _ = files.remove(upload.file_id.as_str());
                if files.is_empty() {
                    true
                } else {
                    sessions.insert(upload.session_id.clone(), ActiveSession { files, tokens });
                    assert(sessions.deep_view() =~= sessions_stored(before, model));
                    false
                }
            },
            None => {
                assert(sessions.deep_view() =~= before);
                false
            },
        };
        if complete {
            events.push(
                completed(
                    upload.session_id.as_str(),
                    join2("Received ", upload.file_name.as_str()),
                ),
            );
        }
        assert(events.deep_view() =~= stored(before, model, path@).events);
        UploadEnd { status: Status::Success, remove_file: false, events }
    }

    /// Ends an upload whose file could not be brought to the disk.
    pub fn not_flushed(self, sessions: &mut Table<ActiveSession>) -> (r: UploadEnd)
        ensures
            r.deep_view() == (EndModel {
                status: Status::InternalServerError,
                remove_file: true,
                events: self.deep_view().failure(
                    "Failed finalizing file "@ + self.deep_view().file_name,
                ),
            }),
            final(sessions).deep_view() == old(sessions).deep_view().remove(
                self.deep_view().session_id,
            ),
    {
        let _ = sessions.remove(self.upload.session_id.as_str());
        let error: String = join2("Failed finalizing file ", self.upload.file_name.as_str());
        UploadEnd {
            status: Status::InternalServerError,
            remove_file: true,
            events: self.upload.failed(error),
        }
    }
}

// ---------------------------------------------------------------------------
// Laws
// ---------------------------------------------------------------------------

/// What a session was opened for can be uploaded: the upload of an offered
/// file with the token that was handed out for it begins, under the name and
/// with the size that were offered.
pub proof fn law_issued_token_is_accepted(
    sessions: SessionsModel,
    session_id: Seq<char>,
    files: Seq<FileModel>,
    tokens: Seq<Seq<char>>,
    i: int,
)
    requires
        tokens.len() == files.len(),
        0 <= i < files.len(),
        forall|j: int, k: int|
            0 <= j < k < files.len() ==> (#[trigger] files[j]).id != (#[trigger] files[k]).id,
    ensures
        beginning(
            sessions.insert(session_id, session_for(files, tokens)),
            session_id,
            files[i].id,
            tokens[i],
        ) == Ok::<UploadModel, Status>(
            UploadModel {
                session_id,
                file_id: files[i].id,
                file_name: files[i].file_name,
                total_size: files[i].size,
                bytes_transferred: 0,
            },
        ),
{
    law_distinct_files_are_all_kept(files, tokens, i);
}

/// An upload begins only with the token of its file: in a known session every
/// other token is forbidden, and in an unknown one nothing is found.
pub proof fn law_other_tokens_are_refused(
    sessions: SessionsModel,
    session_id: Seq<char>,
    file_id: Seq<char>,
    token: Seq<char>,
)
    ensures
        beginning(sessions, session_id, file_id, token) is Ok ==> sessions.contains_key(session_id)
            && sessions[session_id].tokens.contains_key(file_id)
            && sessions[session_id].tokens[file_id] == token,
        sessions.contains_key(session_id) && !(sessions[session_id].tokens.contains_key(file_id)
            && sessions[session_id].tokens[file_id] == token) ==> beginning(
            sessions,
            session_id,
            file_id,
            token,
        ) == Err::<UploadModel, Status>(Status::Forbidden),
        !sessions.contains_key(session_id) ==> beginning(sessions, session_id, file_id, token)
            == Err::<UploadModel, Status>(Status::NotFound),
{
}

/// A file that was not offered cannot be uploaded to the session, with any
/// token.
pub proof fn law_unoffered_files_are_refused(
    sessions: SessionsModel,
    session_id: Seq<char>,
    files: Seq<FileModel>,
    tokens: Seq<Seq<char>>,
    file_id: Seq<char>,
    token: Seq<char>,
)
    requires
        tokens.len() == files.len(),
        forall|i: int| 0 <= i < files.len() ==> (#[trigger] files[i]).id != file_id,
    ensures
        beginning(
            sessions.insert(session_id, session_for(files, tokens)),
            session_id,
            file_id,
            token,
        ) == Err::<UploadModel, Status>(Status::Forbidden),
{
    law_each_file_has_a_token(files, tokens, file_id);
}

/// The number of bytes in `chunks`.
pub open spec fn bytes_in(chunks: Seq<u64>) -> nat
    decreases chunks.len(),
{
    if chunks.len() == 0 {
        0
    } else {
        chunks[0] as nat + bytes_in(chunks.skip(1))
    }
}

/// Where the upload `upload` comes to when `chunks` come, and then the end of
/// the contents, as long as nothing else touches the sessions.
pub open spec fn after_contents(
    sessions: SessionsModel,
    upload: UploadModel,
    chunks: Seq<u64>,
) -> StepModel
    decreases chunks.len(),
{
    if chunks.len() == 0 {
        upload_step(sessions, upload, UploadEvent::Ended)
    } else {
        match upload_step(sessions, upload, UploadEvent::Chunk(chunks[0])) {
            StepModel::Receive { upload: next, .. } => after_contents(
                sessions,
                next,
                chunks.skip(1),
            ),
            other => other,
        }
    }
}

/// Contents are kept exactly where they are as long as was declared, however
/// they are cut into chunks. Contents that are longer or shorter are answered
/// with a bad request, and what was written of them is removed.
pub proof fn law_contents_are_as_long_as_declared(
    sessions: SessionsModel,
    upload: UploadModel,
    chunks: Seq<u64>,
)
    requires
        sessions.contains_key(upload.session_id),
        upload.bytes_transferred <= upload.total_size,
    ensures
        upload.bytes_transferred + bytes_in(chunks) == upload.total_size ==> after_contents(
            sessions,
            upload,
            chunks,
        ) == StepModel::Flush(UploadModel { bytes_transferred: upload.total_size, ..upload }),
        upload.bytes_transferred + bytes_in(chunks) != upload.total_size ==> (after_contents(
            sessions,
            upload,
            chunks,
        ) matches StepModel::Finish(end) && end.status == Status::BadRequest && end.remove_file),
    decreases chunks.len(),
{
    if chunks.len() > 0 && !upload.overrun_by(chunks[0]) {
        let next = upload.with_chunk(chunks[0]);
        law_contents_are_as_long_as_declared(sessions, next, chunks.skip(1));
    }
}

/// Never is more counted as received than was declared.
pub proof fn law_counts_stay_within_size(
    sessions: SessionsModel,
    upload: UploadModel,
    event: UploadEvent,
)
    requires
        upload.bytes_transferred <= upload.total_size,
    ensures
        upload_step(sessions, upload, event) matches StepModel::Receive { upload: next, .. }
            ==> upload.bytes_transferred <= next.bytes_transferred <= next.total_size
            && next.total_size == upload.total_size,
        upload_step(sessions, upload, event) matches StepModel::Flush(next)
            ==> next.bytes_transferred == next.total_size,
{
}

/// Once its session is cancelled, an upload receives no more chunks: what was
/// written is removed. Contents that had all come by then are kept, and that
/// the file is there is made known; but the transfer is not complete. Contents
/// that end before are not kept.
pub proof fn law_cancelled_uploads_stop(
    sessions: SessionsModel,
    upload: UploadModel,
    n: u64,
    path: Seq<char>,
)
    requires
        !sessions.contains_key(upload.session_id),
    ensures
        upload_step(sessions, upload, UploadEvent::Created) matches StepModel::Finish(end)
            && end.status == Status::BadRequest && end.remove_file,
        upload_step(sessions, upload, UploadEvent::Chunk(n)) matches StepModel::Finish(end)
            && end.status == Status::BadRequest && end.remove_file,
        upload.bytes_transferred >= upload.total_size ==> upload_step(
            sessions,
            upload,
            UploadEvent::Ended,
        ) == StepModel::Flush(upload),
        upload.bytes_transferred < upload.total_size ==> (upload_step(
            sessions,
            upload,
            UploadEvent::Ended,
        ) matches StepModel::Finish(end) && end.status == Status::BadRequest && end.remove_file),
        stored(sessions, upload, path) == (EndModel {
            status: Status::Success,
            remove_file: false,
            events: seq![EventModel::FileReceived { path }],
        }),
        sessions_stored(sessions, upload) == sessions,
{
}

/// A cancellation that names a session, or none, stops the uploads to that
/// session, or all of them: none begins, none receives another chunk, and none
/// completes the transfer.
pub proof fn law_cancelling_stops_uploads(
    before: ServerState,
    after: ServerState,
    target: Option<Seq<char>>,
    events: Seq<EventModel>,
    upload: UploadModel,
    n: u64,
    path: Seq<char>,
)
    requires
        is_cancelled(before, after, target, events),
        target == Some(upload.session_id) || target is None,
    ensures
        upload_step(
            after.active_sessions.deep_view(),
            upload,
            UploadEvent::Chunk(n),
        ) matches StepModel::Finish(end) && end.status == Status::BadRequest && end.remove_file,
        upload.bytes_transferred < upload.total_size ==> (upload_step(
            after.active_sessions.deep_view(),
            upload,
            UploadEvent::Ended,
        ) matches StepModel::Finish(end) && end.status == Status::BadRequest && end.remove_file),
        stored(after.active_sessions.deep_view(), upload, path).events
            == seq![EventModel::FileReceived { path }],
        forall|file_id: Seq<char>, token: Seq<char>|
            #[trigger] beginning(
                after.active_sessions.deep_view(),
                upload.session_id,
                file_id,
                token,
            ) == Err::<UploadModel, Status>(Status::NotFound),
{
    law_cancelled_uploads_stop(after.active_sessions.deep_view(), upload, n, path);
}

/// An upload touches no session but its own.
pub proof fn law_other_sessions_are_untouched(
    sessions: SessionsModel,
    upload: UploadModel,
    event: UploadEvent,
    other: Seq<char>,
)
    requires
        other != upload.session_id,
    ensures
        sessions_after(sessions, upload, event).contains_key(other) == sessions.contains_key(other),
        sessions_stored(sessions, upload).contains_key(other) == sessions.contains_key(other),
        sessions.contains_key(other) ==> sessions_after(sessions, upload, event)[other]
            == sessions[other] && sessions_stored(sessions, upload)[other] == sessions[other],
{
}

/// A file is stored once: after that its upload does not begin again, with any
/// token.
pub proof fn law_stored_files_are_not_awaited(
    sessions: SessionsModel,
    upload: UploadModel,
    token: Seq<char>,
)
    ensures
        beginning(
            sessions_stored(sessions, upload),
            upload.session_id,
            upload.file_id,
            token,
        ) is Err,
        sessions.contains_key(upload.session_id)
            && sessions[upload.session_id].tokens.contains_key(upload.file_id)
            && sessions[upload.session_id].tokens[upload.file_id] == token ==> beginning(
            sessions_stored(sessions, upload),
            upload.session_id,
            upload.file_id,
            token,
        ) == Err::<UploadModel, Status>(Status::NotFound),
{
}

/// A transfer is reported as complete exactly where its session is still there
/// when a file is stored, and waits for no other.
pub proof fn law_only_whole_transfers_complete(
    sessions: SessionsModel,
    upload: UploadModel,
    path: Seq<char>,
)
    ensures
        stored(sessions, upload, path).events.contains(
            EventModel::TransferCompleted {
                session_id: upload.session_id,
                message: "Received "@ + upload.file_name,
            },
        ) <==> sessions.contains_key(upload.session_id)
            && sessions[upload.session_id].files.remove(upload.file_id)
            == Map::<Seq<char>, (Seq<char>, u64)>::empty(),
{
    let events = stored(sessions, upload, path).events;
    assert(events[0] is FileReceived);
    if events.len() == 2 {
        assert(events[1] is TransferCompleted);
    }
}

/// The sessions after the files `ids` of the session of `upload` were stored,
/// one after the other.
pub open spec fn after_storing(
    sessions: SessionsModel,
    upload: UploadModel,
    ids: Seq<Seq<char>>,
) -> SessionsModel
    decreases ids.len(),
{
    if ids.len() == 0 {
        sessions
    } else {
        sessions_stored(
            after_storing(sessions, upload, ids.drop_last()),
            UploadModel { file_id: ids.last(), ..upload },
        )
    }
}

/// A session is active until the last of its files is stored, and then no
/// longer, in whatever order the files come.
pub proof fn law_sessions_end_with_their_last_file(
    sessions: SessionsModel,
    upload: UploadModel,
    ids: Seq<Seq<char>>,
    n: int,
)
    requires
        sessions.contains_key(upload.session_id),
        ids.no_duplicates(),
        ids.to_set() == sessions[upload.session_id].files.dom(),
        0 <= n <= ids.len(),
        ids.len() > 0,
    ensures
        after_storing(sessions, upload, ids.take(n)).contains_key(upload.session_id) <==> n
            < ids.len(),
        n < ids.len() ==> after_storing(sessions, upload, ids.take(n))[upload.session_id].files
            == sessions[upload.session_id].files.remove_keys(ids.take(n).to_set()),
    decreases n,
{
    let waiting = sessions[upload.session_id].files;
    if n == 0 {
        assert(ids.take(0) =~= Seq::<Seq<char>>::empty());
        assert(waiting.remove_keys(ids.take(0).to_set()) =~= waiting);
    } else {
        law_sessions_end_with_their_last_file(sessions, upload, ids, n - 1);
        let before = after_storing(sessions, upload, ids.take(n - 1));
        let last = ids[n - 1];
        let shorter = ids.take(n - 1);
        assert(ids.take(n).drop_last() =~= ids.take(n - 1));
        assert(ids.take(n).last() == last);
        let left = before[upload.session_id].files.remove(last);
        assert(left =~= waiting.remove_keys(ids.take(n).to_set())) by {
            assert forall|k: Seq<char>| #[trigger]
                left.contains_key(k) <==> waiting.remove_keys(ids.take(n).to_set()).contains_key(
                    k,
                ) by {
                if ids.take(n).contains(k) {
                    let i = choose|i: int| 0 <= i < n && ids.take(n)[i] == k;
                    if i < n - 1 {
                        assert(shorter[i] == k);
                    }
                }
                if shorter.contains(k) {
                    let i = choose|i: int| 0 <= i < shorter.len() && shorter[i] == k;
                    assert(ids.take(n)[i] == k);
                }
                assert(ids.take(n)[n - 1] == last);
            }
        }
        if n < ids.len() {
            let k = ids[n];
            assert(ids.contains(k));
            assert(waiting.contains_key(k));
            if ids.take(n).contains(k) {
                let i = choose|i: int| 0 <= i < n && ids.take(n)[i] == k;
                assert(ids[i] == ids[n]);
            }
            assert(left.contains_key(k));
        } else {
            assert forall|k: Seq<char>| !left.contains_key(k) by {
                if left.contains_key(k) {
                    assert(waiting.contains_key(k));
                    assert(ids.contains(k));
                    let i = choose|i: int| 0 <= i < ids.len() && ids[i] == k;
                    assert(ids.take(n)[i] == k);
                }
            }
            assert(left =~= Map::<Seq<char>, (Seq<char>, u64)>::empty());
        }
    }
}

/// An upload begins exactly where its session is active, its token is the one of
/// its file, and the file is still awaited; it begins under the name and with the
/// size with which the file is awaited, and with nothing counted, whatever other
/// files the session awaits or has stored.
pub proof fn law_uploads_begin_as_awaited(
    sessions: SessionsModel,
    session_id: Seq<char>,
    file_id: Seq<char>,
    token: Seq<char>,
)
    ensures
        match beginning(sessions, session_id, file_id, token) {
            Ok(upload) => {
                &&& sessions.contains_key(session_id)
                &&& sessions[session_id].tokens.contains_key(file_id)
                &&& sessions[session_id].tokens[file_id] == token
                &&& sessions[session_id].files.contains_key(file_id)
                &&& upload.session_id == session_id
                &&& upload.file_id == file_id
                &&& upload.file_name == sessions[session_id].files[file_id].0
                &&& upload.total_size == sessions[session_id].files[file_id].1
                &&& upload.bytes_transferred == 0
            },
            Err(status) => {
                ||| status == Status::NotFound && !sessions.contains_key(session_id)
                ||| status == Status::Forbidden && sessions.contains_key(session_id) && !(
                sessions[session_id].tokens.contains_key(file_id)
                    && sessions[session_id].tokens[file_id] == token)
                ||| status == Status::NotFound && sessions.contains_key(session_id)
                    && sessions[session_id].tokens.contains_key(file_id)
                    && sessions[session_id].tokens[file_id] == token
                    && !sessions[session_id].files.contains_key(file_id)
            },
        },
{
}

/// After some files of a session are stored, every other file is still awaited as
/// it was, and its token is the same.
proof fn lemma_others_are_still_awaited(
    sessions: SessionsModel,
    upload: UploadModel,
    ids: Seq<Seq<char>>,
    other: Seq<char>,
)
    requires
        sessions.contains_key(upload.session_id),
        sessions[upload.session_id].files.contains_key(other),
        !ids.contains(other),
    ensures
        ({
            let after = after_storing(sessions, upload, ids);
            &&& after.contains_key(upload.session_id)
            &&& after[upload.session_id].tokens == sessions[upload.session_id].tokens
            &&& after[upload.session_id].files.contains_key(other)
            &&& after[upload.session_id].files[other] == sessions[upload.session_id].files[other]
        }),
    decreases ids.len(),
{
    if ids.len() > 0 {
        let fewer = ids.drop_last();
        assert(!fewer.contains(other)) by {
            if fewer.contains(other) {
                let i = choose|i: int| 0 <= i < fewer.len() && fewer[i] == other;
                assert(ids[i] == other);
            }
        }
        lemma_others_are_still_awaited(sessions, upload, fewer, other);
        assert(ids[ids.len() - 1] == ids.last());
        let before = after_storing(sessions, upload, fewer);
        let left = before[upload.session_id].files.remove(ids.last());
        assert(left.contains_key(other));
        assert(left != Map::<Seq<char>, (Seq<char>, u64)>::empty());
    }
}

/// Whichever files of a session have been stored already, each of the others can
/// be uploaded with the token that was issued for it, under the name and with the
/// size that were offered.
pub proof fn law_remaining_files_begin_as_offered(
    sessions: SessionsModel,
    upload: UploadModel,
    files: Seq<FileModel>,
    tokens: Seq<Seq<char>>,
    stored: Seq<Seq<char>>,
    i: int,
)
    requires
        tokens.len() == files.len(),
        0 <= i < files.len(),
        forall|j: int, k: int|
            0 <= j < k < files.len() ==> (#[trigger] files[j]).id != (#[trigger] files[k]).id,
        !stored.contains(files[i].id),
    ensures
        ({
            let opened = sessions.insert(upload.session_id, session_for(files, tokens));
            let begun = beginning(
                after_storing(opened, upload, stored),
                upload.session_id,
                files[i].id,
                tokens[i],
            );
            &&& begun is Ok
            &&& begun->Ok_0.file_name == files[i].file_name
            &&& begun->Ok_0.total_size == files[i].size
            &&& begun->Ok_0.bytes_transferred == 0
            &&& begun->Ok_0.session_id == upload.session_id
            &&& begun->Ok_0.file_id == files[i].id
        }),
{
    law_distinct_files_are_all_kept(files, tokens, i);
    let opened = sessions.insert(upload.session_id, session_for(files, tokens));
    lemma_others_are_still_awaited(opened, upload, stored, files[i].id);
    law_uploads_begin_as_awaited(
        after_storing(opened, upload, stored),
        upload.session_id,
        files[i].id,
        tokens[i],
    );
}

/// A chunk is counted in full where it fits in what is left of the declared size,
/// and its progress is made known for the session and the file; where it does not
/// fit, the upload is refused, the file removed and the session ended.
pub proof fn law_chunks_are_counted(sessions: SessionsModel, upload: UploadModel, n: u64)
    ensures
        ({
            let fits = upload.bytes_transferred + n <= upload.total_size;
            let step = upload_step(sessions, upload, UploadEvent::Chunk(n));
            let after = sessions_after(sessions, upload, UploadEvent::Chunk(n));
            &&& fits && sessions.contains_key(upload.session_id) ==> {
                &&& step matches StepModel::Receive { upload: next, events }
                &&& next.session_id == upload.session_id
                &&& next.file_id == upload.file_id
                &&& next.file_name == upload.file_name
                &&& next.total_size == upload.total_size
                &&& next.bytes_transferred == upload.bytes_transferred + n
                &&& events.len() == 1
                &&& events[0] == (EventModel::TransferProgress {
                    session_id: upload.session_id,
                    file_id: upload.file_id,
                    bytes_transferred: next.bytes_transferred,
                    total_bytes: upload.total_size,
                    is_upload: false,
                })
            }
            &&& fits && !sessions.contains_key(upload.session_id) ==> {
                &&& step matches StepModel::Finish(end)
                &&& end.status == Status::BadRequest
                &&& end.remove_file
                &&& end.events.len() == 1
                &&& end.events[0] is TransferProgress
                &&& end.events[0]->TransferProgress_session_id == upload.session_id
                &&& end.events[0]->file_id == upload.file_id
                &&& end.events[0]->bytes_transferred == upload.bytes_transferred + n
                &&& end.events[0]->total_bytes == upload.total_size
                &&& !end.events[0]->is_upload
            }
            &&& fits ==> after == sessions
            &&& !fits ==> {
                &&& step matches StepModel::Finish(end)
                &&& end.status == Status::BadRequest
                &&& end.remove_file
                &&& end.events == seq![
                    EventModel::TransferFailed {
                        session_id: upload.session_id,
                        error: "Received more data than declared for "@ + upload.file_name,
                    },
                ]
                &&& after == sessions.remove(upload.session_id)
            }
        }),
{
}

/// An upload whose file was created waits for its first chunk, with nothing
/// reported, as long as its session is active; no other event but a chunk lets it
/// go on.
pub proof fn law_uploads_wait_for_chunks(
    sessions: SessionsModel,
    upload: UploadModel,
    event: UploadEvent,
)
    ensures
        event is Created ==> sessions_after(sessions, upload, event) == sessions,
        event is Created && sessions.contains_key(upload.session_id) ==> upload_step(
            sessions,
            upload,
            event,
        ) == (StepModel::Receive { upload, events: Seq::empty() }),
        event is Created && !sessions.contains_key(upload.session_id) ==> upload_step(
            sessions,
            upload,
            event,
        ) == StepModel::Finish(
            EndModel { status: Status::BadRequest, remove_file: true, events: Seq::empty() },
        ),
        upload_step(sessions, upload, event) is Receive ==> event is Created || event is Chunk,
        upload_step(sessions, upload, event) is Flush <==> event is Ended
            && upload.bytes_transferred >= upload.total_size,
{
}

/// An upload is answered with a server error where its file cannot be created or
/// written: what is there of it stays, and so does its session.
pub proof fn law_disk_failures_keep_the_session(sessions: SessionsModel, upload: UploadModel)
    ensures
        upload_step(sessions, upload, UploadEvent::NotCreated) == StepModel::Finish(
            EndModel {
                status: Status::InternalServerError,
                remove_file: false,
                events: seq![
                    EventModel::TransferFailed {
                        session_id: upload.session_id,
                        error: "Failed creating file "@ + upload.file_name,
                    },
                ],
            },
        ),
        upload_step(sessions, upload, UploadEvent::NotWritten) == StepModel::Finish(
            EndModel {
                status: Status::InternalServerError,
                remove_file: false,
                events: seq![
                    EventModel::TransferFailed {
                        session_id: upload.session_id,
                        error: "Failed writing file "@ + upload.file_name,
                    },
                ],
            },
        ),
        sessions_after(sessions, upload, UploadEvent::NotCreated) == sessions,
        sessions_after(sessions, upload, UploadEvent::NotWritten) == sessions,
{
}

/// Contents that break off, do not come in time or end too early are refused,
/// each with its reason: the file is removed and the session ended. Contents that
/// end when all has come leave the sessions as they are.
pub proof fn law_broken_contents_end_the_session(sessions: SessionsModel, upload: UploadModel)
    ensures
        upload_step(sessions, upload, UploadEvent::TimedOut) == StepModel::Finish(
            EndModel {
                status: Status::BadRequest,
                remove_file: true,
                events: seq![
                    EventModel::TransferFailed {
                        session_id: upload.session_id,
                        error: "Upload stream timed out or cancelled for "@ + upload.file_name,
                    },
                ],
            },
        ),
        upload_step(sessions, upload, UploadEvent::Broken) == StepModel::Finish(
            EndModel {
                status: Status::BadRequest,
                remove_file: true,
                events: seq![
                    EventModel::TransferFailed {
                        session_id: upload.session_id,
                        error: "Upload stream interrupted or cancelled for "@ + upload.file_name,
                    },
                ],
            },
        ),
        upload.bytes_transferred < upload.total_size ==> upload_step(
            sessions,
            upload,
            UploadEvent::Ended,
        ) == StepModel::Finish(
            EndModel {
                status: Status::BadRequest,
                remove_file: true,
                events: seq![
                    EventModel::TransferFailed {
                        session_id: upload.session_id,
                        error: "Transfer cancelled by sender (received "@ + decimal(
                            upload.bytes_transferred as nat,
                        ) + "/"@ + decimal(upload.total_size as nat) + " bytes)"@,
                    },
                ],
            },
        ),
        sessions_after(sessions, upload, UploadEvent::TimedOut) == sessions.remove(
            upload.session_id,
        ),
        sessions_after(sessions, upload, UploadEvent::Broken) == sessions.remove(
            upload.session_id,
        ),
        upload.bytes_transferred < upload.total_size ==> sessions_after(
            sessions,
            upload,
            UploadEvent::Ended,
        ) == sessions.remove(upload.session_id),
        upload.bytes_transferred >= upload.total_size ==> sessions_after(
            sessions,
            upload,
            UploadEvent::Ended,
        ) == sessions && upload_step(sessions, upload, UploadEvent::Ended) == StepModel::Flush(
            upload,
        ),
{
}

/// A stored file is made known by its path, answered with success and kept. It is
/// awaited no longer, while the other files of its session are awaited as before
/// with the same tokens; the session ends with its last file, and then the
/// completion is made known after the file.
pub proof fn law_stored_files_are_made_known(
    sessions: SessionsModel,
    upload: UploadModel,
    path: Seq<char>,
)
    ensures
        ({
            let end = stored(sessions, upload, path);
            let after = sessions_stored(sessions, upload);
            let session = sessions[upload.session_id];
            let active = sessions.contains_key(upload.session_id);
            let others = exists|id: Seq<char>|
                #[trigger] session.files.contains_key(id) && id != upload.file_id;
            &&& end.status == Status::Success
            &&& !end.remove_file
            &&& end.events.len() >= 1
            &&& end.events[0] == EventModel::FileReceived { path }
            &&& !active ==> end.events.len() == 1 && after == sessions
            &&& active && others ==> {
                &&& end.events.len() == 1
                &&& after.contains_key(upload.session_id)
                &&& after[upload.session_id].tokens == session.tokens
                &&& after[upload.session_id].files == session.files.remove(upload.file_id)
                &&& after.remove(upload.session_id) == sessions.remove(upload.session_id)
            }
            &&& active && !others ==> {
                &&& end.events.len() == 2
                &&& end.events[1] == (EventModel::TransferCompleted {
                    session_id: upload.session_id,
                    message: "Received "@ + upload.file_name,
                })
                &&& after == sessions.remove(upload.session_id)
            }
        }),
{
    let session = sessions[upload.session_id];
    let left = session.files.remove(upload.file_id);
    if exists|id: Seq<char>| #[trigger] session.files.contains_key(id) && id != upload.file_id {
        let id = choose|id: Seq<char>|
            #[trigger] session.files.contains_key(id) && id != upload.file_id;
        assert(left.contains_key(id));
    } else {
        assert forall|id: Seq<char>| !left.contains_key(id) by {
            if left.contains_key(id) {
                assert(session.files.contains_key(id));
            }
        }
        assert(left =~= Map::<Seq<char>, (Seq<char>, u64)>::empty());
    }
    let after = sessions_stored(sessions, upload);
    assert(after.remove(upload.session_id) =~= sessions.remove(upload.session_id));
}

/// An upload that is begun by its query has the name and the size under which the
/// session awaits its file, with nothing received; without the session, the token
/// or the awaited file it is refused.
pub proof fn law_queries_begin_what_is_awaited(
    sessions: &Table<ActiveSession>,
    query: &UploadQuery,
    r: Result<Upload, Status>,
)
    requires
        call_ensures(handle_upload, (sessions, query), r),
    ensures
        ({
            let known = sessions.deep_view();
            let id = query.session_id@;
            let file = query.file_id@;
            let active = known.contains_key(id);
            let allowed = active && known[id].tokens.contains_key(file) && known[id].tokens[file]
                == query.token@;
            let awaited = allowed && known[id].files.contains_key(file);
            &&& r is Ok <==> awaited
            &&& r is Ok ==> {
                let upload = r->Ok_0.deep_view();
                &&& upload.session_id == id
                &&& upload.file_id == file
                &&& upload.file_name == known[id].files[file].0
                &&& upload.total_size == known[id].files[file].1
                &&& upload.bytes_transferred == 0
            }
            &&& !active ==> r == Err::<Upload, Status>(Status::NotFound)
            &&& active && !allowed ==> r == Err::<Upload, Status>(Status::Forbidden)
            &&& allowed && !awaited ==> r == Err::<Upload, Status>(Status::NotFound)
        }),
{
    law_uploads_begin_as_awaited(
        sessions.deep_view(),
        query.session_id@,
        query.file_id@,
        query.token@,
    );
}

/// A chunk that fits is counted and the upload goes on, as long as its session is
/// active; one that does not fit ends the upload and its session.
pub proof fn law_steps_count_what_came(
    upload: Upload,
    sessions: &mut Table<ActiveSession>,
    n: u64,
    step: UploadStep,
)
    requires
        call_ensures(Upload::step, (upload, sessions, UploadEvent::Chunk(n)), step),
    ensures
        ({
            let before = upload.deep_view();
            let active = old(sessions).deep_view().contains_key(before.session_id);
            let fits = before.bytes_transferred + n <= before.total_size;
            &&& fits && active ==> {
                &&& step matches UploadStep::Receive { upload: next, events }
                &&& next.deep_view().bytes_transferred == before.bytes_transferred + n
                &&& next.deep_view().total_size == before.total_size
                &&& next.deep_view().file_name == before.file_name
                &&& next.deep_view().file_id == before.file_id
                &&& next.deep_view().session_id == before.session_id
                &&& events@.len() == 1
            }
            &&& !(fits && active) ==> {
                &&& step matches UploadStep::Finish(end)
                &&& end.status == Status::BadRequest
                &&& end.remove_file
                &&& end.events@.len() == 1
            }
            &&& fits ==> final(sessions).deep_view() == old(sessions).deep_view()
            &&& !fits ==> final(sessions).deep_view() == old(sessions).deep_view().remove(
                before.session_id,
            )
        }),
{
    law_chunks_are_counted(old(sessions).deep_view(), upload.deep_view(), n);
    match step {
        UploadStep::Receive { upload: _, events } => {
            assert(events.deep_view().len() == events@.len());
        },
        UploadStep::Finish(end) => {
            assert(end.events.deep_view().len() == end.events@.len());
        },
        _ => {},
    }
}

/// Contents that ended are brought to the disk exactly where all of them came; no
/// event but a created file and a chunk lets an upload go on.
pub proof fn law_steps_end_with_the_contents(
    upload: Upload,
    sessions: &mut Table<ActiveSession>,
    event: UploadEvent,
    step: UploadStep,
)
    requires
        call_ensures(Upload::step, (upload, sessions, event), step),
    ensures
        step is Flush <==> event is Ended && upload.deep_view().bytes_transferred
            >= upload.deep_view().total_size,
        step is Receive ==> event is Created || event is Chunk,
        step is Flush ==> step->Flush_0.deep_view() == upload.deep_view(),
        event is Created && old(sessions).deep_view().contains_key(upload.deep_view().session_id)
            ==> step is Receive,
        event is NotCreated || event is NotWritten ==> (step matches UploadStep::Finish(end)
            && end.status == Status::InternalServerError && !end.remove_file
            && final(sessions).deep_view() == old(sessions).deep_view()),
        event is TimedOut || event is Broken ==> (step matches UploadStep::Finish(end)
            && end.status == Status::BadRequest && end.remove_file && final(sessions).deep_view()
            == old(sessions).deep_view().remove(upload.deep_view().session_id)),
{
    let before = old(sessions).deep_view();
    law_uploads_wait_for_chunks(before, upload.deep_view(), event);
    law_disk_failures_keep_the_session(before, upload.deep_view());
    law_broken_contents_end_the_session(before, upload.deep_view());
}

/// A file that reached the disk is answered with success and made known by its
/// path; the end of the transfer is made known with its last file. A file that did
/// not reach the disk is removed, and its session ended.
pub proof fn law_finished_uploads_are_answered(
    received: ReceivedUpload,
    sessions: &mut Table<ActiveSession>,
    path: String,
    end: UploadEnd,
)
    requires
        call_ensures(ReceivedUpload::flushed, (received, sessions, path), end),
    ensures
        end.status == Status::Success,
        !end.remove_file,
        1 <= end.events@.len() <= 2,
        end.events@[0] matches AppEvent::FileReceived { path: stored } && stored@ == path@,
        end.events@.len() == 2 <==> old(sessions).deep_view().contains_key(
            received.deep_view().session_id,
        ) && !(exists|id: Seq<char>|
            #[trigger] old(sessions).deep_view()[received.deep_view().session_id].files.contains_key(
                id,
            ) && id != received.deep_view().file_id),
        end.events@.len() == 2 ==> end.events@[1] is TransferCompleted
            && end.events@[1]->TransferCompleted_session_id@ == received.deep_view().session_id,
{
    law_stored_files_are_made_known(old(sessions).deep_view(), received.deep_view(), path@);
    assert(end.events.deep_view().len() == end.events@.len());
    assert(end.events.deep_view()[0] == end.events@[0].deep_view());
    if end.events@.len() == 2 {
        assert(end.events.deep_view()[1] == end.events@[1].deep_view());
    }
}

/// A file that could not be brought to the disk is answered with a server error:
/// what is there of it is removed, and its session ended.
pub proof fn law_unfinished_uploads_are_removed(
    received: ReceivedUpload,
    sessions: &mut Table<ActiveSession>,
    end: UploadEnd,
)
    requires
        call_ensures(ReceivedUpload::not_flushed, (received, sessions), end),
    ensures
        end.status == Status::InternalServerError,
        end.remove_file,
        end.events@.len() == 1,
        end.events@[0] matches AppEvent::TransferFailed { session_id, error } && session_id@
            == received.deep_view().session_id && error@ == "Failed finalizing file "@
            + received.deep_view().file_name,
        final(sessions).deep_view() == old(sessions).deep_view().remove(
            received.deep_view().session_id,
        ),
        CHUNK_WAIT_SECONDS == 5,
{
    assert(end.events.deep_view().len() == end.events@.len());
    assert(end.events.deep_view()[0] == end.events@[0].deep_view());
}

}
