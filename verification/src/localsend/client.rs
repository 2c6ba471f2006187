//! The sending side: what is offered to a peer, and how the files that the peer
//! accepts are sent.
use vstd::prelude::*;
use vstd::string::*;

use crate::events::{completed, failed, AppEvent, EventModel};
use crate::localsend::ids::fresh_ids;
use crate::localsend::prepare::{
    are_fresh, law_each_file_has_a_token, session_for, tokens_by_id,
};
use crate::localsend::protocol::{
    host_and_port, host_port, register_self, registration, FileDto, FileModel, Peer, PeerModel,
    PrepareUploadReqDto, PrepareUploadReqModel, PrepareUploadRespDto, CANCEL_PATH,
    PREPARE_UPLOAD_PATH, UPLOAD_PATH,
};
use crate::localsend::server::safe_name;
use crate::localsend::tls::{build_client, direct_settings, settings_of};
use crate::localsend::upload;
use crate::localsend::upload::SessionsModel;
use crate::path::{
    extension, extension_of, file_name, file_name_of, law_dotted_names_have_an_extension,
    law_extension_follows_the_last_dot, law_file_name_is_plain, law_last_part_is_the_name,
    law_plain_name_is_its_file_name,
};
use crate::sizes::{lemma_sum_grows, sum, sum_up};
use crate::table::Table;
use crate::text::{decimal, join2, join3, lowered, same_lowered};

verus! {

// ---------------------------------------------------------------------------
// What is offered
// ---------------------------------------------------------------------------

/// The media type that is given for the file at `path`, by its extension in
/// whatever case.
pub open spec fn media_type(path: Seq<char>) -> Seq<char> {
    let extension = match file_name_of(path) {
        Some(name) => extension_of(name),
        None => None,
    };
    match extension {
        Some(extension) => {
            let e = lowered(extension);
            if e == "txt"@ || e == "md"@ || e == "log"@ {
                "text/plain"@
            } else if e == "json"@ {
                "application/json"@
            } else if e == "png"@ {
                "image/png"@
            } else if e == "jpg"@ || e == "jpeg"@ {
                "image/jpeg"@
            } else if e == "gif"@ {
                "image/gif"@
            } else if e == "pdf"@ {
                "application/pdf"@
            } else {
                "application/octet-stream"@
            }
        },
        None => "application/octet-stream"@,
    }
}

/// The media type of the file at `path`.
pub fn file_type(path: &str) -> (r: &'static str)
    ensures
        r@ == media_type(path@),
{
    match extension(path) {
        Some(extension) => {
            let e: &str = extension.as_str();
            if same_lowered(e, "txt") || same_lowered(e, "md") || same_lowered(e, "log") {
                "text/plain"
            } else if same_lowered(e, "json") {
                "application/json"
            } else if same_lowered(e, "png") {
                "image/png"
            } else if same_lowered(e, "jpg") || same_lowered(e, "jpeg") {
                "image/jpeg"
            } else if same_lowered(e, "gif") {
                "image/gif"
            } else if same_lowered(e, "pdf") {
                "application/pdf"
            } else {
                "application/octet-stream"
            }
        },
        None => "application/octet-stream",
    }
}

/// A file of this device that is to be sent, with its size where it could be
/// read.
#[derive(Debug)]
pub struct LocalFile {
    pub path: String,
    pub size: Option<u64>,
}

/// What is known of a [`LocalFile`].
#[verifier::ext_equal]
pub struct LocalFileModel {
    pub path: Seq<char>,
    pub size: Option<u64>,
}

impl DeepView for LocalFile {
    type V = LocalFileModel;

    open spec fn deep_view(&self) -> LocalFileModel {
        LocalFileModel { path: self.path@, size: self.size }
    }
}

/// The name under which the file at `path` is offered.
pub open spec fn name_to_offer(path: Seq<char>) -> Seq<char> {
    match file_name_of(path) {
        Some(name) => name,
        None => Seq::empty(),
    }
}

/// How the file at `path` of `size` bytes is offered under the identifier
/// `id`.
pub open spec fn offer_of(id: Seq<char>, path: Seq<char>, size: u64) -> FileModel {
    FileModel {
        id,
        file_name: name_to_offer(path),
        size,
        file_type: Some(media_type(path)),
        sha256: None,
        preview: None,
        metadata: None,
    }
}

/// Whether there is a file among `files` that can be sent.
pub open spec fn any_readable(files: Seq<LocalFileModel>) -> bool {
    exists|i: int| 0 <= i < files.len() && (#[trigger] files[i]).size is Some
}

/// The offers of `files` under `ids`. A file without a size is left out; of
/// two files with the same identifier the later one counts.
pub open spec fn offers(files: Seq<LocalFileModel>, ids: Seq<Seq<char>>) -> Map<
    Seq<char>,
    FileModel,
>
    decreases files.len(),
{
    if files.len() == 0 {
        Map::empty()
    } else {
        let rest = offers(files.drop_last(), ids.drop_last());
        match files.last().size {
            Some(size) => rest.insert(ids.last(), offer_of(ids.last(), files.last().path, size)),
            None => rest,
        }
    }
}

/// A file that was offered: its name, its size, and its place among the files
/// that were to be sent.
#[derive(Debug)]
pub struct OutgoingFile {
    pub file_name: String,
    pub size: u64,
    pub source: usize,
}

/// What an [`OutgoingFile`] says.
#[verifier::ext_equal]
pub struct OutgoingModel {
    pub file_name: Seq<char>,
    pub size: u64,
    pub source: usize,
}

impl DeepView for OutgoingFile {
    type V = OutgoingModel;

    open spec fn deep_view(&self) -> OutgoingModel {
        OutgoingModel { file_name: self.file_name@, size: self.size, source: self.source }
    }
}

/// The files that were offered under `ids`. A file without a size is left out;
/// of two files with the same identifier the later one counts.
pub open spec fn outgoing_files(files: Seq<LocalFileModel>, ids: Seq<Seq<char>>) -> Map<
    Seq<char>,
    OutgoingModel,
>
    decreases files.len(),
{
    if files.len() == 0 {
        Map::empty()
    } else {
        let rest = outgoing_files(files.drop_last(), ids.drop_last());
        match files.last().size {
            Some(size) => rest.insert(
                ids.last(),
                OutgoingModel {
                    file_name: name_to_offer(files.last().path),
                    size,
                    source: (files.len() - 1) as usize,
                },
            ),
            None => rest,
        }
    }
}

/// The start of the URLs of `peer`.
pub open spec fn base_url_of(peer: PeerModel) -> Seq<char> {
    peer.protocol + "://"@ + host_and_port(peer.ip, peer.port)
}

/// A transfer that was requested of a peer and has yet to be answered.
#[derive(Debug)]
pub struct Sending {
    base_url: String,
    peer_alias: String,
    request: PrepareUploadReqDto,
    outgoing: Table<OutgoingFile>,
}

/// What a [`Sending`] says.
#[verifier::ext_equal]
pub struct SendingModel {
    pub base_url: Seq<char>,
    pub peer_alias: Seq<char>,
    pub request: PrepareUploadReqModel,
    pub outgoing: Map<Seq<char>, OutgoingModel>,
}

impl DeepView for Sending {
    type V = SendingModel;

    closed spec fn deep_view(&self) -> SendingModel {
        SendingModel {
            base_url: self.base_url@,
            peer_alias: self.peer_alias@,
            request: self.request.deep_view(),
            outgoing: self.outgoing.deep_view(),
        }
    }
}

proof fn lemma_any_readable(files: Seq<LocalFileModel>, n: int)
    requires
        0 <= n < files.len(),
    ensures
        any_readable(files.take(n + 1)) <==> any_readable(files.take(n)) || files[n].size is Some,
{
    let less = files.take(n);
    let more = files.take(n + 1);
    if any_readable(less) {
        let i = choose|i: int| 0 <= i < less.len() && (#[trigger] less[i]).size is Some;
        assert(more[i].size is Some);
    }
    if files[n].size is Some {
        assert(more[n].size is Some);
    }
    if any_readable(more) && files[n].size is None {
        let i = choose|i: int| 0 <= i < more.len() && (#[trigger] more[i]).size is Some;
        assert(less[i].size is Some);
    }
}

/// Sends files to LocalSend peers, in the name of this device.
#[derive(Debug)]
pub struct LocalSendClient {
    pub client: reqwest::Client,
    pub alias: String,
    pub fingerprint: String,
    pub port: u16,
}

impl LocalSendClient {
    /// The client of the device with the given alias, fingerprint and port, where
    /// one was built for HTTP.
    pub fn with_client(
        alias: String,
        fingerprint: String,
        port: u16,
        built: Result<reqwest::Client, reqwest::Error>,
    ) -> (r: Result<Self, reqwest::Error>)
        ensures
            r == (match built {
                Ok(client) => Ok(LocalSendClient { client, alias, fingerprint, port }),
                Err(e) => Err(e),
            }),
    {
        match built {
            Ok(client) => Ok(LocalSendClient { client, alias, fingerprint, port }),
            Err(e) => Err(e),
        }
    }

    /// A client of the device with the given alias, fingerprint and port that
    /// presents `identity` to its peers. There is one exactly where
    /// `build_client` came to a client for `identity`, and it holds that client;
    /// otherwise the error is the one that `build_client` came to.
    pub fn new(alias: String, fingerprint: String, port: u16, identity: reqwest::Identity) -> (r:
        Result<Self, reqwest::Error>)
        ensures
            r matches Ok(client) ==> client.alias@ == alias@ && client.fingerprint@ == fingerprint@
                && client.port == port && settings_of(client.client) == direct_settings(identity),
            exists|built: Result<reqwest::Client, reqwest::Error>|
                #[trigger] call_ensures(build_client, (identity,), built) && r == (match built {
                    Ok(client) => Ok(LocalSendClient { client, alias, fingerprint, port }),
                    Err(e) => Err(e),
                }),
    {
        let built = build_client(identity);
        Self::with_client(alias, fingerprint, port, built)
    }

    /// What is requested of `peer` to send it `files` under `ids`.
    pub open spec fn sending(
        self,
        peer: PeerModel,
        files: Seq<LocalFileModel>,
        ids: Seq<Seq<char>>,
    ) -> SendingModel {
        SendingModel {
            base_url: base_url_of(peer),
            peer_alias: peer.alias,
            request: PrepareUploadReqModel {
                info: registration(self.alias@, self.fingerprint@, self.port, None),
                files: offers(files, ids),
            },
            outgoing: outgoing_files(files, ids),
        }
    }

    /// Offers `files` to `peer`, each under one of `ids`. Where none of them can
    /// be read there is nothing to request.
    pub fn offer_files(&self, peer: &Peer, files: &Vec<LocalFile>, ids: Vec<String>) -> (r: Result<
        Sending,
        AppEvent,
    >)
        requires
            ids@.len() == files@.len(),
        ensures
            any_readable(files.deep_view()) ==> r is Ok && r->Ok_0.deep_view() == self.sending(
                peer.deep_view(),
                files.deep_view(),
                ids.deep_view(),
            ),
            !any_readable(files.deep_view()) ==> r is Err && r->Err_0.deep_view()
                == EventModel::StatusMessage("No valid files to send"@),
    {
        let ghost models = files.deep_view();
        let ghost all = ids.deep_view();
        let mut offered: Table<FileDto> = Table::new();
        let mut outgoing: Table<OutgoingFile> = Table::new();
        let mut any: bool = false;
        let mut i: usize = 0;
        while i < files.len()
            invariant
                i <= files@.len(),
                files@.len() == ids@.len(),
                models == files.deep_view(),
                all == ids.deep_view(),
                any <==> any_readable(models.take(i as int)),
                offered.deep_view() == offers(models.take(i as int), all.take(i as int)),
                outgoing.deep_view() == outgoing_files(models.take(i as int), all.take(i as int)),
            decreases files@.len() - i,
        {
            let file: &LocalFile = &files[i];
            proof {
                assert(models.take(i + 1).drop_last() =~= models.take(i as int));
                assert(all.take(i + 1).drop_last() =~= all.take(i as int));
                assert(models.take(i + 1).last() == file.deep_view());
                assert(all.take(i + 1).last() == ids@[i as int]@);
                lemma_any_readable(models, i as int);
            }
            match file.size {
                Some(size) => {
                    let name: String = match file_name(file.path.as_str()) {
                        Some(name) => name,
                        None => String::new(),
                    };
                    let dto = FileDto {
                        id: ids[i].clone(),
                        file_name: name.clone(),
                        size,
                        file_type: Some(file_type(file.path.as_str()).to_owned()),
                        sha256: None,
                        preview: None,
                        metadata: None,
                    };
                    offered.insert(ids[i].clone(), dto);
                    outgoing.insert(
                        ids[i].clone(),
                        OutgoingFile { file_name: name, size, source: i },
                    );
                    any = true;
                },
                None => {},
            }
            i = i + 1;
        }
        assert(models.take(i as int) =~= models);
        assert(all.take(i as int) =~= all);
        if !any {
            return Err(AppEvent::StatusMessage("No valid files to send".to_owned()));
        }
        let address: String = host_port(peer.ip.as_str(), peer.port);
        Ok(
            Sending {
                base_url: join3(peer.protocol.as_str(), "://", address.as_str()),
                peer_alias: peer.alias.clone(),
                request: PrepareUploadReqDto {
                    info: register_self(
                        self.alias.as_str(),
                        self.fingerprint.as_str(),
                        self.port,
                        None,
                    ),
                    files: offered,
                },
                outgoing,
            },
        )
    }

    /// Offers `files` to `peer`, each under an identifier that `fresh_ids` came
    /// to. Where none of them can be read there is nothing to request.
    pub fn send_files(&self, peer: &Peer, files: &Vec<LocalFile>) -> (r: Result<Sending, AppEvent>)
        ensures
            any_readable(files.deep_view()) ==> r is Ok && exists|n: usize, ids: Vec<String>|
                {
                    &&& #[trigger] call_ensures(fresh_ids, (n,), ids)
                    &&& n == files@.len()
                    &&& are_fresh(ids.deep_view(), files@.len())
                    &&& r->Ok_0.deep_view() == self.sending(
                        peer.deep_view(),
                        files.deep_view(),
                        ids.deep_view(),
                    )
                },
            !any_readable(files.deep_view()) ==> r is Err && r->Err_0.deep_view()
                == EventModel::StatusMessage("No valid files to send"@),
    {
        let ids: Vec<String> = fresh_ids(files.len());
        let ghost drawn = ids.deep_view();
        assert(are_fresh(drawn, files@.len()));
        self.offer_files(peer, files, ids)
    }
}

// ---------------------------------------------------------------------------
// The answer to the request
// ---------------------------------------------------------------------------

/// Whether `code` is the number of an HTTP status for success.
pub open spec fn is_success(code: u16) -> bool {
    200 <= code < 300
}

/// What came back for a transfer request, short of a response.
#[derive(Debug)]
pub enum PrepareReply {
    /// The peer could not be reached.
    Unreachable(String),
    /// The peer answered with the status `code`, in words `text`.
    Answered { code: u16, text: String },
    /// What the peer answered could not be read.
    Unreadable(String),
}

/// How a transfer that was requested of a peer ends with `reply`. It goes on
/// where the peer answered with success and has files to ask for.
pub open spec fn prepare_end(peer_alias: Seq<char>, reply: PrepareReply) -> Option<EventModel> {
    let unknown = "unknown"@;
    match reply {
        PrepareReply::Unreachable(error) => Some(
            EventModel::TransferFailed {
                session_id: unknown,
                error: "Failed to connect to peer: "@ + error@,
            },
        ),
        PrepareReply::Answered { code, text } => if code == 204 {
            Some(
                EventModel::TransferCompleted {
                    session_id: "none"@,
                    message: peer_alias + " already has the selected files"@,
                },
            )
        } else if code == 403 {
            Some(
                EventModel::TransferFailed {
                    session_id: unknown,
                    error: "Transfer cancelled or declined by receiver ("@ + peer_alias + ")"@,
                },
            )
        } else if !is_success(code) {
            Some(
                EventModel::TransferFailed {
                    session_id: unknown,
                    error: "Receiver returned "@ + text@ + " while preparing the transfer"@,
                },
            )
        } else {
            None
        },
        PrepareReply::Unreadable(error) => Some(
            EventModel::TransferFailed {
                session_id: unknown,
                error: "Transfer rejected or cancelled by peer: "@ + error@,
            },
        ),
    }
}

/// The size of the file `id`, where it was offered.
pub open spec fn offered_size(outgoing: Map<Seq<char>, OutgoingModel>, id: Seq<char>) -> u64 {
    if outgoing.contains_key(id) {
        outgoing[id].size
    } else {
        0
    }
}

/// The sizes of the files `accepted`, as far as they were offered.
pub open spec fn accepted_sizes(
    outgoing: Map<Seq<char>, OutgoingModel>,
    accepted: Seq<(Seq<char>, Seq<char>)>,
) -> Seq<u64> {
    accepted.map_values(|file: (Seq<char>, Seq<char>)| offered_size(outgoing, file.0))
}

/// The size of those of the files `accepted` that were offered.
pub open spec fn accepted_size(
    outgoing: Map<Seq<char>, OutgoingModel>,
    accepted: Seq<(Seq<char>, Seq<char>)>,
) -> nat {
    sum(accepted_sizes(outgoing, accepted))
}

/// The files `keys` with their tokens.
pub open spec fn accepted_files(keys: Seq<Seq<char>>, tokens: Map<Seq<char>, Seq<char>>) -> Seq<
    (Seq<char>, Seq<char>),
> {
    keys.map_values(|k: Seq<char>| (k, tokens[k]))
}

/// The first place in `accepted`, at `from` or later, of a file that was
/// offered; the end where there is none.
pub open spec fn next_offered(
    outgoing: Map<Seq<char>, OutgoingModel>,
    accepted: Seq<(Seq<char>, Seq<char>)>,
    from: int,
) -> int
    decreases accepted.len() - from,
{
    if from >= accepted.len() {
        accepted.len() as int
    } else if outgoing.contains_key(accepted[from].0) {
        from
    } else {
        next_offered(outgoing, accepted, from + 1)
    }
}

/// A transfer in progress, with a file that is to be sent next.
#[derive(Debug)]
pub struct Transfer {
    base_url: String,
    peer_alias: String,
    session_id: String,
    outgoing: Table<OutgoingFile>,
    accepted: Vec<(String, String)>,
    current: usize,
    total: u64,
    sent: u64,
}

/// What a [`Transfer`] stands at: `accepted` are the files that the peer asked
/// for, with their tokens, of which the one at `current` is to be sent; of
/// `total` bytes `sent` are sent.
#[verifier::ext_equal]
pub struct TransferModel {
    pub base_url: Seq<char>,
    pub peer_alias: Seq<char>,
    pub session_id: Seq<char>,
    pub outgoing: Map<Seq<char>, OutgoingModel>,
    pub accepted: Seq<(Seq<char>, Seq<char>)>,
    pub current: int,
    pub total: u64,
    pub sent: u64,
}

impl DeepView for Transfer {
    type V = TransferModel;

    closed spec fn deep_view(&self) -> TransferModel {
        TransferModel {
            base_url: self.base_url@,
            peer_alias: self.peer_alias@,
            session_id: self.session_id@,
            outgoing: self.outgoing.deep_view(),
            accepted: self.accepted.deep_view(),
            current: self.current as int,
            total: self.total,
            sent: self.sent,
        }
    }
}

impl TransferModel {
    /// The identifier and the token of the file that is to be sent.
    pub open spec fn file(self) -> (Seq<char>, Seq<char>) {
        self.accepted[self.current]
    }

    /// The file that is to be sent.
    pub open spec fn outgoing_file(self) -> OutgoingModel {
        self.outgoing[self.file().0]
    }

    /// Whether the file that is to be sent was offered, and the bytes of the
    /// files before it are those that are sent, out of the bytes of all.
    pub open spec fn is_consistent(self) -> bool {
        &&& 0 <= self.current < self.accepted.len()
        &&& self.outgoing.contains_key(self.file().0)
        &&& self.sent as nat == accepted_size(self.outgoing, self.accepted.take(self.current))
        &&& self.total as nat == accepted_size(self.outgoing, self.accepted)
    }

    /// How the file that is to be sent is named in reports.
    pub open spec fn label(self) -> Seq<char> {
        self.outgoing_file().file_name + " to "@ + self.peer_alias
    }

    /// Where the file that is to be sent is posted to.
    pub open spec fn upload_url(self) -> Seq<char> {
        self.base_url + UPLOAD_PATH@ + "?sessionId="@ + self.session_id + "&fileId="@
            + self.file().0 + "&token="@ + self.file().1
    }

    /// Where the cancellation of this transfer is posted to.
    pub open spec fn cancel_url(self) -> Seq<char> {
        self.base_url + CANCEL_PATH@ + "?sessionId="@ + self.session_id
    }

    /// Going on with the first file at `from` or later that was offered, with
    /// `sent` bytes sent; the transfer is complete where there is none.
    pub open spec fn going_on(self, from: int, sent: u64) -> SendModel {
        let current = next_offered(self.outgoing, self.accepted, from);
        if current < self.accepted.len() {
            SendModel::Send(TransferModel { current, sent, ..self })
        } else {
            SendModel::Done(
                EventModel::TransferCompleted {
                    session_id: self.session_id,
                    message: "Successfully sent files to "@ + self.peer_alias,
                },
            )
        }
    }
}

impl Transfer {
    #[verifier::type_invariant]
    spec fn consistent(&self) -> bool {
        self.deep_view().is_consistent()
    }
}

/// What is to be done next for a transfer.
#[derive(Debug)]
pub enum SendStep {
    /// Send the file that the transfer stands at.
    Send(Transfer),
    /// The transfer has ended.
    Done(AppEvent),
}

/// What a [`SendStep`] says.
#[verifier::ext_equal]
pub enum SendModel {
    Send(TransferModel),
    Done(EventModel),
}

impl DeepView for SendStep {
    type V = SendModel;

    open spec fn deep_view(&self) -> SendModel {
        match *self {
            SendStep::Send(transfer) => SendModel::Send(transfer.deep_view()),
            SendStep::Done(event) => SendModel::Done(event.deep_view()),
        }
    }
}

/// The transfer of the files `accepted` of what was offered, before any is
/// sent.
pub open spec fn fresh_transfer(
    sending: SendingModel,
    session_id: Seq<char>,
    accepted: Seq<(Seq<char>, Seq<char>)>,
) -> TransferModel {
    TransferModel {
        base_url: sending.base_url,
        peer_alias: sending.peer_alias,
        session_id,
        outgoing: sending.outgoing,
        accepted,
        current: 0,
        total: accepted_size(sending.outgoing, accepted) as u64,
        sent: 0,
    }
}

/// How the transfer goes on with the response that asks for the files
/// `accepted` in the session `session_id`.
pub open spec fn beginning(
    sending: SendingModel,
    session_id: Seq<char>,
    accepted: Seq<(Seq<char>, Seq<char>)>,
) -> SendModel {
    if accepted.len() == 0 {
        SendModel::Done(
            EventModel::TransferCompleted {
                session_id,
                message: sending.peer_alias + " did not request any of the selected files"@,
            },
        )
    } else {
        fresh_transfer(sending, session_id, accepted).going_on(0, 0)
    }
}

proof fn lemma_accepted_size_grows(
    outgoing: Map<Seq<char>, OutgoingModel>,
    accepted: Seq<(Seq<char>, Seq<char>)>,
    n: int,
)
    requires
        0 <= n < accepted.len(),
    ensures
        accepted_size(outgoing, accepted.take(n + 1)) == accepted_size(outgoing, accepted.take(n))
            + offered_size(outgoing, accepted[n].0),
        accepted_size(outgoing, accepted.take(n + 1)) <= accepted_size(outgoing, accepted),
{
    let sizes = accepted_sizes(outgoing, accepted);
    lemma_sum_grows(sizes, n);
    assert(accepted_sizes(outgoing, accepted.take(n)) =~= sizes.take(n));
    assert(accepted_sizes(outgoing, accepted.take(n + 1)) =~= sizes.take(n + 1));
}

/// The next file that was offered is not before `from`, and the files that are
/// passed over on the way to it have no size that counts.
pub proof fn lemma_next_offered(
    outgoing: Map<Seq<char>, OutgoingModel>,
    accepted: Seq<(Seq<char>, Seq<char>)>,
    from: int,
)
    requires
        0 <= from <= accepted.len(),
    ensures
        from <= next_offered(outgoing, accepted, from) <= accepted.len(),
        next_offered(outgoing, accepted, from) < accepted.len() ==> outgoing.contains_key(
            accepted[next_offered(outgoing, accepted, from)].0,
        ),
        accepted_size(outgoing, accepted.take(next_offered(outgoing, accepted, from)))
            == accepted_size(outgoing, accepted.take(from)),
    decreases accepted.len() - from,
{
    if from < accepted.len() && !outgoing.contains_key(accepted[from].0) {
        lemma_next_offered(outgoing, accepted, from + 1);
        lemma_accepted_size_grows(outgoing, accepted, from);
    }
}

impl Sending {
    /// Where the request is posted to.
    pub fn prepare_url(&self) -> (r: String)
        ensures
            r@ == self.deep_view().base_url + PREPARE_UPLOAD_PATH@,
    {
        join2(self.base_url.as_str(), PREPARE_UPLOAD_PATH)
    }

    /// The request.
    pub fn request(&self) -> (r: &PrepareUploadReqDto)
        ensures
            r.deep_view() == self.deep_view().request,
    {
        &self.request
    }

    /// How the transfer ends with `reply`, or `None` where the response is to
    /// be read.
    pub fn prepare_reply(&self, reply: &PrepareReply) -> (r: Option<AppEvent>)
        ensures
            r.deep_view() == prepare_end(self.deep_view().peer_alias, *reply),
    {
        match reply {
            PrepareReply::Unreachable(error) => Some(
                failed("unknown", join2("Failed to connect to peer: ", error.as_str())),
            ),
            PrepareReply::Answered { code, text } => {
                let code: u16 = *code;
                if code == 204 {
                    Some(
                        completed(
                            "none",
                            join2(self.peer_alias.as_str(), " already has the selected files"),
                        ),
                    )
                } else if code == 403 {
                    Some(
                        failed(
                            "unknown",
                            join3(
                                "Transfer cancelled or declined by receiver (",
                                self.peer_alias.as_str(),
                                ")",
                            ),
                        ),
                    )
                } else if !(200 <= code && code < 300) {
                    Some(
                        failed(
                            "unknown",
                            join3(
                                "Receiver returned ",
                                text.as_str(),
                                " while preparing the transfer",
                            ),
                        ),
                    )
                } else {
                    None
                }
            },
            PrepareReply::Unreadable(error) => Some(
                failed(
                    "unknown",
                    join2("Transfer rejected or cancelled by peer: ", error.as_str()),
                ),
            ),
        }
    }

    /// The number of bytes that `response` asks for, or `None` where it is too
    /// large to count.
    pub fn accepted_bytes(&self, response: &PrepareUploadRespDto) -> (r: Option<u64>)
        ensures
            ({
                let size = accepted_size(
                    self.deep_view().outgoing,
                    accepted_files(response.files.keys(), response.files.deep_view()),
                );
                &&& r is Some <==> size <= u64::MAX
                &&& r matches Some(n) ==> n as nat == size
            }),
    {
        let n: usize = response.files.len();
        let ghost outgoing = self.deep_view().outgoing;
        let ghost accepted = accepted_files(response.files.keys(), response.files.deep_view());
        let mut sizes: Vec<u64> = Vec::new();
        let mut i: usize = 0;
        while i < n
            invariant
                i <= n,
                n == response.files.keys().len(),
                accepted == accepted_files(response.files.keys(), response.files.deep_view()),
                outgoing == self.deep_view().outgoing,
                sizes@.len() == i,
                forall|j: int|
                    0 <= j < i ==> (#[trigger] sizes@[j]) == offered_size(outgoing, accepted[j].0),
            decreases n - i,
        {
            let entry: (&String, &String) = response.files.entry(i);
            assert(accepted[i as int].0 == entry.0@);
            let size: u64 = match self.outgoing.get(entry.0.as_str()) {
                Some(file) => file.size,
                None => 0,
            };
            sizes.push(size);
            i = i + 1;
        }
        assert(sizes@ =~= accepted_sizes(outgoing, accepted));
        sum_up(&sizes)
    }

    /// Begins to send the files that `response` asks for.
    pub fn begin_transfer(self, response: PrepareUploadRespDto) -> (r: SendStep)
        requires
            accepted_size(
                self.deep_view().outgoing,
                accepted_files(response.files.keys(), response.files.deep_view()),
            ) <= u64::MAX,
        ensures
            r.deep_view() == beginning(
                self.deep_view(),
                response.session_id@,
                accepted_files(response.files.keys(), response.files.deep_view()),
            ),
            response.files.keys().no_duplicates(),
            response.files.keys().to_set() == response.files.deep_view().dom(),
    {
        let total: u64 = match self.accepted_bytes(&response) {
            Some(total) => total,
            None => 0,
        };
        let n: usize = response.files.len();
        let ghost keys = response.files.keys();
        let ghost tokens = response.files.deep_view();
        if n == 0 {
            return SendStep::Done(
                completed(
                    response.session_id.as_str(),
                    join2(
                        self.peer_alias.as_str(),
                        " did not request any of the selected files",
                    ),
                ),
            );
        }
        let mut accepted: Vec<(String, String)> = Vec::new();
        let mut i: usize = 0;
        while i < n
            invariant
                i <= n,
                n == response.files.keys().len(),
                keys == response.files.keys(),
                tokens == response.files.deep_view(),
                accepted@.len() == i,
                forall|j: int|
                    0 <= j < i ==> (#[trigger] accepted@[j]).deep_view() == (
                        keys[j],
                        tokens[keys[j]],
                    ),
            decreases n - i,
        {
            let entry: (&String, &String) = response.files.entry(i);
            accepted.push((entry.0.clone(), entry.1.clone()));
            i = i + 1;
        }
        assert(accepted.deep_view() =~= accepted_files(keys, tokens));
        proof {
            assert(accepted.deep_view().take(0) =~= Seq::<(Seq<char>, Seq<char>)>::empty());
        }
        go_on(
            self.base_url,
            self.peer_alias,
            response.session_id,
            self.outgoing,
            accepted,
            0,
            total,
            0,
        )
    }
}

fn go_on(
    base_url: String,
    peer_alias: String,
    session_id: String,
    outgoing: Table<OutgoingFile>,
    accepted: Vec<(String, String)>,
    from: usize,
    total: u64,
    sent: u64,
) -> (r: SendStep)
    requires
        from <= accepted@.len(),
        sent as nat == accepted_size(
            outgoing.deep_view(),
            accepted.deep_view().take(from as int),
        ),
        total as nat == accepted_size(outgoing.deep_view(), accepted.deep_view()),
    ensures
        r.deep_view() == (TransferModel {
            base_url: base_url@,
            peer_alias: peer_alias@,
            session_id: session_id@,
            outgoing: outgoing.deep_view(),
            accepted: accepted.deep_view(),
            current: 0,
            total,
            sent,
        }).going_on(from as int, sent),
{
    let ghost map = outgoing.deep_view();
    let ghost list = accepted.deep_view();
    let mut i: usize = from;
    while i < accepted.len() && !outgoing.contains_key(accepted[i].0.as_str())
        invariant
            from <= i <= accepted@.len(),
            map == outgoing.deep_view(),
            list == accepted.deep_view(),
            next_offered(map, list, from as int) == next_offered(map, list, i as int),
        decreases accepted@.len() - i,
    {
        assert(list[i as int].0 == accepted@[i as int].0@);
        i = i + 1;
    }
    proof {
        lemma_next_offered(map, list, from as int);
        if i < accepted@.len() {
            assert(list[i as int].0 == accepted@[i as int].0@);
        }
    }
    if i < accepted.len() {
        SendStep::Send(
            Transfer {
                base_url,
                peer_alias,
                session_id,
                outgoing,
                accepted,
                current: i,
                total,
                sent,
            },
        )
    } else {
        SendStep::Done(
            completed(
                session_id.as_str(),
                join2("Successfully sent files to ", peer_alias.as_str()),
            ),
        )
    }
}

// ---------------------------------------------------------------------------
// Sending
// ---------------------------------------------------------------------------

/// What came back for a file.
#[derive(Debug)]
pub enum UploadReply {
    /// The file could not be sent.
    NotSent(String),
    /// The peer answered with the status `code`, in words `text`.
    Answered { code: u16, text: String },
}

/// The progress of sending one file.
#[derive(Debug)]
pub struct Progress {
    session_id: String,
    label: String,
    counted: u64,
    total: u64,
}

/// What a [`Progress`] stands at: the name of the file in reports, and how
/// many bytes are counted of how many.
#[verifier::ext_equal]
pub struct ProgressModel {
    pub session_id: Seq<char>,
    pub label: Seq<char>,
    pub counted: u64,
    pub total: u64,
}

impl DeepView for Progress {
    type V = ProgressModel;

    closed spec fn deep_view(&self) -> ProgressModel {
        ProgressModel {
            session_id: self.session_id@,
            label: self.label@,
            counted: self.counted,
            total: self.total,
        }
    }
}

impl ProgressModel {
    /// The report of this progress.
    pub open spec fn report(self) -> EventModel {
        EventModel::TransferProgress {
            session_id: self.session_id,
            file_id: self.label,
            bytes_transferred: self.counted,
            total_bytes: self.total,
            is_upload: true,
        }
    }
}

impl Progress {
    /// Whether a chunk of `n` bytes can still be counted.
    pub fn can_count(&self, n: u64) -> (r: bool)
        ensures
            r == (self.deep_view().counted + n <= u64::MAX),
    {
        n <= u64::MAX - self.counted
    }

    /// Counts a chunk of `n` bytes, and reports it.
    pub fn chunk(&mut self, n: u64) -> (r: AppEvent)
        requires
            old(self).deep_view().counted + n <= u64::MAX,
        ensures
            final(self).deep_view() == (ProgressModel {
                counted: (old(self).deep_view().counted + n) as u64,
                ..old(self).deep_view()
            }),
            r.deep_view() == final(self).deep_view().report(),
    {
        self.counted = self.counted + n;
        AppEvent::TransferProgress {
            session_id: self.session_id.clone(),
            file_id: self.label.clone(),
            bytes_transferred: self.counted,
            total_bytes: self.total,
            is_upload: true,
        }
    }
}

/// How a transfer goes on when `reply` came back for the file that it stands
/// at, and what is reported before.
pub open spec fn send_step(transfer: TransferModel, reply: UploadReply) -> (
    Option<EventModel>,
    SendModel,
) {
    match reply {
        UploadReply::NotSent(error) => (
            None,
            SendModel::Done(
                EventModel::TransferFailed {
                    session_id: transfer.session_id,
                    error: "Upload cancelled or failed: "@ + error@,
                },
            ),
        ),
        UploadReply::Answered { code, text } => if is_success(code) {
            let sent = (transfer.sent + transfer.outgoing_file().size) as u64;
            let progress = ProgressModel {
                session_id: transfer.session_id,
                label: transfer.label(),
                counted: sent,
                total: transfer.total,
            };
            (Some(progress.report()), transfer.going_on(transfer.current + 1, sent))
        } else {
            (
                None,
                SendModel::Done(
                    EventModel::TransferFailed {
                        session_id: transfer.session_id,
                        error: if code == 403 {
                            "Transfer cancelled by receiver ("@ + transfer.peer_alias + ")"@
                        } else {
                            "Upload failed with status "@ + text@
                        },
                    },
                ),
            )
        },
    }
}

impl Transfer {
    fn outgoing_file(&self) -> (r: &OutgoingFile)
        ensures
            r.deep_view() == self.deep_view().outgoing_file(),
            self.deep_view().is_consistent(),
    {
        proof {
            use_type_invariant(self);
        }
        assert(self.deep_view().file().0 == self.accepted@[self.current as int].0@);
        match self.outgoing.get(self.accepted[self.current].0.as_str()) {
            Some(file) => file,
            None => {
                proof {
                    assert(false);
                }
                self.outgoing.entry(0).1
            },
        }
    }

    fn label(&self) -> (r: String)
        ensures
            r@ == self.deep_view().label(),
    {
        let file: &OutgoingFile = self.outgoing_file();
        join3(file.file_name.as_str(), " to ", self.peer_alias.as_str())
    }

    /// The place of the file that is to be sent among those that were given.
    pub fn source(&self) -> (r: usize)
        ensures
            self.deep_view().is_consistent(),
            r == self.deep_view().outgoing_file().source,
    {
        self.outgoing_file().source
    }

    /// Where the file that is to be sent is posted to.
    pub fn upload_url(&self) -> (r: String)
        ensures
            r@ == self.deep_view().upload_url(),
    {
        proof {
            use_type_invariant(self);
            assert(self.deep_view().file().0 == self.accepted@[self.current as int].0@);
            assert(self.deep_view().file().1 == self.accepted@[self.current as int].1@);
        }
        let file: &(String, String) = &self.accepted[self.current];
        let mut url: String = join2(self.base_url.as_str(), UPLOAD_PATH);
        url.append("?sessionId=");
        url.append(self.session_id.as_str());
        url.append("&fileId=");
        url.append(file.0.as_str());
        url.append("&token=");
        url.append(file.1.as_str());
        url
    }

    /// The progress of the file that is to be sent, before any of it is.
    pub fn progress(&self) -> (r: Progress)
        ensures
            r.deep_view() == (ProgressModel {
                session_id: self.deep_view().session_id,
                label: self.deep_view().label(),
                counted: self.deep_view().sent,
                total: self.deep_view().total,
            }),
    {
        Progress {
            session_id: self.session_id.clone(),
            label: self.label(),
            counted: self.sent,
            total: self.total,
        }
    }

    /// Ends a transfer whose next file, at `path`, cannot be opened for the
    /// reason `error`: what is reported, and where the cancellation is posted
    /// to.
    pub fn not_opened(&self, path: &str, error: &str) -> (r: (AppEvent, String))
        ensures
            r.0.deep_view() == (EventModel::TransferFailed {
                session_id: self.deep_view().session_id,
                error: "Failed to open file "@ + path@ + ": "@ + error@,
            }),
            r.1@ == self.deep_view().cancel_url(),
    {
        let mut reason: String = join3("Failed to open file ", path, ": ");
        reason.append(error);
        let mut url: String = join3(self.base_url.as_str(), CANCEL_PATH, "?sessionId=");
        url.append(self.session_id.as_str());
        (failed(self.session_id.as_str(), reason), url)
    }

    /// Takes note of what came back for the file that was sent: what is
    /// reported, and how the transfer goes on.
    pub fn uploaded(self, reply: UploadReply) -> (r: (Option<AppEvent>, SendStep))
        ensures
            self.deep_view().is_consistent(),
            r.0.deep_view() == send_step(self.deep_view(), reply).0,
            r.1.deep_view() == send_step(self.deep_view(), reply).1,
    {
        proof {
            use_type_invariant(&self);
        }
        match reply {
            UploadReply::NotSent(error) => (
                None,
                SendStep::Done(
                    failed(
                        self.session_id.as_str(),
                        join2("Upload cancelled or failed: ", error.as_str()),
                    ),
                ),
            ),
            UploadReply::Answered { code, text } => {
                if 200 <= code && code < 300 {
                    let size: u64 = self.outgoing_file().size;
                    let ghost model = self.deep_view();
                    proof {
                        let list = model.accepted;
                        let i = model.current;
                        lemma_accepted_size_grows(model.outgoing, list, i);
                        assert(self.current < self.accepted.len());
                    }
                    let sent: u64 = self.sent + size;
                    let report = AppEvent::TransferProgress {
                        session_id: self.session_id.clone(),
                        file_id: self.label(),
                        bytes_transferred: sent,
                        total_bytes: self.total,
                        is_upload: true,
                    };
                    let step = go_on(
                        self.base_url,
                        self.peer_alias,
                        self.session_id,
                        self.outgoing,
                        self.accepted,
                        self.current + 1,
                        self.total,
                        sent,
                    );
                    (Some(report), step)
                } else {
                    let error: String = if code == 403 {
                        join3("Transfer cancelled by receiver (", self.peer_alias.as_str(), ")")
                    } else {
                        join2("Upload failed with status ", text.as_str())
                    };
                    (None, SendStep::Done(failed(self.session_id.as_str(), error)))
                }
            },
        }
    }
}

// ---------------------------------------------------------------------------
// Laws
// ---------------------------------------------------------------------------

/// The media type of a file does not depend on the case in which its extension
/// is written.
pub proof fn law_case_of_extension_is_irrelevant(a: Seq<char>, b: Seq<char>)
    requires
        file_name_of(a) is Some,
        file_name_of(b) is Some,
        extension_of(file_name_of(a)->0) is Some,
        extension_of(file_name_of(b)->0) is Some,
        lowered(extension_of(file_name_of(a)->0)->0) == lowered(
            extension_of(file_name_of(b)->0)->0,
        ),
    ensures
        media_type(a) == media_type(b),
{
}

/// A file is stored by a receiver under the name that it has here: the name
/// under which it is offered is a safe one already.
pub proof fn law_offered_name_is_kept(id: Seq<char>, path: Seq<char>, size: u64)
    requires
        file_name_of(path) is Some,
    ensures
        safe_name(offer_of(id, path, size).file_name) == file_name_of(path)->0,
{
    law_file_name_is_plain(path);
    law_plain_name_is_its_file_name(file_name_of(path)->0);
}

/// What is offered is what can be sent: for every identifier, a file is
/// offered under it if and only if one can be sent for it, and the two have
/// the same name and size.
pub proof fn law_offers_can_be_sent(
    files: Seq<LocalFileModel>,
    ids: Seq<Seq<char>>,
    id: Seq<char>,
)
    requires
        ids.len() == files.len(),
        files.len() <= usize::MAX,
    ensures
        offers(files, ids).contains_key(id) <==> outgoing_files(files, ids).contains_key(id),
        offers(files, ids).contains_key(id) ==> {
            let outgoing = outgoing_files(files, ids)[id];
            let file = files[outgoing.source as int];
            &&& outgoing.source < files.len()
            &&& ids[outgoing.source as int] == id
            &&& outgoing.file_name == name_to_offer(file.path)
            &&& file.size == Some(outgoing.size)
            &&& offers(files, ids)[id] == offer_of(id, file.path, outgoing.size)
        },
    decreases files.len(),
{
    if files.len() > 0 {
        law_offers_can_be_sent(files.drop_last(), ids.drop_last(), id);
    }
}

/// Files with distinct identifiers are all offered, each under its own, but for
/// those that cannot be read.
pub proof fn law_distinct_files_are_all_offered(
    files: Seq<LocalFileModel>,
    ids: Seq<Seq<char>>,
    i: int,
)
    requires
        ids.len() == files.len(),
        ids.no_duplicates(),
        0 <= i < files.len(),
    ensures
        offers(files, ids).contains_key(ids[i]) <==> files[i].size is Some,
        files[i].size matches Some(size) ==> offers(files, ids)[ids[i]] == offer_of(
            ids[i],
            files[i].path,
            size,
        ),
    decreases files.len(),
{
    let rest = files.drop_last();
    let rest_ids = ids.drop_last();
    if i < rest.len() {
        law_distinct_files_are_all_offered(rest, rest_ids, i);
        assert(ids[i] != ids.last());
    } else {
        lemma_offered_identifiers(rest, rest_ids, ids[i]);
        assert(!rest_ids.contains(ids[i])) by {
            if rest_ids.contains(ids[i]) {
                let k = choose|k: int| 0 <= k < rest_ids.len() && rest_ids[k] == ids[i];
                assert(ids[k] == ids[i]);
            }
        }
    }
}

proof fn lemma_offered_identifiers(
    files: Seq<LocalFileModel>,
    ids: Seq<Seq<char>>,
    id: Seq<char>,
)
    requires
        ids.len() == files.len(),
    ensures
        offers(files, ids).contains_key(id) ==> ids.contains(id),
    decreases files.len(),
{
    if files.len() > 0 {
        let rest_ids = ids.drop_last();
        lemma_offered_identifiers(files.drop_last(), rest_ids, id);
        if rest_ids.contains(id) {
            let k = choose|k: int| 0 <= k < rest_ids.len() && rest_ids[k] == id;
            assert(ids[k] == id);
        }
        assert(ids[ids.len() - 1] == ids.last());
    }
}

/// A transfer that begins or goes on stands at a file that was offered; every
/// file between this one and the one that it stood at before was not.
pub proof fn law_transfers_go_forward(transfer: TransferModel, from: int, sent: u64)
    requires
        0 <= from <= transfer.accepted.len(),
        sent as nat == accepted_size(transfer.outgoing, transfer.accepted.take(from)),
        transfer.total as nat == accepted_size(transfer.outgoing, transfer.accepted),
    ensures
        transfer.going_on(from, sent) matches SendModel::Send(next) ==> {
            &&& next.is_consistent()
            &&& from <= next.current
            &&& forall|i: int|
                from <= i < next.current ==> !transfer.outgoing.contains_key(
                    (#[trigger] transfer.accepted[i]).0,
                )
        },
        transfer.going_on(from, sent) is Done ==> forall|i: int|
            from <= i < transfer.accepted.len() ==> !transfer.outgoing.contains_key(
                (#[trigger] transfer.accepted[i]).0,
            ),
    decreases transfer.accepted.len() - from,
{
    lemma_next_offered(transfer.outgoing, transfer.accepted, from);
    if from < transfer.accepted.len() && !transfer.outgoing.contains_key(
        transfer.accepted[from].0,
    ) {
        lemma_accepted_size_grows(transfer.outgoing, transfer.accepted, from);
        law_transfers_go_forward(transfer, from + 1, sent);
    }
}

/// Of a transfer in progress, the file that is sent fits in what is left of
/// the total; and when the transfer is complete, everything is counted.
pub proof fn law_completed_transfers_are_counted(transfer: TransferModel, reply: UploadReply)
    requires
        transfer.is_consistent(),
        reply matches UploadReply::Answered { code, text } && is_success(code),
    ensures
        transfer.sent + transfer.outgoing_file().size <= transfer.total,
        send_step(transfer, reply).1 is Done ==> {
            &&& transfer.sent + transfer.outgoing_file().size == transfer.total
            &&& send_step(transfer, reply).1 == SendModel::Done(
                EventModel::TransferCompleted {
                    session_id: transfer.session_id,
                    message: "Successfully sent files to "@ + transfer.peer_alias,
                },
            )
        },
        send_step(transfer, reply).1 matches SendModel::Send(next) ==> next.is_consistent()
            && next.current > transfer.current && next.total == transfer.total,
{
    let list = transfer.accepted;
    let i = transfer.current;
    lemma_accepted_size_grows(transfer.outgoing, list, i);
    let sent = (transfer.sent + transfer.outgoing_file().size) as u64;
    law_transfers_go_forward(transfer, i + 1, sent);
    lemma_next_offered(transfer.outgoing, list, i + 1);
    assert(list.take(list.len() as int) =~= list);
}

/// The files that are sent from here on, with their tokens, as long as the peer
/// answers each with success.
pub open spec fn files_sent(transfer: TransferModel) -> Seq<(Seq<char>, Seq<char>)>
    decreases transfer.accepted.len() - transfer.current,
{
    if 0 <= transfer.current < transfer.accepted.len() {
        proof {
            lemma_next_offered(transfer.outgoing, transfer.accepted, transfer.current + 1);
        }
        let sent = (transfer.sent + transfer.outgoing_file().size) as u64;
        match transfer.going_on(transfer.current + 1, sent) {
            SendModel::Send(next) => seq![transfer.file()] + files_sent(next),
            SendModel::Done(_) => seq![transfer.file()],
        }
    } else {
        Seq::empty()
    }
}

/// Those of the files `accepted`, at `from` or later, that were offered.
pub open spec fn offered_from(
    outgoing: Map<Seq<char>, OutgoingModel>,
    accepted: Seq<(Seq<char>, Seq<char>)>,
    from: int,
) -> Seq<(Seq<char>, Seq<char>)>
    decreases accepted.len() - from,
{
    if from >= accepted.len() {
        Seq::empty()
    } else if outgoing.contains_key(accepted[from].0) {
        seq![accepted[from]] + offered_from(outgoing, accepted, from + 1)
    } else {
        offered_from(outgoing, accepted, from + 1)
    }
}

proof fn lemma_offered_from_next(
    outgoing: Map<Seq<char>, OutgoingModel>,
    accepted: Seq<(Seq<char>, Seq<char>)>,
    from: int,
)
    requires
        0 <= from <= accepted.len(),
    ensures
        offered_from(outgoing, accepted, from) == offered_from(
            outgoing,
            accepted,
            next_offered(outgoing, accepted, from),
        ),
    decreases accepted.len() - from,
{
    if from < accepted.len() && !outgoing.contains_key(accepted[from].0) {
        lemma_offered_from_next(outgoing, accepted, from + 1);
    }
}

proof fn lemma_files_sent(transfer: TransferModel)
    requires
        0 <= transfer.current < transfer.accepted.len(),
        transfer.outgoing.contains_key(transfer.file().0),
    ensures
        files_sent(transfer) == offered_from(
            transfer.outgoing,
            transfer.accepted,
            transfer.current,
        ),
    decreases transfer.accepted.len() - transfer.current,
{
    let outgoing = transfer.outgoing;
    let accepted = transfer.accepted;
    let from = transfer.current + 1;
    lemma_next_offered(outgoing, accepted, from);
    lemma_offered_from_next(outgoing, accepted, from);
    let sent = (transfer.sent + transfer.outgoing_file().size) as u64;
    match transfer.going_on(from, sent) {
        SendModel::Send(next) => {
            lemma_files_sent(next);
        },
        SendModel::Done(_) => {
            assert(offered_from(outgoing, accepted, from) =~= Seq::empty());
            assert(seq![transfer.file()] + Seq::<(Seq<char>, Seq<char>)>::empty()
                =~= seq![transfer.file()]);
        },
    }
}

/// Of the files that a peer asks for, exactly those that were offered are sent,
/// each as often as it was asked for and in the order of the response, where
/// the peer answers each with success.
pub proof fn law_requested_files_are_sent(
    sending: SendingModel,
    session_id: Seq<char>,
    accepted: Seq<(Seq<char>, Seq<char>)>,
)
    ensures
        match beginning(sending, session_id, accepted) {
            SendModel::Send(transfer) => files_sent(transfer) == offered_from(
                sending.outgoing,
                accepted,
                0,
            ),
            SendModel::Done(_) => offered_from(sending.outgoing, accepted, 0).len() == 0,
        },
{
    lemma_next_offered(sending.outgoing, accepted, 0);
    lemma_offered_from_next(sending.outgoing, accepted, 0);
    match beginning(sending, session_id, accepted) {
        SendModel::Send(transfer) => {
            lemma_files_sent(transfer);
        },
        SendModel::Done(_) => {},
    }
}

/// Sender and receiver agree on tokens: where a receiver has opened a session
/// and answered with its tokens, the upload of every file that it asked for
/// begins, whatever other sessions it has.
pub proof fn law_requested_uploads_begin(
    sessions: SessionsModel,
    session_id: Seq<char>,
    files: Seq<FileModel>,
    tokens: Seq<Seq<char>>,
    keys: Seq<Seq<char>>,
    i: int,
)
    requires
        tokens.len() == files.len(),
        keys.to_set() == tokens_by_id(files, tokens).dom(),
        0 <= i < keys.len(),
    ensures
        ({
            let asked = accepted_files(keys, tokens_by_id(files, tokens))[i];
            upload::beginning(
                sessions.insert(session_id, session_for(files, tokens)),
                session_id,
                asked.0,
                asked.1,
            ) is Ok
        }),
{
    assert(keys.to_set().contains(keys[i]));
    law_each_file_has_a_token(files, tokens, keys[i]);
}

/// Every file that can be read is offered with exactly as many bytes as it has,
/// and under its own name; when the file is sent it is counted with the same
/// number, and read from its place. Only where a later file has the same
/// identifier is that one offered in its place.
pub proof fn law_offers_have_the_size_of_the_file(
    client: LocalSendClient,
    peer: PeerModel,
    files: Seq<LocalFileModel>,
    ids: Seq<Seq<char>>,
    i: int,
)
    requires
        ids.len() == files.len(),
        files.len() <= usize::MAX,
        0 <= i < files.len(),
        files[i].size is Some,
        forall|j: int|
            i < j < files.len() && (#[trigger] files[j]).size is Some ==> ids[j] != ids[i],
    ensures
        ({
            let sending = client.sending(peer, files, ids);
            let offer = sending.request.files[ids[i]];
            let outgoing = sending.outgoing[ids[i]];
            &&& sending.request.files.contains_key(ids[i])
            &&& Some(offer.size) == files[i].size
            &&& offer.id == ids[i]
            &&& file_name_of(files[i].path) is Some ==> Some(offer.file_name) == file_name_of(
                files[i].path,
            )
            &&& file_name_of(files[i].path) is None ==> offer.file_name.len() == 0
            &&& offer.file_type == Some(media_type(files[i].path))
            &&& offer.sha256 is None
            &&& offer.preview is None
            &&& offer.metadata is None
            &&& sending.outgoing.contains_key(ids[i])
            &&& Some(outgoing.size) == files[i].size
            &&& outgoing.file_name == offer.file_name
            &&& outgoing.source == i
        }),
    decreases files.len(),
{
    if i < files.len() - 1 {
        let rest = files.drop_last();
        let rest_ids = ids.drop_last();
        assert forall|j: int| i < j < rest.len() && (#[trigger] rest[j]).size is Some implies
            rest_ids[j] != rest_ids[i] by {
            assert(rest[j] == files[j]);
        }
        law_offers_have_the_size_of_the_file(client, peer, rest, rest_ids, i);
        assert(files[files.len() - 1] == files.last());
        assert(ids[ids.len() - 1] == ids.last());
    }
}

/// Whatever is offered is a file that can be read, with its size; nothing is
/// offered where nothing can be read.
pub proof fn law_only_readable_files_are_offered(
    client: LocalSendClient,
    peer: PeerModel,
    files: Seq<LocalFileModel>,
    ids: Seq<Seq<char>>,
    id: Seq<char>,
)
    requires
        ids.len() == files.len(),
        files.len() <= usize::MAX,
    ensures
        ({
            let sending = client.sending(peer, files, ids);
            &&& sending.request.files.contains_key(id) ==> exists|i: int|
                0 <= i < files.len() && ids[i] == id && (#[trigger] files[i]).size == Some(
                    sending.request.files[id].size,
                )
            &&& (forall|i: int| 0 <= i < files.len() ==> (#[trigger] files[i]).size is None)
                ==> !any_readable(files)
            &&& any_readable(files) ==> sending.request.files.dom() != Set::<Seq<char>>::empty()
        }),
{
    law_offers_can_be_sent(files, ids, id);
    if offers(files, ids).contains_key(id) {
        let source = outgoing_files(files, ids)[id].source as int;
        assert(files[source].size == Some(offers(files, ids)[id].size));
    }
    if any_readable(files) {
        let last = lemma_last_readable(files);
        law_offers_have_the_size_of_the_file(client, peer, files, ids, last);
        assert(offers(files, ids).dom().contains(ids[last]));
    }
}

proof fn lemma_last_readable(files: Seq<LocalFileModel>) -> (last: int)
    requires
        any_readable(files),
    ensures
        0 <= last < files.len(),
        files[last].size is Some,
        forall|j: int| last < j < files.len() ==> (#[trigger] files[j]).size is None,
    decreases files.len(),
{
    let i = choose|i: int| 0 <= i < files.len() && (#[trigger] files[i]).size is Some;
    let rest = files.drop_last();
    if files.last().size is Some {
        files.len() - 1
    } else {
        assert(rest[i].size is Some);
        let last = lemma_last_readable(rest);
        assert forall|j: int| last < j < files.len() implies (#[trigger] files[j]).size is None by {
            if j < files.len() - 1 {
                assert(rest[j] == files[j]);
            }
        }
        last
    }
}

/// The bytes that a peer is told of for a file are the bytes that are counted
/// when it has taken the file: the report of it counts as many more as the offer
/// said.
pub proof fn law_sent_files_count_what_was_offered(
    client: LocalSendClient,
    peer: PeerModel,
    files: Seq<LocalFileModel>,
    ids: Seq<Seq<char>>,
    transfer: TransferModel,
    reply: UploadReply,
)
    requires
        ids.len() == files.len(),
        files.len() <= usize::MAX,
        transfer.is_consistent(),
        transfer.outgoing == client.sending(peer, files, ids).outgoing,
        reply matches UploadReply::Answered { code, text } && 200 <= code < 300,
    ensures
        ({
            let offer = client.sending(peer, files, ids).request.files[transfer.file().0];
            &&& client.sending(peer, files, ids).request.files.contains_key(transfer.file().0)
            &&& send_step(transfer, reply).0 matches Some(
                EventModel::TransferProgress {
                    session_id,
                    file_id,
                    bytes_transferred,
                    total_bytes,
                    is_upload,
                },
            )
            &&& session_id == transfer.session_id
            &&& file_id == offer.file_name + " to "@ + transfer.peer_alias
            &&& bytes_transferred == transfer.sent + offer.size
            &&& total_bytes == transfer.total
            &&& is_upload
        }),
{
    law_offers_can_be_sent(files, ids, transfer.file().0);
    law_completed_transfers_are_counted(transfer, reply);
}

/// A request says who this device is, and is made at the address of the peer.
pub proof fn law_requests_are_of_this_device(
    client: LocalSendClient,
    peer: PeerModel,
    files: Seq<LocalFileModel>,
    ids: Seq<Seq<char>>,
)
    ensures
        ({
            let sending = client.sending(peer, files, ids);
            &&& sending.base_url == peer.protocol + "://"@ + (peer.ip + ":"@ + decimal(
                peer.port as nat,
            ))
            &&& sending.peer_alias == peer.alias
            &&& sending.request.info.alias == client.alias@
            &&& sending.request.info.fingerprint == client.fingerprint@
            &&& sending.request.info.port == Some(client.port)
            &&& sending.request.info.protocol == Some("https"@)
            &&& sending.request.info.version == "2.2"@
            &&& sending.request.info.announce is None
        }),
{
}

/// The media type of a file goes by what comes after the last dot of its name;
/// a file without such a part, or with another one, is taken for bytes of any
/// kind.
pub proof fn law_media_types_go_by_extension(
    directory: Seq<char>,
    stem: Seq<char>,
    extension: Seq<char>,
)
    requires
        stem.len() > 0,
        !extension.contains('.'),
        !stem.contains('/'),
        !extension.contains('/'),
        stem + "."@ + extension != ".."@,
    ensures
        ({
            let path = directory + "/"@ + (stem + "."@ + extension);
            let e = lowered(extension);
            &&& media_type(path) == "text/plain"@ <==> e == "txt"@ || e == "md"@ || e == "log"@
            &&& media_type(path) == "application/json"@ <==> e == "json"@
            &&& media_type(path) == "image/png"@ <==> e == "png"@
            &&& media_type(path) == "image/jpeg"@ <==> e == "jpg"@ || e == "jpeg"@
            &&& media_type(path) == "image/gif"@ <==> e == "gif"@
            &&& media_type(path) == "application/pdf"@ <==> e == "pdf"@
            &&& media_type(path) == "application/octet-stream"@ || media_type(path)
                == "text/plain"@ || media_type(path) == "application/json"@ || media_type(path)
                == "image/png"@ || media_type(path) == "image/jpeg"@ || media_type(path)
                == "image/gif"@ || media_type(path) == "application/pdf"@
            &&& media_type(stem + "."@ + extension) == media_type(path)
            &&& media_type(extension) == "application/octet-stream"@
            &&& media_type("."@ + extension) == "application/octet-stream"@
            &&& media_type(directory + "/.."@) == "application/octet-stream"@
        }),
{
    reveal_strlit(".");
    reveal_strlit("..");
    reveal_strlit("txt");
    reveal_strlit("md");
    reveal_strlit("log");
    reveal_strlit("json");
    reveal_strlit("png");
    reveal_strlit("jpg");
    reveal_strlit("jpeg");
    reveal_strlit("gif");
    reveal_strlit("pdf");
    reveal_strlit("text/plain");
    reveal_strlit("application/json");
    reveal_strlit("image/png");
    reveal_strlit("image/jpeg");
    reveal_strlit("image/gif");
    reveal_strlit("application/pdf");
    reveal_strlit("application/octet-stream");
    law_dotted_names_have_an_extension(directory, stem, extension);
    law_extension_follows_the_last_dot(stem, extension);
    let hidden = "."@ + extension;
    if extension.len() > 0 {
        if extension == "."@ || extension == ".."@ {
            assert(extension[0] == '.');
        }
        law_last_part_is_the_name(directory, extension);
        assert(!hidden.contains('/')) by {
            if hidden.contains('/') {
                let i = choose|i: int| 0 <= i < hidden.len() && hidden[i] == '/';
                assert(i > 0);
                assert(extension[i - 1] == '/');
            }
        }
        assert(hidden != "."@) by {
            assert(hidden.len() >= 2);
        }
        assert(hidden != ".."@) by {
            if hidden == ".."@ {
                assert(extension[0] == hidden[1]);
            }
        }
        law_last_part_is_the_name(directory, hidden);
    } else {
        reveal_strlit("");
        assert(hidden =~= "."@);
        assert(extension =~= ""@);
        assert(!stem.contains('/'));
        let name = stem + "."@ + extension;
        assert(name != "."@ && name.len() > 0);
        assert(!name.contains('/')) by {
            if name.contains('/') {
                let i = choose|i: int| 0 <= i < name.len() && name[i] == '/';
                assert(i < stem.len());
                assert(stem[i] == '/');
            }
        }
        law_last_part_is_the_name(directory, name);
    }
    assert("application/json"@.len() != "image/png"@.len());
    assert("text/plain"@[0] != "image/jpeg"@[0]);
    assert("text/plain"@[0] != "image/gif"@[0]);
    assert("image/png"@[6] != "image/gif"@[6]);
    assert("text/plain"@.len() == 10);
    assert("image/jpeg"@.len() == 10);
    assert("application/json"@.len() == 16);
    assert("application/pdf"@.len() == 15);
    assert("application/octet-stream"@.len() == 24);
    assert("image/png"@.len() == 9);
    assert("image/gif"@.len() == 9);
    assert("txt"@.len() == 3 && "md"@.len() == 2 && "log"@.len() == 3 && "json"@.len() == 4
        && "png"@.len() == 3 && "jpg"@.len() == 3 && "jpeg"@.len() == 4 && "gif"@.len() == 3
        && "pdf"@.len() == 3);
    assert("txt"@[0] == 't' && "log"@[0] == 'l' && "png"@[0] == 'p' && "png"@[1] == 'n'
        && "pdf"@[0] == 'p' && "pdf"@[1] == 'd' && "jpg"@[0] == 'j' && "gif"@[0] == 'g');
    assert("json"@[1] == 's' && "jpeg"@[1] == 'p');
}

/// A requested transfer goes on exactly where the peer answers with success and
/// content; a peer that has the files already ends it with success, and anything
/// else with failure, under the reason.
pub proof fn law_requests_end_as_answered(peer_alias: Seq<char>, reply: PrepareReply)
    ensures
        ({
            let end = prepare_end(peer_alias, reply);
            match reply {
                PrepareReply::Answered { code, text } => {
                    &&& end is None <==> 200 <= code <= 299 && code != 204
                    &&& code == 204 ==> end == Some(
                        (EventModel::TransferCompleted {
                            session_id: "none"@,
                            message: peer_alias + " already has the selected files"@,
                        }),
                    )
                    &&& code == 403 ==> end == Some(
                        (EventModel::TransferFailed {
                            session_id: "unknown"@,
                            error: "Transfer cancelled or declined by receiver ("@ + peer_alias
                                + ")"@,
                        }),
                    )
                    &&& code != 403 && !(200 <= code <= 299) ==> end == Some(
                        (EventModel::TransferFailed {
                            session_id: "unknown"@,
                            error: "Receiver returned "@ + text@ + " while preparing the transfer"@,
                        }),
                    )
                },
                PrepareReply::Unreachable(error) => end == Some(
                    (EventModel::TransferFailed {
                        session_id: "unknown"@,
                        error: "Failed to connect to peer: "@ + error@,
                    }),
                ),
                PrepareReply::Unreadable(error) => end == Some(
                    (EventModel::TransferFailed {
                        session_id: "unknown"@,
                        error: "Transfer rejected or cancelled by peer: "@ + error@,
                    }),
                ),
            }
        }),
{
}

/// What is asked for is counted file by file: each adds the bytes that it was
/// offered with, and nothing where it was not offered.
pub proof fn law_accepted_files_are_counted_one_by_one(
    outgoing: Map<Seq<char>, OutgoingModel>,
    accepted: Seq<(Seq<char>, Seq<char>)>,
    file: (Seq<char>, Seq<char>),
)
    ensures
        accepted_size(outgoing, Seq::empty()) == 0,
        outgoing.contains_key(file.0) ==> accepted_size(outgoing, accepted.push(file))
            == accepted_size(outgoing, accepted) + outgoing[file.0].size,
        !outgoing.contains_key(file.0) ==> accepted_size(outgoing, accepted.push(file))
            == accepted_size(outgoing, accepted),
{
    assert(accepted_sizes(outgoing, accepted.push(file)).drop_last() =~= accepted_sizes(
        outgoing,
        accepted,
    ));
}

/// The files of a response are taken in its order, each with its token.
pub proof fn law_accepted_files_keep_their_tokens(
    keys: Seq<Seq<char>>,
    tokens: Map<Seq<char>, Seq<char>>,
    i: int,
)
    ensures
        accepted_files(keys, tokens).len() == keys.len(),
        0 <= i < keys.len() ==> accepted_files(keys, tokens)[i].0 == keys[i] && accepted_files(
            keys,
            tokens,
        )[i].1 == tokens[keys[i]],
{
}

/// A transfer begins with the first file of the response that was offered, with
/// nothing sent of as many bytes as the response asks for, at the address of the
/// request. Where none was offered it is complete at once, and says so.
pub proof fn law_transfers_begin_with_nothing_sent(
    sending: SendingModel,
    session_id: Seq<char>,
    accepted: Seq<(Seq<char>, Seq<char>)>,
)
    requires
        accepted_size(sending.outgoing, accepted) <= u64::MAX,
    ensures
        match beginning(sending, session_id, accepted) {
            SendModel::Send(transfer) => {
                &&& transfer.base_url == sending.base_url
                &&& transfer.peer_alias == sending.peer_alias
                &&& transfer.session_id == session_id
                &&& transfer.outgoing == sending.outgoing
                &&& transfer.accepted == accepted
                &&& transfer.sent == 0
                &&& transfer.total as nat == accepted_size(sending.outgoing, accepted)
                &&& 0 <= transfer.current < accepted.len()
                &&& sending.outgoing.contains_key(accepted[transfer.current].0)
                &&& forall|i: int|
                    0 <= i < transfer.current ==> !sending.outgoing.contains_key(
                        (#[trigger] accepted[i]).0,
                    )
            },
            SendModel::Done(event) => {
                &&& forall|i: int|
                    0 <= i < accepted.len() ==> !sending.outgoing.contains_key(
                        (#[trigger] accepted[i]).0,
                    )
                &&& event == (EventModel::TransferCompleted {
                    session_id,
                    message: if accepted.len() == 0 {
                        sending.peer_alias + " did not request any of the selected files"@
                    } else {
                        "Successfully sent files to "@ + sending.peer_alias
                    },
                })
            },
        },
{
    assert(accepted.take(0) =~= Seq::empty());
    assert(accepted_sizes(sending.outgoing, Seq::empty()) =~= Seq::empty());
    lemma_next_offered(sending.outgoing, accepted, 0);
    if accepted.len() > 0 {
        law_transfers_go_forward(fresh_transfer(sending, session_id, accepted), 0, 0);
    }
}

/// A transfer goes on with the same peer, session and files after a file was
/// taken, with the bytes of that file counted.
pub proof fn law_transfers_keep_their_session(transfer: TransferModel, reply: UploadReply)
    requires
        transfer.is_consistent(),
    ensures
        send_step(transfer, reply).1 matches SendModel::Send(next) ==> {
            &&& reply matches UploadReply::Answered { code, text }
            &&& 200 <= code <= 299
            &&& next.base_url == transfer.base_url
            &&& next.peer_alias == transfer.peer_alias
            &&& next.session_id == transfer.session_id
            &&& next.outgoing == transfer.outgoing
            &&& next.accepted == transfer.accepted
            &&& next.total == transfer.total
            &&& next.sent == transfer.sent
                + transfer.outgoing[transfer.accepted[transfer.current].0].size
        },
{
    if reply matches UploadReply::Answered { code, text } && is_success(code) {
        law_completed_transfers_are_counted(transfer, reply);
    }
}

/// A file that was not taken ends the transfer with failure, under the reason
/// and with nothing reported before.
pub proof fn law_files_not_taken_end_the_transfer(transfer: TransferModel, reply: UploadReply)
    ensures
        match reply {
            UploadReply::NotSent(error) => {
                &&& send_step(transfer, reply).0 is None
                &&& send_step(transfer, reply).1 == SendModel::Done(
                    (EventModel::TransferFailed {
                        session_id: transfer.session_id,
                        error: "Upload cancelled or failed: "@ + error@,
                    }),
                )
            },
            UploadReply::Answered { code, text } => {
                &&& send_step(transfer, reply).0 is None <==> !(200 <= code <= 299)
                &&& code == 403 ==> send_step(transfer, reply).1 == SendModel::Done(
                    (EventModel::TransferFailed {
                        session_id: transfer.session_id,
                        error: "Transfer cancelled by receiver ("@ + transfer.peer_alias + ")"@,
                    }),
                )
                &&& code != 403 && !(200 <= code <= 299) ==> send_step(transfer, reply).1
                    == SendModel::Done(
                    (EventModel::TransferFailed {
                        session_id: transfer.session_id,
                        error: "Upload failed with status "@ + text@,
                    }),
                )
            },
        },
{
}

/// A file is posted to the peer under the session, its identifier and its token;
/// a cancellation goes to the peer under the session.
pub proof fn law_files_are_posted_under_their_token(transfer: TransferModel)
    ensures
        transfer.upload_url() == transfer.base_url + "/api/localsend/v2/upload"@ + "?sessionId="@
            + transfer.session_id + "&fileId="@ + transfer.accepted[transfer.current].0
            + "&token="@ + transfer.accepted[transfer.current].1,
        transfer.cancel_url() == transfer.base_url + "/api/localsend/v2/cancel"@ + "?sessionId="@
            + transfer.session_id,
        transfer.file() == transfer.accepted[transfer.current],
        transfer.outgoing_file() == transfer.outgoing[transfer.accepted[transfer.current].0],
        transfer.label() == transfer.outgoing[transfer.accepted[transfer.current].0].file_name
            + " to "@ + transfer.peer_alias,
{
}

/// A report of progress is one of an upload, with the bytes that are counted.
pub proof fn law_progress_is_reported_as_counted(progress: ProgressModel)
    ensures
        progress.report() == (EventModel::TransferProgress {
            session_id: progress.session_id,
            file_id: progress.label,
            bytes_transferred: progress.counted,
            total_bytes: progress.total,
            is_upload: true,
        }),
{
}

/// What is known of a file is its path and its size, and of a file that was
/// offered its name, its size and its place.
pub proof fn law_files_are_known_by_path_and_size(file: LocalFile, outgoing: OutgoingFile)
    ensures
        file.deep_view().path == file.path@,
        file.deep_view().size == file.size,
        outgoing.deep_view().file_name == outgoing.file_name@,
        outgoing.deep_view().size == outgoing.size,
        outgoing.deep_view().source == outgoing.source,
{
}

/// A request that offers files has, for every file that could be read, an offer
/// whose size is exactly the number of bytes of that file, under its own name; the
/// same number is counted for it when it is sent. With nothing to read there is no
/// request.
pub proof fn law_requests_offer_files_in_full(
    client: &LocalSendClient,
    peer: &Peer,
    files: &Vec<LocalFile>,
    ids: Vec<String>,
    r: Result<Sending, AppEvent>,
    i: int,
)
    requires
        call_ensures(LocalSendClient::offer_files, (client, peer, files, ids), r),
        ids@.len() == files@.len(),
        files@.len() <= usize::MAX,
        0 <= i < files@.len(),
        files@[i].size is Some,
        forall|j: int|
            i < j < files@.len() && (#[trigger] files@[j]).size is Some ==> ids@[j]@ != ids@[i]@,
    ensures
        r is Ok,
        ({
            let sending = r->Ok_0.deep_view();
            let id = ids@[i]@;
            &&& sending.request.files.contains_key(id)
            &&& Some(sending.request.files[id].size) == files@[i].size
            &&& sending.request.files[id].id == id
            &&& file_name_of(files@[i].path@) is Some ==> Some(sending.request.files[id].file_name)
                == file_name_of(files@[i].path@)
            &&& sending.request.files[id].file_type == Some(media_type(files@[i].path@))
            &&& sending.outgoing.contains_key(id)
            &&& Some(sending.outgoing[id].size) == files@[i].size
            &&& sending.outgoing[id].source == i
            &&& sending.peer_alias == peer.alias@
            &&& sending.request.info.alias == client.alias@
            &&& sending.request.info.fingerprint == client.fingerprint@
            &&& sending.base_url == peer.protocol@ + "://"@ + (peer.ip@ + ":"@ + decimal(
                peer.port as nat,
            ))
        }),
{
    let models = files.deep_view();
    let all = ids.deep_view();
    assert(models[i] == files@[i].deep_view());
    assert(all[i] == ids@[i]@);
    assert(any_readable(models)) by {
        assert(models[i].size is Some);
    }
    assert forall|j: int| i < j < models.len() && (#[trigger] models[j]).size is Some implies
        all[j] != all[i] by {
        assert(models[j] == files@[j].deep_view());
        assert(all[j] == ids@[j]@);
    }
    law_offers_have_the_size_of_the_file(*client, peer.deep_view(), models, all, i);
    law_requests_are_of_this_device(*client, peer.deep_view(), models, all);
}

/// Without a file that could be read nothing is requested, and it is said so.
pub proof fn law_nothing_is_requested_without_files(
    client: &LocalSendClient,
    peer: &Peer,
    files: &Vec<LocalFile>,
    ids: Vec<String>,
    r: Result<Sending, AppEvent>,
)
    requires
        call_ensures(LocalSendClient::offer_files, (client, peer, files, ids), r),
        ids@.len() == files@.len(),
    ensures
        r is Err <==> forall|i: int| 0 <= i < files@.len() ==> (#[trigger] files@[i]).size is None,
        r is Err ==> r->Err_0 is StatusMessage && r->Err_0->StatusMessage_0@
            == "No valid files to send"@,
{
    let models = files.deep_view();
    if any_readable(models) {
        let i = choose|i: int| 0 <= i < models.len() && (#[trigger] models[i]).size is Some;
        assert(files@[i].size is Some);
    } else {
        assert forall|i: int| 0 <= i < files@.len() implies (#[trigger] files@[i]).size is None by {
            assert(models[i] == files@[i].deep_view());
        }
    }
}

/// The answer to a request decides whether it goes on: only success with content
/// does.
pub proof fn law_answers_decide_on_requests(
    sending: &Sending,
    reply: &PrepareReply,
    r: Option<AppEvent>,
    url: String,
)
    requires
        call_ensures(Sending::prepare_reply, (sending, reply), r),
        call_ensures(Sending::prepare_url, (sending,), url),
    ensures
        url@ == sending.deep_view().base_url + "/api/localsend/v2/prepare-upload"@,
        match reply {
            PrepareReply::Answered { code, text } => {
                &&& r is None <==> 200 <= *code <= 299 && *code != 204
                &&& *code == 204 <==> r is Some && r->0 is TransferCompleted
                &&& *code == 403 ==> r is Some && r->0 is TransferFailed && r->0->error@
                    == "Transfer cancelled or declined by receiver ("@
                    + sending.deep_view().peer_alias + ")"@
            },
            _ => r is Some && r->0 is TransferFailed,
        },
{
    law_requests_end_as_answered(sending.deep_view().peer_alias, *reply);
}

/// A transfer begins with nothing sent of the bytes that the response asks for,
/// at the first file of it that was offered.
pub proof fn law_transfers_begin_as_asked(
    sending: Sending,
    response: PrepareUploadRespDto,
    step: SendStep,
)
    requires
        call_ensures(Sending::begin_transfer, (sending, response), step),
        accepted_size(
            sending.deep_view().outgoing,
            accepted_files(response.files.keys(), response.files.deep_view()),
        ) <= u64::MAX,
    ensures
        match step {
            SendStep::Send(transfer) => {
                let model = transfer.deep_view();
                &&& model.sent == 0
                &&& model.total as nat == accepted_size(model.outgoing, model.accepted)
                &&& model.accepted == accepted_files(
                    response.files.keys(),
                    response.files.deep_view(),
                )
                &&& model.session_id == response.session_id@
                &&& model.outgoing == sending.deep_view().outgoing
                &&& model.peer_alias == sending.deep_view().peer_alias
                &&& model.base_url == sending.deep_view().base_url
                &&& sending.deep_view().outgoing.contains_key(model.accepted[model.current].0)
            },
            SendStep::Done(event) => event is TransferCompleted
                && event->TransferCompleted_session_id@ == response.session_id@,
        },
{
    law_transfers_begin_with_nothing_sent(
        sending.deep_view(),
        response.session_id@,
        accepted_files(response.files.keys(), response.files.deep_view()),
    );
}

/// A file that was taken is counted with the size that it was offered with and the
/// transfer goes on; one that was not taken ends it with failure.
pub proof fn law_uploaded_files_are_counted(
    transfer: Transfer,
    reply: UploadReply,
    r: (Option<AppEvent>, SendStep),
)
    requires
        call_ensures(Transfer::uploaded, (transfer, reply), r),
    ensures
        ({
            let before = transfer.deep_view();
            let size = before.outgoing[before.accepted[before.current].0].size;
            let taken = reply matches UploadReply::Answered { code, text } && 200 <= code <= 299;
            &&& taken ==> {
                &&& r.0 is Some && r.0->0 is TransferProgress
                &&& r.0->0->bytes_transferred == before.sent + size
                &&& r.0->0->total_bytes == before.total
                &&& r.0->0->is_upload
                &&& r.0->0->TransferProgress_session_id@ == before.session_id
            }
            &&& taken && r.1 is Send ==> r.1->Send_0.deep_view().sent == before.sent + size
                && r.1->Send_0.deep_view().current > before.current
            &&& taken && r.1 is Done ==> r.1->Done_0 is TransferCompleted && before.sent + size
                == before.total
            &&& !taken ==> r.0 is None && r.1 is Done && r.1->Done_0 is TransferFailed
        }),
{
    let before = transfer.deep_view();
    law_files_not_taken_end_the_transfer(before, reply);
    law_transfers_keep_their_session(before, reply);
    if reply matches UploadReply::Answered { code, text } && is_success(code) {
        law_completed_transfers_are_counted(before, reply);
    }
}

/// A file is posted under its token, from its place among those that were given,
/// and its progress starts from what was sent before.
pub proof fn law_files_are_sent_from_their_place(
    transfer: &Transfer,
    source: usize,
    url: String,
    progress: Progress,
)
    requires
        call_ensures(Transfer::source, (transfer,), source),
        call_ensures(Transfer::upload_url, (transfer,), url),
        call_ensures(Transfer::progress, (transfer,), progress),
    ensures
        ({
            let model = transfer.deep_view();
            let file = model.accepted[model.current];
            &&& source == model.outgoing[file.0].source
            &&& url@ == model.base_url + "/api/localsend/v2/upload"@ + "?sessionId="@
                + model.session_id + "&fileId="@ + file.0 + "&token="@ + file.1
            &&& progress.deep_view().counted == model.sent
            &&& progress.deep_view().total == model.total
            &&& progress.deep_view().session_id == model.session_id
            &&& progress.deep_view().label == model.outgoing[file.0].file_name + " to "@
                + model.peer_alias
        }),
{
    law_files_are_posted_under_their_token(transfer.deep_view());
}

/// Every chunk that is sent is counted and reported, out of the same total.
pub proof fn law_sent_chunks_are_counted(progress: &mut Progress, n: u64, event: AppEvent)
    requires
        call_ensures(Progress::chunk, (progress, n), event),
        old(progress).deep_view().counted + n <= u64::MAX,
    ensures
        final(progress).deep_view().counted == old(progress).deep_view().counted + n,
        final(progress).deep_view().total == old(progress).deep_view().total,
        final(progress).deep_view().label == old(progress).deep_view().label,
        event is TransferProgress,
        event->bytes_transferred == old(progress).deep_view().counted + n,
        event->total_bytes == old(progress).deep_view().total,
        event->file_id@ == old(progress).deep_view().label,
        event->is_upload,
{
}

/// A file that cannot be opened ends the transfer with the reason, and the peer is
/// told at the address for cancellations.
pub proof fn law_files_that_cannot_be_opened_are_told_of(
    transfer: &Transfer,
    path: &str,
    error: &str,
    r: (AppEvent, String),
)
    requires
        call_ensures(Transfer::not_opened, (transfer, path, error), r),
    ensures
        r.0 is TransferFailed,
        r.0->TransferFailed_session_id@ == transfer.deep_view().session_id,
        r.0->error@ == "Failed to open file "@ + path@ + ": "@ + error@,
        r.1@ == transfer.deep_view().base_url + "/api/localsend/v2/cancel"@ + "?sessionId="@
            + transfer.deep_view().session_id,
{
    law_files_are_posted_under_their_token(transfer.deep_view());
}

/// The type of a file that is offered is the one that its extension stands for.
pub proof fn law_file_types_go_by_extension(path: &str, r: &'static str)
    requires
        call_ensures(file_type, (path,), r),
    ensures
        r@ == media_type(path@),
{
}

/// The bytes that a response asks for are given wherever they can be counted, the
/// request is the one that was made, and a chunk can be counted as long as the
/// count holds it.
pub proof fn law_requests_and_responses_are_as_made(
    sending: &Sending,
    response: &PrepareUploadRespDto,
    bytes: Option<u64>,
    request: &PrepareUploadReqDto,
    progress: &Progress,
    n: u64,
    countable: bool,
)
    requires
        call_ensures(Sending::accepted_bytes, (sending, response), bytes),
        call_ensures(Sending::request, (sending,), request),
        call_ensures(Progress::can_count, (progress, n), countable),
    ensures
        ({
            let size = accepted_size(
                sending.deep_view().outgoing,
                accepted_files(response.files.keys(), response.files.deep_view()),
            );
            &&& size <= u64::MAX ==> bytes is Some && bytes->0 as nat == size
            &&& size > u64::MAX ==> bytes is None
        }),
        request.deep_view() == sending.deep_view().request,
        countable <==> progress.deep_view().counted + n <= u64::MAX,
{
}

/// Files are offered under identifiers that are drawn for them: every file that can
/// be read is among the offers, with its size, under a random UUID, wherever these
/// differ.
pub proof fn law_files_are_offered_under_drawn_identifiers(
    client: &LocalSendClient,
    peer: &Peer,
    files: &Vec<LocalFile>,
    r: Result<Sending, AppEvent>,
)
    requires
        call_ensures(LocalSendClient::send_files, (client, peer, files), r),
        files@.len() <= usize::MAX,
    ensures
        r is Ok <==> any_readable(files.deep_view()),
        r is Err ==> r->Err_0 is StatusMessage && r->Err_0->StatusMessage_0@
            == "No valid files to send"@,
        r is Ok ==> exists|ids: Seq<Seq<char>>|
            {
                &&& #[trigger] are_fresh(ids, files@.len())
                &&& r->Ok_0.deep_view() == client.sending(peer.deep_view(), files.deep_view(), ids)
                &&& ids.no_duplicates() ==> forall|i: int|
                    0 <= i < files@.len() && (#[trigger] files@[i]).size is Some ==> {
                        &&& r->Ok_0.deep_view().request.files.contains_key(ids[i])
                        &&& Some(r->Ok_0.deep_view().request.files[ids[i]].size) == files@[i].size
                    }
            },
{
    if r is Ok {
        let models = files.deep_view();
        let (n, drawn) = choose|n: usize, ids: Vec<String>|
            {
                &&& #[trigger] call_ensures(fresh_ids, (n,), ids)
                &&& n == files@.len()
                &&& are_fresh(ids.deep_view(), files@.len())
                &&& r->Ok_0.deep_view() == client.sending(
                    peer.deep_view(),
                    files.deep_view(),
                    ids.deep_view(),
                )
            };
        let ids = drawn.deep_view();
        assert(are_fresh(ids, files@.len()));
        if ids.no_duplicates() {
            assert forall|i: int|
                0 <= i < files@.len() && (#[trigger] files@[i]).size is Some implies {
                &&& r->Ok_0.deep_view().request.files.contains_key(ids[i])
                &&& Some(r->Ok_0.deep_view().request.files[ids[i]].size) == files@[i].size
            } by {
                assert(models[i] == files@[i].deep_view());
                law_offers_have_the_size_of_the_file(*client, peer.deep_view(), models, ids, i);
            }
        }
    }
}

}
