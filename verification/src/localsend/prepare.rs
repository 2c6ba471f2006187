//! Transfer requests: what a peer offers, and the session that is opened for it.
use vstd::prelude::*;

use crate::events::{failed, AppEvent, EventModel, IncomingTransferRequest, RequestModel};
use crate::json::{
    has_distinct_keys, law_members_have_distinct_keys, parse_json, parsed_json, Json, JsonModel,
};
use crate::localsend::ids::{fresh_ids, is_random_uuid};
use crate::localsend::protocol::{
    host_and_port, host_port, DeviceType, FileDto, FileModel, Peer, PeerModel,
    PrepareUploadRespDto, PrepareUploadRespModel, LOCALSEND_DEFAULT_PORT,
};
use crate::localsend::server::{
    law_safe_names_are_plain, safe_file_name, safe_name, ActiveSession, ServerState, SessionModel,
    Status,
};
use crate::outside::fresh_id;
use crate::path::is_plain_name;
use crate::table::Table;
use crate::text::{decimal, decimal_text};

verus! {

// ---------------------------------------------------------------------------
// The sending device
// ---------------------------------------------------------------------------

/// The text member `key` of `value`, where there is a value and it has one.
pub open spec fn text_of(value: Option<JsonModel>, key: Seq<char>) -> Option<Seq<char>> {
    match value {
        Some(value) => match value.get(key) {
            Some(member) => member.as_str(),
            None => None,
        },
        None => None,
    }
}

/// The whole-number member `key` of `value`, where there is a value and it has
/// one.
pub open spec fn number_of(value: Option<JsonModel>, key: Seq<char>) -> Option<u64> {
    match value {
        Some(value) => match value.get(key) {
            Some(member) => member.as_u64(),
            None => None,
        },
        None => None,
    }
}

/// `value`, or `fallback` where there is none.
pub open spec fn or_else(value: Option<Seq<char>>, fallback: Seq<char>) -> Seq<char> {
    match value {
        Some(value) => value,
        None => fallback,
    }
}

/// `value`, or `fallback` where there is none or it is empty.
pub open spec fn or_if_empty(value: Option<Seq<char>>, fallback: Seq<char>) -> Seq<char> {
    match value {
        Some(value) => if value.len() > 0 {
            value
        } else {
            fallback
        },
        None => fallback,
    }
}

/// The device that sends the transfer request `document` from the address
/// `ip`. Of a port that is too large the lower 16 bits count.
pub open spec fn requesting_peer(document: JsonModel, ip: Seq<char>) -> PeerModel {
    let info = document.get("info"@);
    let port = match number_of(info, "port"@) {
        Some(port) => (port % 65536) as u16,
        None => LOCALSEND_DEFAULT_PORT,
    };
    PeerModel {
        alias: or_if_empty(text_of(info, "alias"@), "LocalSend Device"@),
        version: or_else(text_of(info, "version"@), "2.0"@),
        device_model: text_of(info, "deviceModel"@),
        device_type: Some(DeviceType::Mobile),
        fingerprint: or_if_empty(text_of(info, "fingerprint"@), host_and_port(ip, port)),
        ip,
        port,
        protocol: or_else(text_of(info, "protocol"@), "https"@),
    }
}

fn text_member(value: Option<&Json>, key: &str) -> (r: Option<String>)
    ensures
        r.deep_view() == text_of(value.deep_view(), key@),
{
    match value {
        Some(value) => match value.get(key) {
            Some(member) => match member.as_str() {
                Some(text) => Some(text.clone()),
                None => None,
            },
            None => None,
        },
        None => None,
    }
}

fn number_member(value: Option<&Json>, key: &str) -> (r: Option<u64>)
    ensures
        r == number_of(value.deep_view(), key@),
{
    match value {
        Some(value) => match value.get(key) {
            Some(member) => member.as_u64(),
            None => None,
        },
        None => None,
    }
}

fn text_or(value: Option<String>, fallback: &str) -> (r: String)
    ensures
        r@ == or_else(value.deep_view(), fallback@),
{
    match value {
        Some(value) => value,
        None => fallback.to_owned(),
    }
}

fn text_or_if_empty(value: Option<String>, fallback: &str) -> (r: String)
    ensures
        r@ == or_if_empty(value.deep_view(), fallback@),
{
    match value {
        Some(value) => if value.as_str().is_empty() {
            fallback.to_owned()
        } else {
            value
        },
        None => fallback.to_owned(),
    }
}

/// The device that sends the transfer request `document` from the address
/// `ip`.
pub fn peer_of_request(document: &Json, ip: &str) -> (r: Peer)
    ensures
        r.deep_view() == requesting_peer(document.deep_view(), ip@),
{
    let info: Option<&Json> = document.get("info");
    let port: u16 = match number_member(info, "port") {
        Some(port) => (port % 65536) as u16,
        None => LOCALSEND_DEFAULT_PORT,
    };
    let address: String = host_port(ip, port);
    Peer {
        alias: text_or_if_empty(text_member(info, "alias"), "LocalSend Device"),
        version: text_or(text_member(info, "version"), "2.0"),
        device_model: text_member(info, "deviceModel"),
        device_type: Some(DeviceType::Mobile),
        fingerprint: text_or_if_empty(text_member(info, "fingerprint"), address.as_str()),
        ip: ip.to_owned(),
        port,
        protocol: text_or(text_member(info, "protocol"), "https"),
    }
}

// ---------------------------------------------------------------------------
// The offered files
// ---------------------------------------------------------------------------

/// The name under which the offered file `value` is stored.
pub open spec fn offered_name(value: JsonModel) -> Seq<char> {
    let member = match value.get("fileName"@) {
        Some(member) => Some(member),
        None => value.get("file_name"@),
    };
    match member {
        Some(member) => match member.as_str() {
            Some(name) => safe_name(name),
            None => "received_file"@,
        },
        None => "received_file"@,
    }
}

/// The file that `value` offers under the identifier `id`.
pub open spec fn offered_file(id: Seq<char>, value: JsonModel) -> FileModel {
    FileModel {
        id,
        file_name: offered_name(value),
        size: match number_of(Some(value), "size"@) {
            Some(size) => size,
            None => 0,
        },
        file_type: text_of(Some(value), "fileType"@),
        sha256: None,
        preview: None,
        metadata: None,
    }
}

/// The files that the transfer request `document` offers: in an object each
/// under its key, in an array each under its own identifier or else its place.
pub open spec fn offered_files(document: JsonModel) -> Seq<FileModel> {
    match document.get("files"@) {
        Some(JsonModel::Object(entries)) => Seq::new(
            entries.len(),
            |i: int| offered_file(entries[i].0, entries[i].1),
        ),
        Some(JsonModel::Array(items)) => Seq::new(
            items.len(),
            |i: int|
                offered_file(or_else(text_of(Some(items[i]), "id"@), decimal(i as nat)), items[i]),
        ),
        _ => Seq::empty(),
    }
}

fn name_of_offer(value: &Json) -> (r: String)
    ensures
        r@ == offered_name(value.deep_view()),
{
    let member: Option<&Json> = match value.get("fileName") {
        Some(member) => Some(member),
        None => value.get("file_name"),
    };
    match member {
        Some(member) => match member.as_str() {
            Some(name) => safe_file_name(name.as_str()),
            None => "received_file".to_owned(),
        },
        None => "received_file".to_owned(),
    }
}

fn file_of_offer(id: String, value: &Json) -> (r: FileDto)
    ensures
        r.deep_view() == offered_file(id@, value.deep_view()),
{
    FileDto {
        id,
        file_name: name_of_offer(value),
        size: match number_member(Some(value), "size") {
            Some(size) => size,
            None => 0,
        },
        file_type: text_member(Some(value), "fileType"),
        sha256: None,
        preview: None,
        metadata: None,
    }
}

/// The files that the transfer request `document` offers.
pub fn files_of_request(document: &Json) -> (r: Vec<FileDto>)
    ensures
        r.deep_view() == offered_files(document.deep_view()),
{
    let mut files: Vec<FileDto> = Vec::new();
    match document.get("files") {
        Some(Json::Object(entries)) => {
            let ghost models = (document.deep_view().get("files"@)->Some_0)->Object_0;
            let mut i: usize = 0;
            while i < entries.len()
                invariant
                    i <= entries@.len(),
                    models.len() == entries@.len(),
                    forall|j: int|
                        0 <= j < models.len() ==> #[trigger] models[j] == (
                            entries@[j].0@,
                            entries@[j].1.deep_view(),
                        ),
                    files@.len() == i,
                    forall|j: int|
                        0 <= j < i ==> (#[trigger] files@[j]).deep_view() == offered_file(
                            models[j].0,
                            models[j].1,
                        ),
                decreases entries@.len() - i,
            {
                let entry: &(String, Json) = &entries[i];
                assert(models[i as int] == (entry.0@, entry.1.deep_view()));
                files.push(file_of_offer(entry.0.clone(), &entry.1));
                i = i + 1;
            }
        },
        Some(Json::Array(items)) => {
            let ghost models = (document.deep_view().get("files"@)->Some_0)->Array_0;
            let mut i: usize = 0;
            while i < items.len()
                invariant
                    i <= items@.len(),
                    models.len() == items@.len(),
                    forall|j: int|
                        0 <= j < models.len() ==> #[trigger] models[j] == items@[j].deep_view(),
                    files@.len() == i,
                    forall|j: int|
                        0 <= j < i ==> (#[trigger] files@[j]).deep_view() == offered_file(
                            or_else(text_of(Some(models[j]), "id"@), decimal(j as nat)),
                            models[j],
                        ),
                decreases items@.len() - i,
            {
                let item: &Json = &items[i];
                assert(models[i as int] == item.deep_view());
                let place: String = decimal_text(i as u64);
                let id: String = text_or(text_member(Some(item), "id"), place.as_str());
                files.push(file_of_offer(id, item));
                i = i + 1;
            }
        },
        _ => {},
    }
    assert(files.deep_view() =~= offered_files(document.deep_view()));
    files
}

// ---------------------------------------------------------------------------
// The session
// ---------------------------------------------------------------------------

/// The names and sizes of `files` by their identifiers. Of two files with the
/// same identifier the later one counts.
pub open spec fn files_by_id(files: Seq<FileModel>) -> Map<Seq<char>, (Seq<char>, u64)>
    decreases files.len(),
{
    if files.len() == 0 {
        Map::empty()
    } else {
        files_by_id(files.drop_last()).insert(
            files.last().id,
            (files.last().file_name, files.last().size),
        )
    }
}

/// The `tokens` of `files` by their identifiers. Of two files with the same
/// identifier the later one counts.
pub open spec fn tokens_by_id(files: Seq<FileModel>, tokens: Seq<Seq<char>>) -> Map<
    Seq<char>,
    Seq<char>,
>
    decreases files.len(),
{
    if files.len() == 0 {
        Map::empty()
    } else {
        tokens_by_id(files.drop_last(), tokens.drop_last()).insert(files.last().id, tokens.last())
    }
}

/// The session for `files` with a token for each.
pub open spec fn session_for(files: Seq<FileModel>, tokens: Seq<Seq<char>>) -> SessionModel {
    SessionModel { files: files_by_id(files), tokens: tokens_by_id(files, tokens) }
}

/// A transfer request that waits for its answer: what was asked, and the
/// response in case it is accepted.
#[derive(Debug)]
pub struct PendingUpload {
    pub request: IncomingTransferRequest,
    pub response: PrepareUploadRespDto,
}

/// Opens the session `session_id` for the transfer request `document` from the
/// address `peer_ip`, with one of `tokens` for each file that it offers.
pub fn open_session(
    state: &mut ServerState,
    peer_ip: &str,
    document: &Json,
    session_id: String,
    tokens: Vec<String>,
) -> (r: PendingUpload)
    requires
        tokens@.len() == offered_files(document.deep_view()).len(),
    ensures
        final(state).alias == old(state).alias,
        final(state).fingerprint == old(state).fingerprint,
        final(state).active_sessions.deep_view() == old(state).active_sessions.deep_view().insert(
            session_id@,
            session_for(offered_files(document.deep_view()), tokens.deep_view()),
        ),
        r.request.deep_view() == (RequestModel {
            peer: requesting_peer(document.deep_view(), peer_ip@),
            files: offered_files(document.deep_view()),
        }),
        r.response.deep_view() == (PrepareUploadRespModel {
            session_id: session_id@,
            files: tokens_by_id(offered_files(document.deep_view()), tokens.deep_view()),
        }),
{
    let peer: Peer = peer_of_request(document, peer_ip);
    let files: Vec<FileDto> = files_of_request(document);
    let ghost models = files.deep_view();
    let ghost all = tokens.deep_view();
    let mut session_files: Table<(String, u64)> = Table::new();
    let mut session_tokens: Table<String> = Table::new();
    let mut response_files: Table<String> = Table::new();
    let mut i: usize = 0;
    while i < files.len()
        invariant
            i <= files@.len(),
            files@.len() == tokens@.len(),
            models == files.deep_view(),
            all == tokens.deep_view(),
            session_files.deep_view() == files_by_id(models.take(i as int)),
            session_tokens.deep_view() == tokens_by_id(models.take(i as int), all.take(i as int)),
            response_files.deep_view() == tokens_by_id(models.take(i as int), all.take(i as int)),
        decreases files@.len() - i,
    {
        let file: &FileDto = &files[i];
        session_files.insert(file.id.clone(), (file.file_name.clone(), file.size));
        session_tokens.insert(file.id.clone(), tokens[i].clone());
        response_files.insert(file.id.clone(), tokens[i].clone());
        proof {
            assert(models.take(i + 1).drop_last() =~= models.take(i as int));
            assert(all.take(i + 1).drop_last() =~= all.take(i as int));
            assert(models.take(i + 1).last() == file.deep_view());
            assert(all.take(i + 1).last() == tokens@[i as int]@);
        }
        i = i + 1;
    }
    assert(models.take(i as int) =~= models);
    assert(all.take(i as int) =~= all);
    let session = ActiveSession { files: session_files, tokens: session_tokens };
    state.active_sessions.insert(session_id.clone(), session);
    PendingUpload {
        request: IncomingTransferRequest { peer, files },
        response: PrepareUploadRespDto { session_id, files: response_files },
    }
}

/// Whether `tokens` are `n` random UUIDs.
pub open spec fn are_fresh(tokens: Seq<Seq<char>>, n: nat) -> bool {
    tokens.len() == n && forall|i: int| 0 <= i < n ==> is_random_uuid(#[trigger] tokens[i])
}

/// Whether `file` is awaited among `awaited` under its own name and size.
pub open spec fn is_kept(file: FileModel, awaited: Map<Seq<char>, (Seq<char>, u64)>) -> bool {
    awaited.contains_key(file.id) && awaited[file.id] == (file.file_name, file.size)
}

/// Whether `awaited` are exactly `files`, each under its own name and size.
pub open spec fn are_kept(
    files: Seq<FileModel>,
    awaited: Map<Seq<char>, (Seq<char>, u64)>,
) -> bool {
    &&& awaited.len() == files.len()
    &&& forall|i: int| 0 <= i < files.len() ==> is_kept(#[trigger] files[i], awaited)
}

/// Handles the transfer request with the body `body` from the address
/// `peer_ip`. A body that is no JSON document is refused and changes nothing;
/// for any other a session is opened, under an identifier and with a token for
/// each file that `fresh_id` and `fresh_ids` came to. Where the files are named
/// in an object, each of them is awaited, under its own name and size.
pub fn handle_prepare_upload(state: &mut ServerState, peer_ip: &str, body: &str) -> (r: Result<
    PendingUpload,
    Status,
>)
    ensures
        final(state).alias == old(state).alias,
        final(state).fingerprint == old(state).fingerprint,
        match parsed_json(body@) {
            None => r == Err::<PendingUpload, Status>(Status::BadRequest)
                && final(state).active_sessions.deep_view()
                == old(state).active_sessions.deep_view(),
            Some(document) => {
                let files = offered_files(document);
                &&& r is Ok
                &&& r->Ok_0.request.deep_view() == (RequestModel {
                    peer: requesting_peer(document, peer_ip@),
                    files,
                })
                &&& has_distinct_keys(document)
                &&& document.get("files"@) matches Some(JsonModel::Object(_)) ==> are_kept(
                    files,
                    final(state).active_sessions.deep_view()[r->Ok_0.response.session_id@].files,
                )
                &&& is_random_uuid(r->Ok_0.response.session_id@)
                &&& exists|id: String, n: usize, tokens: Vec<String>|
                    {
                        &&& #[trigger] call_ensures(fresh_id, (), id)
                        &&& #[trigger] call_ensures(fresh_ids, (n,), tokens)
                        &&& n == files.len()
                        &&& are_fresh(tokens.deep_view(), files.len())
                        &&& r->Ok_0.response.session_id@ == id@
                        &&& r->Ok_0.response.files.deep_view() == tokens_by_id(
                            files,
                            tokens.deep_view(),
                        )
                        &&& final(state).active_sessions.deep_view()
                            == old(state).active_sessions.deep_view().insert(
                            id@,
                            session_for(files, tokens.deep_view()),
                        )
                    }
            },
        },
{
    match parse_json(body) {
        Some(document) => {
            let session_id: String = fresh_id();
            let n: usize = files_of_request(&document).len();
            let tokens: Vec<String> = fresh_ids(n);
            let ghost drawn = tokens.deep_view();
            assert(are_fresh(drawn, n as nat));
            proof {
                if document.deep_view().get("files"@) matches Some(JsonModel::Object(_)) {
                    law_files_in_an_object_are_kept(document.deep_view());
                }
            }
            let pending = open_session(state, peer_ip, &document, session_id, tokens);
            Ok(pending)
        },
        None => Err(Status::BadRequest),
    }
}

/// The answer to a transfer request.
#[derive(Debug)]
pub enum PrepareAnswer {
    /// The response with the session and its tokens.
    Accepted(PrepareUploadRespDto),
    /// A refusal, and the event by which it is made known.
    Declined(Status, AppEvent),
}

/// Answers a transfer request once it has been decided on: with the session
/// and its tokens where it was accepted, and otherwise with a refusal.
pub fn answer_prepare_upload(response: PrepareUploadRespDto, accepted: bool) -> (r: PrepareAnswer)
    ensures
        accepted ==> r == PrepareAnswer::Accepted(response),
        !accepted ==> (r matches PrepareAnswer::Declined(status, event) && status
            == Status::Forbidden && event.deep_view() == (EventModel::TransferFailed {
            session_id: response.session_id@,
            error: "Incoming transfer request was declined or cancelled"@,
        })),
{
    if accepted {
        PrepareAnswer::Accepted(response)
    } else {
        let event: AppEvent = failed(
            response.session_id.as_str(),
            "Incoming transfer request was declined or cancelled".to_owned(),
        );
        PrepareAnswer::Declined(Status::Forbidden, event)
    }
}

// ---------------------------------------------------------------------------
// Laws
// ---------------------------------------------------------------------------

/// Whatever a peer offers, each file would be stored under a plain name.
pub proof fn law_offered_names_are_plain(document: JsonModel, i: int)
    requires
        0 <= i < offered_files(document).len(),
    ensures
        is_plain_name(offered_files(document)[i].file_name),
{
    match document.get("files"@) {
        Some(JsonModel::Object(entries)) => lemma_offered_name_is_plain(entries[i].1),
        Some(JsonModel::Array(items)) => lemma_offered_name_is_plain(items[i]),
        _ => {},
    }
}

proof fn lemma_offered_name_is_plain(value: JsonModel)
    ensures
        is_plain_name(offered_name(value)),
{
    law_safe_names_are_plain(Seq::empty());
    assert(crate::path::tail_after(Seq::<char>::empty(), '/') =~= Seq::<char>::empty());
    assert(safe_name(Seq::empty()) == "received_file"@);
    let member = match value.get("fileName"@) {
        Some(member) => Some(member),
        None => value.get("file_name"@),
    };
    match member {
        Some(member) => match member.as_str() {
            Some(name) => law_safe_names_are_plain(name),
            None => {},
        },
        None => {},
    }
}

/// A session holds a token for exactly the files that it waits for, and waits
/// for exactly the files that were offered.
pub proof fn law_each_file_has_a_token(files: Seq<FileModel>, tokens: Seq<Seq<char>>, id: Seq<char>)
    requires
        tokens.len() == files.len(),
    ensures
        session_for(files, tokens).files.contains_key(id) <==> session_for(
            files,
            tokens,
        ).tokens.contains_key(id),
        session_for(files, tokens).files.contains_key(id) <==> exists|i: int|
            0 <= i < files.len() && (#[trigger] files[i]).id == id,
    decreases files.len(),
{
    if files.len() > 0 {
        let rest = files.drop_last();
        law_each_file_has_a_token(rest, tokens.drop_last(), id);
        if exists|i: int| 0 <= i < files.len() && (#[trigger] files[i]).id == id {
            let i = choose|i: int| 0 <= i < files.len() && (#[trigger] files[i]).id == id;
            if i < rest.len() {
                assert(rest[i].id == id);
            }
        }
        if exists|i: int| 0 <= i < rest.len() && (#[trigger] rest[i]).id == id {
            let i = choose|i: int| 0 <= i < rest.len() && (#[trigger] rest[i]).id == id;
            assert(files[i].id == id);
        }
        if files.last().id == id {
            assert(files[files.len() - 1].id == id);
        }
    }
}

/// Where no two files have the same identifier, the session keeps each file's
/// name and size and its token.
pub proof fn law_distinct_files_are_all_kept(files: Seq<FileModel>, tokens: Seq<Seq<char>>, i: int)
    requires
        tokens.len() == files.len(),
        0 <= i < files.len(),
        forall|j: int, k: int|
            0 <= j < k < files.len() ==> (#[trigger] files[j]).id != (#[trigger] files[k]).id,
    ensures
        files_by_id(files).contains_key(files[i].id),
        files_by_id(files)[files[i].id] == (files[i].file_name, files[i].size),
        tokens_by_id(files, tokens).contains_key(files[i].id),
        tokens_by_id(files, tokens)[files[i].id] == tokens[i],
        files_by_id(files).dom().finite(),
        files_by_id(files).len() == files.len(),
    decreases files.len(),
{
    let rest = files.drop_last();
    let last = files.last();
    if rest.len() > 0 {
        if i < rest.len() {
            law_distinct_files_are_all_kept(rest, tokens.drop_last(), i);
            assert(rest[i] == files[i]);
        } else {
            law_distinct_files_are_all_kept(rest, tokens.drop_last(), 0);
        }
        law_each_file_has_a_token(rest, tokens.drop_last(), last.id);
        assert(!files_by_id(rest).contains_key(last.id)) by {
            if files_by_id(rest).contains_key(last.id) {
                let j = choose|j: int| 0 <= j < rest.len() && (#[trigger] rest[j]).id == last.id;
                assert(files[j].id == files[files.len() - 1].id);
            }
        }
    } else {
        assert(files_by_id(rest) == Map::<Seq<char>, (Seq<char>, u64)>::empty());
    }
}

/// In a request that names its files in an object, the key of a file is its
/// one identifier: whatever else the file says, it is awaited once, under its
/// key.
pub proof fn law_keys_are_the_identifiers(
    document: JsonModel,
    entries: Seq<(Seq<char>, JsonModel)>,
    tokens: Seq<Seq<char>>,
    i: int,
)
    requires
        has_distinct_keys(document),
        document.get("files"@) == Some(JsonModel::Object(entries)),
        tokens.len() == entries.len(),
        0 <= i < entries.len(),
    ensures
        offered_files(document).len() == entries.len(),
        offered_files(document)[i].id == entries[i].0,
        session_for(offered_files(document), tokens).files.len() == entries.len(),
        is_kept(offered_files(document)[i], session_for(offered_files(document), tokens).files),
        session_for(offered_files(document), tokens).tokens[entries[i].0] == tokens[i],
{
    law_members_have_distinct_keys(document, "files"@);
    let files = offered_files(document);
    assert forall|j: int, k: int| 0 <= j < k < files.len() implies (#[trigger] files[j]).id != (
    #[trigger] files[k]).id by {
        assert(files[j].id == entries[j].0);
        assert(files[k].id == entries[k].0);
    }
    law_distinct_files_are_all_kept(files, tokens, i);
}

/// In a request that names its files in an object, all of them are awaited, each
/// under its own name and size.
pub proof fn law_files_in_an_object_are_kept(document: JsonModel)
    requires
        has_distinct_keys(document),
        document.get("files"@) matches Some(JsonModel::Object(_)),
    ensures
        are_kept(offered_files(document), files_by_id(offered_files(document))),
{
    let entries = document.get("files"@)->Some_0->Object_0;
    let files = offered_files(document);
    let tokens = Seq::new(entries.len(), |i: int| Seq::<char>::empty());
    assert forall|i: int| 0 <= i < files.len() implies is_kept(
        #[trigger] files[i],
        files_by_id(files),
    ) by {
        law_keys_are_the_identifiers(document, entries, tokens, i);
    }
    if entries.len() > 0 {
        law_keys_are_the_identifiers(document, entries, tokens, 0);
    }
}

/// A peer is known as the request informs of it: each member that the request
/// gives in its form is taken over, and only what is missing, or of another form,
/// is filled in. The address is the one that the request came from.
pub proof fn law_peers_are_known_as_they_inform(document: JsonModel, ip: Seq<char>)
    ensures
        ({
            let peer = requesting_peer(document, ip);
            let info = |key: Seq<char>|
                if document.get("info"@) is Some {
                    document.get("info"@)->0.get(key)
                } else {
                    None
                };
            let alias = info("alias"@);
            let version = info("version"@);
            let model = info("deviceModel"@);
            let fingerprint = info("fingerprint"@);
            let port = info("port"@);
            let protocol = info("protocol"@);
            &&& alias matches Some(JsonModel::Text(text)) ==> text.len() > 0 ==> peer.alias == text
            &&& !(alias is Some && alias->0 is Text && alias->0->Text_0.len() > 0) ==> peer.alias
                == "LocalSend Device"@
            &&& version matches Some(JsonModel::Text(text)) ==> peer.version == text
            &&& !(version is Some && version->0 is Text) ==> peer.version == "2.0"@
            &&& model matches Some(JsonModel::Text(text)) ==> peer.device_model == Some(text)
            &&& !(model is Some && model->0 is Text) ==> peer.device_model is None
            &&& peer.device_type == Some(DeviceType::Mobile)
            &&& port matches Some(JsonModel::Number(Some(number))) ==> peer.port == number % 65536
            &&& !(port is Some && port->0 is Number && port->0->Number_0 is Some) ==> peer.port
                == 53317
            &&& fingerprint matches Some(JsonModel::Text(text)) ==> text.len() > 0 ==>
                peer.fingerprint == text
            &&& !(fingerprint is Some && fingerprint->0 is Text && fingerprint->0->Text_0.len()
                > 0) ==> peer.fingerprint == ip + ":"@ + decimal(peer.port as nat)
            &&& peer.ip == ip
            &&& protocol matches Some(JsonModel::Text(text)) ==> peer.protocol == text
            &&& !(protocol is Some && protocol->0 is Text) ==> peer.protocol == "https"@
        }),
{
}

/// A file is offered as it is described: under its identifier, with the size and
/// the type that are given, and under the last part of the name that is given.
/// What is missing, or of another form, is a size of 0, no type, and a general
/// name.
pub proof fn law_files_are_offered_as_described(id: Seq<char>, value: JsonModel)
    ensures
        ({
            let file = offered_file(id, value);
            let size = value.get("size"@);
            let kind = value.get("fileType"@);
            let name = if value.get("fileName"@) is Some {
                value.get("fileName"@)
            } else {
                value.get("file_name"@)
            };
            &&& file.id == id
            &&& size matches Some(JsonModel::Number(Some(number))) ==> file.size == number
            &&& !(size is Some && size->0 is Number && size->0->Number_0 is Some) ==> file.size == 0
            &&& kind matches Some(JsonModel::Text(text)) ==> file.file_type == Some(text)
            &&& !(kind is Some && kind->0 is Text) ==> file.file_type is None
            &&& name matches Some(JsonModel::Text(text)) ==> file.file_name == safe_name(text)
            &&& !(name is Some && name->0 is Text) ==> file.file_name == "received_file"@
            &&& file.sha256 is None
            &&& file.preview is None
            &&& file.metadata is None
        }),
{
}

/// The files of a request are offered in their order: those of an object each
/// under its key, and those of an array each under the identifier that it gives,
/// or else under its place. Without either, nothing is offered.
pub proof fn law_files_are_offered_in_order(document: JsonModel, i: int)
    ensures
        match document.get("files"@) {
            Some(JsonModel::Object(entries)) => {
                &&& offered_files(document).len() == entries.len()
                &&& 0 <= i < entries.len() ==> offered_files(document)[i] == offered_file(
                    entries[i].0,
                    entries[i].1,
                )
            },
            Some(JsonModel::Array(items)) => {
                &&& offered_files(document).len() == items.len()
                &&& 0 <= i < items.len() ==> {
                    let id = items[i].get("id"@);
                    &&& id matches Some(JsonModel::Text(text)) ==> offered_files(document)[i]
                        == offered_file(text, items[i])
                    &&& !(id is Some && id->0 is Text) ==> offered_files(document)[i]
                        == offered_file(decimal(i as nat), items[i])
                }
            },
            _ => offered_files(document).len() == 0,
        },
{
}

/// A session waits for each file that was offered, under the name and the size
/// that it was offered with, and has its token; only where a later file has the
/// same identifier does that one count.
pub proof fn law_sessions_wait_for_what_was_offered(
    files: Seq<FileModel>,
    tokens: Seq<Seq<char>>,
    i: int,
)
    requires
        tokens.len() == files.len(),
        0 <= i < files.len(),
        forall|j: int| i < j < files.len() ==> (#[trigger] files[j]).id != files[i].id,
    ensures
        ({
            let session = session_for(files, tokens);
            &&& session.files.contains_key(files[i].id)
            &&& session.files[files[i].id].0 == files[i].file_name
            &&& session.files[files[i].id].1 == files[i].size
            &&& session.tokens.contains_key(files[i].id)
            &&& session.tokens[files[i].id] == tokens[i]
        }),
    decreases files.len(),
{
    if i < files.len() - 1 {
        let rest = files.drop_last();
        assert forall|j: int| i < j < rest.len() implies (#[trigger] rest[j]).id != rest[i].id by {
            assert(rest[j] == files[j]);
        }
        law_sessions_wait_for_what_was_offered(rest, tokens.drop_last(), i);
        assert(files[files.len() - 1] == files.last());
    }
}

/// Each of the tokens of a session is a random UUID of its own drawing.
pub proof fn law_fresh_tokens_are_random(tokens: Seq<Seq<char>>, token: Seq<char>, n: nat)
    ensures
        are_fresh(Seq::empty(), 0),
        are_fresh(tokens.push(token), n + 1) <==> are_fresh(tokens, n) && is_random_uuid(token),
{
    let more = tokens.push(token);
    if are_fresh(more, n + 1) {
        assert(is_random_uuid(more[n as int]));
        assert forall|i: int| 0 <= i < n implies is_random_uuid(#[trigger] tokens[i]) by {
            assert(more[i] == tokens[i]);
        }
    }
    if are_fresh(tokens, n) && is_random_uuid(token) {
        assert forall|i: int| 0 <= i < n + 1 implies is_random_uuid(#[trigger] more[i]) by {
            if i < n {
                assert(more[i] == tokens[i]);
            }
        }
    }
}

/// A session that is opened for a request waits for exactly the files that the
/// request offers, with a token for each, and leaves the other sessions as they
/// are; what is asked of the user, and what the peer is answered, is the same.
pub proof fn law_sessions_are_opened_for_the_offer(
    state: &mut ServerState,
    peer_ip: &str,
    document: &Json,
    session_id: String,
    tokens: Vec<String>,
    pending: PendingUpload,
    i: int,
)
    requires
        call_ensures(open_session, (state, peer_ip, document, session_id, tokens), pending),
        tokens@.len() == offered_files(document.deep_view()).len(),
    ensures
        ({
            let files = offered_files(document.deep_view());
            let before = old(state).active_sessions.deep_view();
            let after = final(state).active_sessions.deep_view();
            let session = after[session_id@];
            &&& after.contains_key(session_id@)
            &&& after.remove(session_id@) == before.remove(session_id@)
            &&& pending.response.session_id@ == session_id@
            &&& pending.response.files.deep_view() == session.tokens
            &&& pending.request.files.deep_view() == files
            &&& pending.request.peer.ip@ == peer_ip@
            &&& pending.request.peer.deep_view() == requesting_peer(document.deep_view(), peer_ip@)
            &&& 0 <= i < files.len() && (forall|j: int|
                i < j < files.len() ==> (#[trigger] files[j]).id != files[i].id) ==> {
                &&& session.files.contains_key(files[i].id)
                &&& session.files[files[i].id] == (files[i].file_name, files[i].size)
                &&& session.tokens.contains_key(files[i].id)
                &&& session.tokens[files[i].id] == tokens@[i]@
            }
        }),
{
    let files = offered_files(document.deep_view());
    let before = old(state).active_sessions.deep_view();
    let after = final(state).active_sessions.deep_view();
    assert(after.remove(session_id@) =~= before.remove(session_id@));
    if 0 <= i < files.len() && (forall|j: int|
        i < j < files.len() ==> (#[trigger] files[j]).id != files[i].id) {
        law_sessions_wait_for_what_was_offered(files, tokens.deep_view(), i);
        assert(tokens.deep_view()[i] == tokens@[i]@);
    }
}

/// A peer and its files are known as the request describes them.
pub proof fn law_requests_are_read_as_described(
    document: &Json,
    ip: &str,
    peer: Peer,
    files: Vec<FileDto>,
)
    requires
        call_ensures(peer_of_request, (document, ip), peer),
        call_ensures(files_of_request, (document,), files),
    ensures
        peer.deep_view() == requesting_peer(document.deep_view(), ip@),
        files.deep_view() == offered_files(document.deep_view()),
        peer.ip@ == ip@,
        peer.device_type == Some(DeviceType::Mobile),
        peer.alias@.len() > 0,
{
    reveal_strlit("LocalSend Device");
    law_peers_are_known_as_they_inform(document.deep_view(), ip@);
}

/// A request that was decided on is answered so: with its own session and tokens
/// where it was accepted, and with a refusal where it was not.
pub proof fn law_decisions_are_answered(
    response: PrepareUploadRespDto,
    accepted: bool,
    answer: PrepareAnswer,
)
    requires
        call_ensures(answer_prepare_upload, (response, accepted), answer),
    ensures
        answer is Accepted <==> accepted,
        answer matches PrepareAnswer::Accepted(given) ==> given == response,
        answer matches PrepareAnswer::Declined(status, event) ==> status == Status::Forbidden
            && event is TransferFailed && event->TransferFailed_session_id@ == response.session_id@
            && event->error@ == "Incoming transfer request was declined or cancelled"@,
{
}

/// A request that is no document is refused and changes nothing; any other is put
/// to the user, with the peer and the files that it names.
pub proof fn law_readable_requests_are_put_to_the_user(
    state: &mut ServerState,
    peer_ip: &str,
    body: &str,
    r: Result<PendingUpload, Status>,
)
    requires
        call_ensures(handle_prepare_upload, (state, peer_ip, body), r),
    ensures
        r is Ok <==> parsed_json(body@) is Some,
        r is Err ==> r == Err::<PendingUpload, Status>(Status::BadRequest)
            && final(state).active_sessions.deep_view() == old(state).active_sessions.deep_view(),
        r is Ok ==> {
            let document = parsed_json(body@)->0;
            let session = r->Ok_0.response.session_id@;
            &&& r->Ok_0.request.peer.deep_view() == requesting_peer(document, peer_ip@)
            &&& r->Ok_0.request.files.deep_view() == offered_files(document)
            &&& final(state).active_sessions.deep_view().contains_key(session)
            &&& final(state).active_sessions.deep_view()[session].tokens
                == r->Ok_0.response.files.deep_view()
            &&& final(state).active_sessions.deep_view()[session].files == files_by_id(
                offered_files(document),
            )
        },
{
}

}
