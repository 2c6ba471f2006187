//! The receiving side: what the server knows, and what it answers.
use vstd::prelude::*;

use crate::events::{failed, just, AppEvent, EventModel};
use crate::json::{parse_json, parsed_json, Json, JsonModel};
use crate::localsend::protocol::{
    peer_of, registered_peer, DeviceType, InfoDto, InfoModel, RegisterDto, RegisterModel,
    DEVICE_MODEL, PROTOCOL_VERSION,
};
use crate::path::{
    file_name, file_name_of, is_plain_name, law_file_name_is_plain, law_last_part_is_the_name,
};
use crate::table::Table;

verus! {

/// What a request is answered with, by the HTTP status that it stands for.
#[derive(Debug, Clone, Copy, PartialEq, Eq, Structural)]
pub enum Status {
    Success,
    BadRequest,
    Forbidden,
    NotFound,
    InternalServerError,
}

impl Status {
    /// The number of an HTTP status.
    pub open spec fn number(self) -> u16 {
        match self {
            Status::Success => 200,
            Status::BadRequest => 400,
            Status::Forbidden => 403,
            Status::NotFound => 404,
            Status::InternalServerError => 500,
        }
    }

    /// The number of an HTTP status.
    pub fn code(self) -> (r: u16)
        ensures
            r == self.number(),
    {
        match self {
            Status::Success => 200,
            Status::BadRequest => 400,
            Status::Forbidden => 403,
            Status::NotFound => 404,
            Status::InternalServerError => 500,
        }
    }
}

/// An active upload session: the files that are still to come, by their
/// identifier, with their name and size, and the token for each file.
#[derive(Debug, Clone)]
pub struct ActiveSession {
    pub files: Table<(String, u64)>,
    pub tokens: Table<String>,
}

/// What an [`ActiveSession`] holds.
#[verifier::ext_equal]
pub struct SessionModel {
    pub files: Map<Seq<char>, (Seq<char>, u64)>,
    pub tokens: Map<Seq<char>, Seq<char>>,
}

impl DeepView for ActiveSession {
    type V = SessionModel;

    open spec fn deep_view(&self) -> SessionModel {
        SessionModel { files: self.files.deep_view(), tokens: self.tokens.deep_view() }
    }
}

/// What the server knows: the device that it speaks for, and the sessions that
/// are active, by their identifier.
#[derive(Debug, Clone)]
pub struct ServerState {
    pub alias: String,
    pub fingerprint: String,
    pub active_sessions: Table<ActiveSession>,
}

impl ServerState {
    /// A server without sessions.
    pub fn new(alias: String, fingerprint: String) -> (r: Self)
        ensures
            r.alias@ == alias@,
            r.fingerprint@ == fingerprint@,
            r.active_sessions.deep_view() == Map::<Seq<char>, SessionModel>::empty(),
    {
        ServerState { alias, fingerprint, active_sessions: Table::new() }
    }
}

/// How this device describes itself.
pub open spec fn own_info(alias: Seq<char>, fingerprint: Seq<char>) -> InfoModel {
    InfoModel {
        alias,
        version: PROTOCOL_VERSION@,
        device_model: Some(DEVICE_MODEL@),
        device_type: Some(DeviceType::Desktop),
        fingerprint,
        download: false,
    }
}

/// The answer to a request for the device information.
pub fn handle_info(state: &ServerState) -> (r: InfoDto)
    ensures
        r.deep_view() == own_info(state.alias@, state.fingerprint@),
{
    InfoDto {
        alias: state.alias.clone(),
        version: PROTOCOL_VERSION.to_owned(),
        device_model: Some(DEVICE_MODEL.to_owned()),
        device_type: Some(DeviceType::Desktop),
        fingerprint: state.fingerprint.clone(),
        download: false,
    }
}

/// The event that a registration from the address `peer_ip` gives rise to.
pub open spec fn register_event(payload: Option<RegisterModel>, peer_ip: Seq<char>) -> Option<
    EventModel,
> {
    match payload {
        Some(message) => Some(EventModel::PeerDiscovered(registered_peer(message, peer_ip))),
        None => None,
    }
}

/// The answer to a registration from the address `peer_ip`, and the event that
/// it gives rise to. `payload` is `None` where the registration could not be
/// read: it is answered all the same, and makes no peer known.
pub fn handle_register(state: &ServerState, peer_ip: &str, payload: Option<RegisterDto>) -> (r: (
    InfoDto,
    Option<AppEvent>,
))
    ensures
        r.0.deep_view() == own_info(state.alias@, state.fingerprint@),
        r.1.deep_view() == register_event(payload.deep_view(), peer_ip@),
{
    let event: Option<AppEvent> = match &payload {
        Some(message) => Some(AppEvent::PeerDiscovered(peer_of(message, peer_ip))),
        None => None,
    };
    (handle_info(state), event)
}

/// The name under which a file that a peer calls `name` is stored: the last
/// part of it, or a fixed one where it has none.
pub open spec fn safe_name(name: Seq<char>) -> Seq<char> {
    match file_name_of(name) {
        Some(plain) => plain,
        None => "received_file"@,
    }
}

/// Strips the path components that a remote peer supplied, so that an upload
/// cannot leave the directory that the receiver selected.
pub fn safe_file_name(name: &str) -> (r: String)
    ensures
        r@ == safe_name(name@),
        is_plain_name(r@),
{
    proof {
        law_safe_names_are_plain(name@);
    }
    match file_name(name) {
        Some(plain) => plain,
        None => "received_file".to_owned(),
    }
}

/// Whatever a peer calls a file, the name under which it is stored is a plain
/// one: joined to a directory it names an entry of that directory.
pub proof fn law_safe_names_are_plain(name: Seq<char>)
    ensures
        is_plain_name(safe_name(name)),
{
    law_file_name_is_plain(name);
    reveal_strlit("received_file");
    let fixed = "received_file"@;
    assert(!fixed.contains('/')) by {
        if fixed.contains('/') {
            let i = choose|i: int| 0 <= i < fixed.len() && fixed[i] == '/';
            assert(0 <= i < 13);
        }
    }
}

// ---------------------------------------------------------------------------
// Cancelling
// ---------------------------------------------------------------------------

/// The member of `document` that names a session.
pub open spec fn named_session(document: JsonModel) -> Option<Seq<char>> {
    let member = match document.get("sessionId"@) {
        Some(value) => Some(value),
        None => document.get("session_id"@),
    };
    match member {
        Some(value) => value.as_str(),
        None => None,
    }
}

/// The session that a cancellation is for: the one that its query names, else
/// the one that the document in its body names, else all of them.
pub open spec fn cancel_target(
    query: Map<Seq<char>, Seq<char>>,
    document: Option<JsonModel>,
) -> Option<Seq<char>> {
    if query.contains_key("sessionId"@) {
        Some(query["sessionId"@])
    } else if query.contains_key("session_id"@) {
        Some(query["session_id"@])
    } else {
        match document {
            Some(document) => named_session(document),
            None => None,
        }
    }
}

/// The session that the query of a cancellation names.
fn queried_session(query: &Table<String>) -> (r: Option<String>)
    ensures
        r.deep_view() == cancel_target(query.deep_view(), None),
{
    match query.get("sessionId") {
        Some(id) => Some(id.clone()),
        None => match query.get("session_id") {
            Some(id) => Some(id.clone()),
            None => None,
        },
    }
}

/// The session that a cancellation is for, by its query and by the document in
/// its body.
pub fn cancelled_session(query: &Table<String>, document: &Option<Json>) -> (r: Option<String>)
    ensures
        r.deep_view() == cancel_target(query.deep_view(), document.deep_view()),
{
    match queried_session(query) {
        Some(id) => Some(id),
        None => match document {
            Some(document) => {
                let member: Option<&Json> = match document.get("sessionId") {
                    Some(value) => Some(value),
                    None => document.get("session_id"),
                };
                match member {
                    Some(value) => match value.as_str() {
                        Some(id) => Some(id.clone()),
                        None => None,
                    },
                    None => None,
                }
            },
            None => None,
        },
    }
}

/// The event by which the cancellation of the session `id` is made known.
pub open spec fn cancel_event(id: Seq<char>) -> EventModel {
    EventModel::TransferFailed { session_id: id, error: "Transfer cancelled by sender"@ }
}

/// The events by which the cancellation of the sessions `ids` is made known.
pub open spec fn cancel_events(ids: Seq<Seq<char>>) -> Seq<EventModel> {
    ids.map_values(|id: Seq<char>| cancel_event(id))
}

/// Whether the sessions of `before` without `target`, or without any where
/// there is no target, are those of `after`, and `events` are for the target,
/// or once for each session that was active.
pub open spec fn is_cancelled(
    before: ServerState,
    after: ServerState,
    target: Option<Seq<char>>,
    events: Seq<EventModel>,
) -> bool {
    let sessions = before.active_sessions;
    &&& after.alias == before.alias
    &&& after.fingerprint == before.fingerprint
    &&& match target {
        Some(id) => {
            &&& after.active_sessions.deep_view() == sessions.deep_view().remove(id)
            &&& events == seq![cancel_event(id)]
        },
        None => {
            &&& after.active_sessions.deep_view() == Map::<Seq<char>, SessionModel>::empty()
            &&& events == cancel_events(sessions.keys())
            &&& sessions.keys().no_duplicates()
            &&& sessions.keys().to_set() == sessions.deep_view().dom()
        },
    }
}

/// Ends the session `target`, or every session where there is no target. An
/// event is given for the target whether or not it is active, and otherwise
/// for each session that was.
pub fn cancel_sessions(state: &mut ServerState, target: Option<String>) -> (r: Vec<AppEvent>)
    ensures
        is_cancelled(*old(state), *final(state), target.deep_view(), r.deep_view()),
{
    match target {
        Some(id) => {
            let _ = state.active_sessions.remove(id.as_str());
            just(failed(id.as_str(), "Transfer cancelled by sender".to_owned()))
        },
        None => {
            let mut events: Vec<AppEvent> = Vec::new();
            let n: usize = state.active_sessions.len();
            let ghost keys = state.active_sessions.keys();
            let mut i: usize = 0;
            while i < n
                invariant
                    i <= n,
                    n == keys.len(),
                    keys == state.active_sessions.keys(),
                    events@.len() == i,
                    forall|j: int|
                        0 <= j < i ==> (#[trigger] events@[j]).deep_view() == cancel_event(keys[j]),
                decreases n - i,
            {
                let entry: (&String, &ActiveSession) = state.active_sessions.entry(i);
                events.push(
                    failed(entry.0.as_str(), "Transfer cancelled by sender".to_owned()),
                );
                i = i + 1;
            }
            state.active_sessions = Table::new();
            assert(events.deep_view() =~= cancel_events(keys));
            events
        },
    }
}

/// Handles a cancellation with the query `query` and the body `body`, which is
/// read only where the query names no session and the body is not empty.
pub fn handle_cancel(state: &mut ServerState, query: &Table<String>, body: &str) -> (r: Vec<
    AppEvent,
>)
    ensures
        is_cancelled(
            *old(state),
            *final(state),
            cancel_target(
                query.deep_view(),
                if body@.len() > 0 {
                    parsed_json(body@)
                } else {
                    None
                },
            ),
            r.deep_view(),
        ),
{
    let target: Option<String> = match queried_session(query) {
        Some(id) => Some(id),
        None => {
            let document: Option<Json> = if body.is_empty() {
                None
            } else {
                parse_json(body)
            };
            cancelled_session(query, &document)
        },
    };
    cancel_sessions(state, target)
}

// ---------------------------------------------------------------------------
// Laws
// ---------------------------------------------------------------------------

/// The statuses have the numbers of HTTP, no two of them the same.
pub proof fn law_statuses_have_their_numbers(status: Status)
    ensures
        status.number() == 200 <==> status is Success,
        status.number() == 400 <==> status is BadRequest,
        status.number() == 403 <==> status is Forbidden,
        status.number() == 404 <==> status is NotFound,
        status.number() == 500 <==> status is InternalServerError,
{
}

/// This device describes itself by its alias and fingerprint as they are, as a
/// desktop device that offers no downloads.
pub proof fn law_info_is_of_this_device(alias: Seq<char>, fingerprint: Seq<char>)
    ensures
        own_info(alias, fingerprint).alias == alias,
        own_info(alias, fingerprint).fingerprint == fingerprint,
        own_info(alias, fingerprint).version == "2.2"@,
        own_info(alias, fingerprint).device_model == Some("monosend CLI"@),
        own_info(alias, fingerprint).device_type == Some(DeviceType::Desktop),
        !own_info(alias, fingerprint).download,
{
}

/// A registration makes its peer known exactly where it could be read, and no
/// other event comes of it.
pub proof fn law_readable_registrations_are_made_known(
    payload: Option<RegisterModel>,
    peer_ip: Seq<char>,
)
    ensures
        match payload {
            Some(message) => register_event(payload, peer_ip) == Some(
                EventModel::PeerDiscovered(registered_peer(message, peer_ip)),
            ),
            None => register_event(payload, peer_ip) is None,
        },
{
}

/// The name of a stored file is the last part of what the peer calls it: what
/// stands before the last slash makes no difference, and only a name that has no
/// last part of its own is replaced by a fixed one.
pub proof fn law_directories_make_no_difference(directory: Seq<char>, name: Seq<char>)
    requires
        name.len() > 0,
        !name.contains('/'),
        name != "."@,
        name != ".."@,
    ensures
        safe_name(name) == name,
        safe_name(directory + "/"@ + name) == name,
        safe_name(directory + "/.."@) == "received_file"@,
        safe_name(".."@) == "received_file"@,
        safe_name(""@) == "received_file"@,
{
    law_last_part_is_the_name(directory, name);
}

/// A cancellation whose query names a session under `sessionId` ends exactly that
/// one, whatever else the query and the body hold; its one event is for that
/// session.
pub proof fn law_query_names_the_cancelled_session(
    before: ServerState,
    after: ServerState,
    query: Map<Seq<char>, Seq<char>>,
    document: Option<JsonModel>,
    events: Seq<EventModel>,
)
    requires
        is_cancelled(before, after, cancel_target(query, document), events),
    ensures
        query.contains_key("sessionId"@) ==> {
            &&& after.active_sessions.deep_view() == before.active_sessions.deep_view().remove(
                query["sessionId"@],
            )
            &&& events == seq![
                EventModel::TransferFailed {
                    session_id: query["sessionId"@],
                    error: "Transfer cancelled by sender"@,
                },
            ]
        },
        !query.contains_key("sessionId"@) && query.contains_key("session_id"@) ==> {
            &&& after.active_sessions.deep_view() == before.active_sessions.deep_view().remove(
                query["session_id"@],
            )
            &&& events == seq![
                EventModel::TransferFailed {
                    session_id: query["session_id"@],
                    error: "Transfer cancelled by sender"@,
                },
            ]
        },
        after.alias == before.alias,
        after.fingerprint == before.fingerprint,
{
}

/// A cancellation whose query names no session ends the one that its body names,
/// under `sessionId` or else under `session_id`; where the body names none
/// either, every active session is ended, each with one event for it.
pub proof fn law_body_names_the_cancelled_session(
    before: ServerState,
    after: ServerState,
    query: Map<Seq<char>, Seq<char>>,
    document: Option<JsonModel>,
    events: Seq<EventModel>,
)
    requires
        is_cancelled(before, after, cancel_target(query, document), events),
        !query.contains_key("sessionId"@),
        !query.contains_key("session_id"@),
    ensures
        ({
            let first = match document {
                Some(document) => document.get("sessionId"@),
                None => None,
            };
            let second = match document {
                Some(document) => document.get("session_id"@),
                None => None,
            };
            let member = if first is Some {
                first
            } else {
                second
            };
            let sessions = before.active_sessions.deep_view();
            match member {
                Some(JsonModel::Text(id)) => {
                    &&& after.active_sessions.deep_view() == sessions.remove(id)
                    &&& events == seq![
                        EventModel::TransferFailed {
                            session_id: id,
                            error: "Transfer cancelled by sender"@,
                        },
                    ]
                },
                _ => {
                    &&& forall|id: Seq<char>|
                        !(#[trigger] after.active_sessions.deep_view().contains_key(id))
                    &&& events.no_duplicates()
                    &&& forall|event: EventModel| #[trigger]
                        events.contains(event) <==> (event matches EventModel::TransferFailed {
                            session_id,
                            error,
                        } && error == "Transfer cancelled by sender"@ && sessions.contains_key(
                            session_id,
                        ))
                },
            }
        }),
{
    if cancel_target(query, document) is None {
        let sessions = before.active_sessions.deep_view();
        let keys = before.active_sessions.keys();
        assert forall|event: EventModel| #[trigger] events.contains(event) implies (
        event matches EventModel::TransferFailed { session_id, error } && error
            == "Transfer cancelled by sender"@ && sessions.contains_key(session_id)) by {
            let i = choose|i: int| 0 <= i < events.len() && events[i] == event;
            assert(events[i] == cancel_event(keys[i]));
            assert(keys.to_set().contains(keys[i]));
        }
        assert forall|event: EventModel|
            (event matches EventModel::TransferFailed { session_id, error } && error
                == "Transfer cancelled by sender"@ && sessions.contains_key(
                session_id,
            )) implies #[trigger] events.contains(event) by {
            let id = event->TransferFailed_session_id;
            assert(keys.to_set().contains(id));
            let i = choose|i: int| 0 <= i < keys.len() && keys[i] == id;
            assert(events[i] == event);
        }
        assert forall|i: int, j: int| 0 <= i < j < events.len() implies events[i] != events[j] by {
            assert(events[i] == cancel_event(keys[i]));
            assert(events[j] == cancel_event(keys[j]));
        }
    }
}

/// A cancellation as it comes in ends the session that its query names, first
/// under `sessionId` and else under `session_id`, and no other; its one event is
/// for that session.
pub proof fn law_cancellations_go_by_the_query(
    state: &mut ServerState,
    query: &Table<String>,
    body: &str,
    events: Vec<AppEvent>,
)
    requires
        call_ensures(handle_cancel, (state, query, body), events),
        query.deep_view().contains_key("sessionId"@) || query.deep_view().contains_key(
            "session_id"@,
        ),
    ensures
        ({
            let id = if query.deep_view().contains_key("sessionId"@) {
                query.deep_view()["sessionId"@]
            } else {
                query.deep_view()["session_id"@]
            };
            &&& final(state).active_sessions.deep_view() == old(
                state,
            ).active_sessions.deep_view().remove(id)
            &&& events@.len() == 1
            &&& events@[0] matches AppEvent::TransferFailed { session_id, error }
            &&& session_id@ == id
            &&& error@ == "Transfer cancelled by sender"@
        }),
{
    let document = if body@.len() > 0 {
        parsed_json(body@)
    } else {
        None
    };
    law_query_names_the_cancelled_session(
        *old(state),
        *final(state),
        query.deep_view(),
        document,
        events.deep_view(),
    );
    assert(events.deep_view().len() == events@.len());
    assert(events.deep_view()[0] == events@[0].deep_view());
}

/// The session that a cancellation is for is named by its query, else by the
/// document in its body, and by nothing else.
pub proof fn law_cancelled_sessions_are_named(
    query: &Table<String>,
    document: &Option<Json>,
    r: Option<String>,
)
    requires
        call_ensures(cancelled_session, (query, document), r),
    ensures
        ({
            let named = query.deep_view();
            let member = match document.deep_view() {
                Some(value) => if value.get("sessionId"@) is Some {
                    value.get("sessionId"@)
                } else {
                    value.get("session_id"@)
                },
                None => None,
            };
            if named.contains_key("sessionId"@) {
                r is Some && r->0@ == named["sessionId"@]
            } else if named.contains_key("session_id"@) {
                r is Some && r->0@ == named["session_id"@]
            } else {
                match member {
                    Some(JsonModel::Text(id)) => r is Some && r->0@ == id,
                    _ => r is None,
                }
            }
        }),
{
}

/// A session that is cancelled is gone, and the others stay; without a target all
/// of them are gone. There is an event for the target, or for each.
pub proof fn law_cancelled_sessions_are_gone(
    state: &mut ServerState,
    target: Option<String>,
    events: Vec<AppEvent>,
    id: Seq<char>,
)
    requires
        call_ensures(cancel_sessions, (state, target), events),
    ensures
        ({
            let before = old(state).active_sessions.deep_view();
            let after = final(state).active_sessions.deep_view();
            &&& target is Some && id == target->0@ ==> !after.contains_key(id)
            &&& target is Some && id != target->0@ ==> after.contains_key(id)
                == before.contains_key(id) && (before.contains_key(id) ==> after[id] == before[id])
            &&& target is Some ==> events@.len() == 1
            &&& target is None ==> !after.contains_key(id)
            &&& target is None ==> events@.len() == old(state).active_sessions.keys().len()
        }),
{
    assert(events.deep_view().len() == events@.len());
}

/// A peer that registers or asks is told of this device as it is, and becomes
/// known where its registration can be read.
pub proof fn law_registrations_are_answered(
    state: &ServerState,
    peer_ip: &str,
    payload: Option<RegisterDto>,
    r: (InfoDto, Option<AppEvent>),
    info: InfoDto,
)
    requires
        call_ensures(handle_register, (state, peer_ip, payload), r),
        call_ensures(handle_info, (state,), info),
    ensures
        r.0.deep_view() == info.deep_view(),
        info.alias@ == state.alias@,
        info.fingerprint@ == state.fingerprint@,
        info.version@ == "2.2"@,
        info.device_type == Some(DeviceType::Desktop),
        !info.download,
        r.1 is Some <==> payload is Some,
        r.1 is Some ==> r.1->0 is PeerDiscovered && r.1->0->PeerDiscovered_0.deep_view()
            == registered_peer(payload->0.deep_view(), peer_ip@),
{
    law_info_is_of_this_device(state.alias@, state.fingerprint@);
    law_readable_registrations_are_made_known(payload.deep_view(), peer_ip@);
}

/// A file is stored under the last part of the name that a peer gives it, whatever
/// directory the name leads to.
pub proof fn law_files_stay_in_the_directory(
    name: &str,
    r: String,
    directory: Seq<char>,
    part: Seq<char>,
)
    requires
        call_ensures(safe_file_name, (name,), r),
        part.len() > 0,
        !part.contains('/'),
        part != "."@,
        part != ".."@,
    ensures
        name@ == part || name@ == directory + "/"@ + part ==> r@ == part,
        !r@.contains('/'),
        r@.len() > 0,
        r@ != "."@,
        r@ != ".."@,
{
    reveal_strlit(".");
    reveal_strlit("..");
    law_directories_make_no_difference(directory, part);
    assert("."@ =~= seq!['.']);
    assert(".."@ =~= seq!['.', '.']);
}

/// A server starts without sessions, for the device that it was set up for; its
/// answers have the numbers of HTTP.
pub proof fn law_servers_start_without_sessions(
    alias: String,
    fingerprint: String,
    state: ServerState,
    id: Seq<char>,
    status: Status,
    code: u16,
)
    requires
        call_ensures(ServerState::new, (alias, fingerprint), state),
        call_ensures(Status::code, (status,), code),
    ensures
        state.alias@ == alias@,
        state.fingerprint@ == fingerprint@,
        !state.active_sessions.deep_view().contains_key(id),
        code == (match status {
            Status::Success => 200u16,
            Status::BadRequest => 400,
            Status::Forbidden => 403,
            Status::NotFound => 404,
            Status::InternalServerError => 500,
        }),
{
}

/// A cancellation whose query names no session ends the one that its body names;
/// where the body is empty, is no document or names none, every session is ended.
pub proof fn law_cancellations_go_by_the_body(
    state: &mut ServerState,
    query: &Table<String>,
    body: &str,
    events: Vec<AppEvent>,
)
    requires
        call_ensures(handle_cancel, (state, query, body), events),
        !query.deep_view().contains_key("sessionId"@),
        !query.deep_view().contains_key("session_id"@),
    ensures
        ({
            let document = parsed_json(body@);
            let member = if body@.len() == 0 || document is None {
                None
            } else if document->0.get("sessionId"@) is Some {
                document->0.get("sessionId"@)
            } else {
                document->0.get("session_id"@)
            };
            let before = old(state).active_sessions.deep_view();
            let after = final(state).active_sessions.deep_view();
            match member {
                Some(JsonModel::Text(id)) => after == before.remove(id) && events@.len() == 1,
                _ => after.dom() == Set::<Seq<char>>::empty(),
            }
        }),
{
    let document = if body@.len() > 0 {
        parsed_json(body@)
    } else {
        None
    };
    law_body_names_the_cancelled_session(
        *old(state),
        *final(state),
        query.deep_view(),
        document,
        events.deep_view(),
    );
    assert(events.deep_view().len() == events@.len());
    if cancel_target(query.deep_view(), document) is None {
        assert(final(state).active_sessions.deep_view().dom() =~= Set::<Seq<char>>::empty());
    }
}

}
