use monosend::events::AppEvent;
use monosend::json::parse_json;
use monosend::localsend::destination::{
    candidate_name, CreateOutcome, DestinationSearch, SearchStep, MAX_CANDIDATES,
};
use monosend::localsend::prepare::{
    answer_prepare_upload, files_of_request, handle_prepare_upload, open_session,
    peer_of_request, PrepareAnswer,
};
use monosend::localsend::protocol::{register_self, DeviceType};
use monosend::localsend::server::{
    cancel_sessions, handle_cancel, handle_info, handle_register, safe_file_name, ServerState,
    Status,
};
use monosend::localsend::upload::{
    handle_upload, Upload, UploadEnd, UploadEvent, UploadQuery, UploadStep,
};
use monosend::table::Table;

fn server() -> ServerState {
    ServerState::new("monosend (desk)".to_string(), "FP".to_string())
}

const REQUEST: &str = r#"{
    "info": {"alias": "Phone", "version": "2.1", "deviceModel": "Pixel", "port": 53318,
             "protocol": "http", "fingerprint": "ABC"},
    "files": {"f1": {"id": "other", "fileName": "../a.txt", "size": 5, "fileType": "text/plain"},
              "f2": {"file_name": "b/c.png", "size": 0}}
}"#;

/// A server with the session `s` for the request, with the tokens `t1` and `t2`.
fn with_session() -> ServerState {
    let mut state = server();
    let document = parse_json(REQUEST).unwrap();
    open_session(
        &mut state,
        "10.0.0.2",
        &document,
        "s".to_string(),
        vec!["t1".to_string(), "t2".to_string()],
    );
    state
}

fn query(session: &str, file: &str, token: &str) -> UploadQuery {
    UploadQuery {
        session_id: session.to_string(),
        file_id: file.to_string(),
        token: token.to_string(),
    }
}

fn begin(state: &ServerState, file: &str, token: &str) -> Upload {
    handle_upload(&state.active_sessions, &query("s", file, token)).unwrap()
}

fn receive(step: UploadStep) -> Upload {
    match step {
        UploadStep::Receive { upload, .. } => upload,
        _ => panic!("the upload goes on"),
    }
}

fn finish(step: UploadStep) -> UploadEnd {
    match step {
        UploadStep::Finish(end) => end,
        _ => panic!("the upload ends"),
    }
}

fn error_of(events: &[AppEvent]) -> (&str, &str) {
    match events {
        [AppEvent::TransferFailed { session_id, error }] => (session_id, error),
        _ => panic!("one failure is made known"),
    }
}

#[test]
fn incoming_names_cannot_escape_download_directory() {
    assert_eq!(safe_file_name("../../secret.txt"), "secret.txt");
    assert_eq!(safe_file_name("folder/photo.jpg"), "photo.jpg");
    assert_eq!(safe_file_name(".."), "received_file");
}

#[test]
fn names_are_reduced_to_their_last_part() {
    assert_eq!(safe_file_name(""), "received_file");
    assert_eq!(safe_file_name("/"), "received_file");
    assert_eq!(safe_file_name("a/"), "a");
    assert_eq!(safe_file_name("a/."), "a");
    assert_eq!(safe_file_name("a/.."), "received_file");
    assert_eq!(safe_file_name("plain.txt"), "plain.txt");
    assert_eq!(safe_file_name("..."), "...");
    assert_eq!(safe_file_name("/etc/passwd"), "passwd");
}

#[test]
fn incoming_files_do_not_overwrite_existing_files() {
    let existing = ["note.txt"];
    let mut search = DestinationSearch::new("note.txt".to_string());
    let mut steps = 0;
    loop {
        let outcome = if existing.contains(&search.name().as_str()) {
            CreateOutcome::AlreadyExists
        } else {
            CreateOutcome::Created
        };
        if search.create_destination(outcome) == SearchStep::Found {
            break;
        }
        steps += 1;
    }
    assert_eq!(steps, 1);
    assert_eq!(search.name(), "note (1).txt");
}

#[test]
fn numbered_names_keep_the_extension() {
    assert_eq!(candidate_name("note.txt", 0), "note.txt");
    assert_eq!(candidate_name("note.txt", 12), "note (12).txt");
    assert_eq!(candidate_name("archive.tar.gz", 1), "archive.tar (1).gz");
    assert_eq!(candidate_name("README", 2), "README (2)");
    assert_eq!(candidate_name(".profile", 3), ".profile (3)");
    assert_eq!(candidate_name("dot.", 4), "dot (4).");
}

#[test]
fn search_for_a_name_is_bounded() {
    let mut search = DestinationSearch::new("a".to_string());
    let mut tries = 1;
    while search.create_destination(CreateOutcome::AlreadyExists) == SearchStep::TryNext {
        tries += 1;
    }
    assert_eq!(tries, MAX_CANDIDATES);
    assert_eq!(tries, 10_000);
    assert_eq!(search.name(), "a (9999)");
    assert_eq!(
        search.create_destination(CreateOutcome::AlreadyExists),
        SearchStep::TooMany
    );
    let mut search = DestinationSearch::new("a".to_string());
    assert_eq!(search.create_destination(CreateOutcome::Failed), SearchStep::GiveUp);
}

#[test]
fn server_describes_its_device() {
    let info = handle_info(&server());
    assert_eq!(info.alias, "monosend (desk)");
    assert_eq!(info.fingerprint, "FP");
    assert_eq!(info.version, "2.2");
    assert_eq!(info.device_model.as_deref(), Some("monosend CLI"));
    assert_eq!(info.device_type, Some(DeviceType::Desktop));
    assert!(!info.download);
}

#[test]
fn registrations_make_peers_known() {
    let mut message = register_self("Phone", "ABC", 4000, Some(false));
    let (info, event) = handle_register(&server(), "10.0.0.2", Some(message.clone()));
    assert_eq!(info.alias, "monosend (desk)");
    match event {
        Some(AppEvent::PeerDiscovered(peer)) => {
            assert_eq!(peer.alias, "Phone");
            assert_eq!(peer.fingerprint, "ABC");
            assert_eq!(peer.ip, "10.0.0.2");
            assert_eq!(peer.port, 4000);
            assert_eq!(peer.protocol, "https");
        }
        _ => panic!("the peer is made known"),
    }
    message.alias = String::new();
    message.fingerprint = String::new();
    message.port = None;
    message.protocol = None;
    match handle_register(&server(), "10.0.0.2", Some(message)).1 {
        Some(AppEvent::PeerDiscovered(peer)) => {
            assert_eq!(peer.alias, "Device (10.0.0.2)");
            assert_eq!(peer.fingerprint, "10.0.0.2:53317");
            assert_eq!(peer.port, 53317);
            assert_eq!(peer.protocol, "https");
        }
        _ => panic!("the peer is made known"),
    }
    let (info, event) = handle_register(&server(), "10.0.0.2", None);
    assert_eq!(info.fingerprint, "FP");
    assert!(event.is_none());
}

#[test]
fn requests_name_their_sender() {
    let peer = peer_of_request(&parse_json(REQUEST).unwrap(), "10.0.0.2");
    assert_eq!(peer.alias, "Phone");
    assert_eq!(peer.version, "2.1");
    assert_eq!(peer.device_model.as_deref(), Some("Pixel"));
    assert_eq!(peer.device_type, Some(DeviceType::Mobile));
    assert_eq!(peer.fingerprint, "ABC");
    assert_eq!(peer.port, 53318);
    assert_eq!(peer.protocol, "http");
    let peer = peer_of_request(&parse_json("{}").unwrap(), "10.0.0.2");
    assert_eq!(peer.alias, "LocalSend Device");
    assert_eq!(peer.version, "2.0");
    assert_eq!(peer.device_model, None);
    assert_eq!(peer.fingerprint, "10.0.0.2:53317");
    assert_eq!(peer.protocol, "https");
    let odd = r#"{"info": {"alias": "", "fingerprint": "", "port": 65537}}"#;
    let peer = peer_of_request(&parse_json(odd).unwrap(), "10.0.0.2");
    assert_eq!(peer.alias, "LocalSend Device");
    assert_eq!(peer.port, 1);
    assert_eq!(peer.fingerprint, "10.0.0.2:1");
}

#[test]
fn offered_files_are_read() {
    let files = files_of_request(&parse_json(REQUEST).unwrap());
    assert_eq!(files.len(), 2);
    let first = files.iter().find(|file| file.id == "f1").unwrap();
    assert_eq!(first.file_name, "a.txt");
    assert_eq!(first.size, 5);
    assert_eq!(first.file_type.as_deref(), Some("text/plain"));
    let second = files.iter().find(|file| file.id == "f2").unwrap();
    assert_eq!(second.file_name, "c.png");
    assert_eq!(second.size, 0);
    assert_eq!(second.file_type, None);
    let list = r#"{"files": [{"id": "x", "fileName": 7, "size": -1}, {"fileName": ".."}, 3]}"#;
    let files = files_of_request(&parse_json(list).unwrap());
    let seen: Vec<(&str, &str, u64)> = files
        .iter()
        .map(|file| (file.id.as_str(), file.file_name.as_str(), file.size))
        .collect();
    assert_eq!(
        seen,
        [
            ("x", "received_file", 0),
            ("1", "received_file", 0),
            ("2", "received_file", 0)
        ]
    );
    assert!(files_of_request(&parse_json(r#"{"files": "none"}"#).unwrap()).is_empty());
    assert!(files_of_request(&parse_json("[]").unwrap()).is_empty());
}

#[test]
fn requests_open_sessions() {
    let mut state = server();
    let pending = handle_prepare_upload(&mut state, "10.0.0.2", REQUEST).unwrap();
    assert_eq!(pending.request.peer.alias, "Phone");
    assert_eq!(pending.request.files.len(), 2);
    assert_eq!(pending.response.session_id.len(), 36);
    let session = state.active_sessions.get(&pending.response.session_id).unwrap();
    assert_eq!(session.files.get("f1"), Some(&("a.txt".to_string(), 5)));
    assert_eq!(session.files.get("f2"), Some(&("c.png".to_string(), 0)));
    let token = pending.response.files.get("f1").unwrap();
    assert_eq!(session.tokens.get("f1"), Some(token));
    assert_eq!(token.len(), 36);
    assert_ne!(token, pending.response.files.get("f2").unwrap());
    let another = handle_prepare_upload(&mut state, "10.0.0.2", "{}").unwrap();
    assert_ne!(another.response.session_id, pending.response.session_id);
    assert_eq!(state.active_sessions.len(), 2);
}

#[test]
fn requests_that_are_no_json_are_refused() {
    let mut state = with_session();
    assert!(matches!(
        handle_prepare_upload(&mut state, "10.0.0.2", "{"),
        Err(Status::BadRequest)
    ));
    assert_eq!(state.active_sessions.len(), 1);
    assert_eq!(Status::BadRequest.code(), 400);
}

#[test]
fn requests_are_answered() {
    let mut state = server();
    let pending = handle_prepare_upload(&mut state, "10.0.0.2", REQUEST).unwrap();
    let id = pending.response.session_id.clone();
    match answer_prepare_upload(pending.response, true) {
        PrepareAnswer::Accepted(response) => {
            assert_eq!(response.session_id, id);
            assert_eq!(response.files.len(), 2);
        }
        _ => panic!("the request was accepted"),
    }
    let pending = handle_prepare_upload(&mut state, "10.0.0.2", REQUEST).unwrap();
    let id = pending.response.session_id.clone();
    match answer_prepare_upload(pending.response, false) {
        PrepareAnswer::Declined(status, event) => {
            assert_eq!(status, Status::Forbidden);
            assert_eq!(status.code(), 403);
            assert_eq!(
                error_of(&[event]),
                (id.as_str(), "Incoming transfer request was declined or cancelled")
            );
        }
        _ => panic!("the request was declined"),
    }
}

#[test]
fn uploads_need_their_token() {
    let state = with_session();
    let refused = |session: &str, file: &str, token: &str| {
        handle_upload(&state.active_sessions, &query(session, file, token)).unwrap_err()
    };
    assert_eq!(refused("x", "f1", "t1"), Status::NotFound);
    assert_eq!(refused("s", "f1", "t2"), Status::Forbidden);
    assert_eq!(refused("s", "f3", "t1"), Status::Forbidden);
    assert_eq!(begin(&state, "f1", "t1").file_name(), "a.txt");
    assert_eq!(Status::NotFound.code(), 404);
}

#[test]
fn uploads_of_the_declared_size_are_stored() {
    let mut state = with_session();
    let upload = begin(&state, "f1", "t1");
    let upload = receive(upload.step(&mut state.active_sessions, UploadEvent::Created));
    let upload = receive(upload.step(&mut state.active_sessions, UploadEvent::Chunk(2)));
    match upload.step(&mut state.active_sessions, UploadEvent::Chunk(3)) {
        UploadStep::Receive { upload, events } => {
            match events.as_slice() {
                [AppEvent::TransferProgress {
                    bytes_transferred,
                    total_bytes,
                    is_upload,
                    file_id,
                    session_id,
                }] => {
                    assert_eq!((*bytes_transferred, *total_bytes), (5, 5));
                    assert!(!is_upload);
                    assert_eq!((session_id.as_str(), file_id.as_str()), ("s", "f1"));
                }
                _ => panic!("progress is made known"),
            }
            match upload.step(&mut state.active_sessions, UploadEvent::Ended) {
                UploadStep::Flush(received) => {
                    let end = received.flushed(&mut state.active_sessions, "/d/a.txt".to_string());
                    assert_eq!(end.status, Status::Success);
                    assert_eq!(end.status.code(), 200);
                    assert!(!end.remove_file);
                    match end.events.as_slice() {
                        [AppEvent::FileReceived { path }] => assert_eq!(path, "/d/a.txt"),
                        _ => panic!("another file is awaited"),
                    }
                }
                _ => panic!("all contents have come"),
            }
        }
        _ => panic!("the upload goes on"),
    }
    assert_eq!(
        handle_upload(&state.active_sessions, &query("s", "f1", "t1")).unwrap_err(),
        Status::NotFound
    );
    let upload = begin(&state, "f2", "t2");
    let upload = receive(upload.step(&mut state.active_sessions, UploadEvent::Created));
    match upload.step(&mut state.active_sessions, UploadEvent::Ended) {
        UploadStep::Flush(received) => {
            let end = received.flushed(&mut state.active_sessions, "/d/c.png".to_string());
            match end.events.as_slice() {
                [AppEvent::FileReceived { .. }, AppEvent::TransferCompleted { session_id, message }] => {
                    assert_eq!(session_id, "s");
                    assert_eq!(message, "Received c.png");
                }
                _ => panic!("no other file is awaited"),
            }
        }
        _ => panic!("an empty file has no contents"),
    }
    assert!(state.active_sessions.is_empty());
}

#[test]
fn uploads_larger_than_declared_end_the_session() {
    let mut state = with_session();
    let upload = begin(&state, "f1", "t1");
    let upload = receive(upload.step(&mut state.active_sessions, UploadEvent::Created));
    let end = finish(upload.step(&mut state.active_sessions, UploadEvent::Chunk(6)));
    assert_eq!(end.status, Status::BadRequest);
    assert!(end.remove_file);
    assert_eq!(
        error_of(&end.events),
        ("s", "Received more data than declared for a.txt")
    );
    assert!(state.active_sessions.is_empty());
}

#[test]
fn uploads_that_break_off_end_the_session() {
    for (event, error) in [
        (UploadEvent::Ended, "Transfer cancelled by sender (received 2/5 bytes)"),
        (UploadEvent::TimedOut, "Upload stream timed out or cancelled for a.txt"),
        (UploadEvent::Broken, "Upload stream interrupted or cancelled for a.txt"),
    ] {
        let mut state = with_session();
        let upload = begin(&state, "f1", "t1");
        let upload = receive(upload.step(&mut state.active_sessions, UploadEvent::Created));
        let upload = receive(upload.step(&mut state.active_sessions, UploadEvent::Chunk(2)));
        let end = finish(upload.step(&mut state.active_sessions, event));
        assert_eq!(end.status, Status::BadRequest);
        assert!(end.remove_file);
        assert_eq!(error_of(&end.events), ("s", error));
        assert!(state.active_sessions.is_empty());
    }
}

#[test]
fn uploads_that_cannot_be_written_fail() {
    let mut state = with_session();
    let upload = begin(&state, "f1", "t1");
    let end = finish(upload.step(&mut state.active_sessions, UploadEvent::NotCreated));
    assert_eq!(end.status, Status::InternalServerError);
    assert_eq!(end.status.code(), 500);
    assert!(!end.remove_file);
    assert_eq!(error_of(&end.events), ("s", "Failed creating file a.txt"));
    let upload = begin(&state, "f1", "t1");
    let end = finish(upload.step(&mut state.active_sessions, UploadEvent::NotWritten));
    assert_eq!(error_of(&end.events), ("s", "Failed writing file a.txt"));
    assert!(!end.remove_file);
    assert_eq!(state.active_sessions.len(), 1);
    let upload = begin(&state, "f2", "t2");
    match upload.step(&mut state.active_sessions, UploadEvent::Ended) {
        UploadStep::Flush(received) => {
            let end = received.not_flushed(&mut state.active_sessions);
            assert_eq!(end.status, Status::InternalServerError);
            assert!(end.remove_file);
            assert_eq!(error_of(&end.events), ("s", "Failed finalizing file c.png"));
        }
        _ => panic!("all contents have come"),
    }
    assert!(state.active_sessions.is_empty());
}

#[test]
fn cancelled_sessions_stop_their_uploads() {
    let mut state = with_session();
    let upload = begin(&state, "f1", "t1");
    let upload = receive(upload.step(&mut state.active_sessions, UploadEvent::Created));
    let events = cancel_sessions(&mut state, Some("s".to_string()));
    assert_eq!(error_of(&events), ("s", "Transfer cancelled by sender"));
    let end = finish(upload.step(&mut state.active_sessions, UploadEvent::Chunk(2)));
    assert_eq!(end.status, Status::BadRequest);
    assert!(end.remove_file);
}

#[test]
fn cancelled_sessions_are_not_completed() {
    let mut state = with_session();
    let upload = begin(&state, "f1", "t1");
    let upload = receive(upload.step(&mut state.active_sessions, UploadEvent::Created));
    let upload = receive(upload.step(&mut state.active_sessions, UploadEvent::Chunk(5)));
    cancel_sessions(&mut state, Some("s".to_string()));
    match upload.step(&mut state.active_sessions, UploadEvent::Ended) {
        UploadStep::Flush(received) => {
            let end = received.flushed(&mut state.active_sessions, "/d/a.txt".to_string());
            assert_eq!(end.status, Status::Success);
            assert!(!end.remove_file);
            match end.events.as_slice() {
                [AppEvent::FileReceived { path }] => assert_eq!(path, "/d/a.txt"),
                _ => panic!("the file is there, the transfer is not complete"),
            }
        }
        _ => panic!("all contents have come"),
    }

    let mut state = with_session();
    let upload = begin(&state, "f2", "t2");
    match upload.step(&mut state.active_sessions, UploadEvent::Ended) {
        UploadStep::Flush(received) => {
            cancel_sessions(&mut state, None);
            let end = received.flushed(&mut state.active_sessions, "/d/c.png".to_string());
            assert!(matches!(end.events.as_slice(), [AppEvent::FileReceived { .. }]));
        }
        _ => panic!("all contents have come"),
    }

    let mut state = with_session();
    let upload = begin(&state, "f1", "t1");
    cancel_sessions(&mut state, None);
    let end = finish(upload.step(&mut state.active_sessions, UploadEvent::Ended));
    assert_eq!(
        error_of(&end.events),
        ("s", "Transfer cancelled by sender (received 0/5 bytes)")
    );
}

#[test]
fn repeated_keys_offer_one_file() {
    let twice = r#"{"files": {"f": {"fileName": "a", "size": 1},
                              "f": {"fileName": "b", "size": 2}}}"#;
    let mut state = server();
    let pending = handle_prepare_upload(&mut state, "10.0.0.2", twice).unwrap();
    assert_eq!(pending.request.files.len(), 1);
    assert_eq!(pending.response.files.len(), 1);
    let session = state.active_sessions.get(&pending.response.session_id).unwrap();
    assert_eq!(session.files.get("f"), Some(&("b".to_string(), 2)));
}

#[test]
fn cancellations_name_their_session() {
    let empty = Table::new();
    let mut named = Table::new();
    named.insert("session_id".to_string(), "s".to_string());
    let mut both = Table::new();
    both.insert("session_id".to_string(), "x".to_string());
    both.insert("sessionId".to_string(), "s".to_string());

    for query in [&named, &both] {
        let mut state = with_session();
        let events = handle_cancel(&mut state, query, r#"{"sessionId": "y"}"#);
        assert_eq!(error_of(&events).0, "s");
        assert!(state.active_sessions.is_empty());
    }
    for body in [r#"{"sessionId": "s"}"#, r#"{"session_id": "s"}"#] {
        let mut state = with_session();
        let events = handle_cancel(&mut state, &empty, body);
        assert_eq!(error_of(&events).0, "s");
        assert!(state.active_sessions.is_empty());
    }
    let mut state = with_session();
    let events = handle_cancel(&mut state, &empty, r#"{"sessionId": "unknown"}"#);
    assert_eq!(error_of(&events).0, "unknown");
    assert_eq!(state.active_sessions.len(), 1);
    for body in ["", "{", "{}", r#"{"sessionId": 3}"#] {
        let mut state = with_session();
        let events = handle_cancel(&mut state, &empty, body);
        assert_eq!(error_of(&events).0, "s");
        assert!(state.active_sessions.is_empty());
        assert!(handle_cancel(&mut state, &empty, body).is_empty());
    }
}
