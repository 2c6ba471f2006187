use monosend::events::AppEvent;
use monosend::localsend::client::{
    file_type, LocalFile, LocalSendClient, PrepareReply, SendStep, Sending, Transfer, UploadReply,
};
use monosend::localsend::protocol::{Peer, PrepareUploadRespDto};
use monosend::localsend::tls::generate_self_signed_cert;
use monosend::table::Table;

fn client() -> LocalSendClient {
    let tls = generate_self_signed_cert("me").unwrap();
    LocalSendClient::new("me".to_string(), "FP".to_string(), 4000, tls.client_identity).unwrap()
}

fn phone() -> Peer {
    Peer {
        alias: "Phone".to_string(),
        version: "2.0".to_string(),
        device_model: None,
        device_type: None,
        fingerprint: "P".to_string(),
        ip: "10.0.0.2".to_string(),
        port: 53317,
        protocol: "https".to_string(),
    }
}

fn files() -> Vec<LocalFile> {
    vec![
        LocalFile { path: "/home/me/a.txt".to_string(), size: Some(10) },
        LocalFile { path: "gone".to_string(), size: None },
        LocalFile { path: "b.PNG".to_string(), size: Some(5) },
    ]
}

fn sending() -> Sending {
    let ids = vec!["i".to_string(), "j".to_string(), "k".to_string()];
    client().offer_files(&phone(), &files(), ids).unwrap()
}

fn response(entries: &[(&str, &str)]) -> PrepareUploadRespDto {
    let mut files = Table::new();
    for (id, token) in entries {
        files.insert(id.to_string(), token.to_string());
    }
    PrepareUploadRespDto { session_id: "s".to_string(), files }
}

fn send(step: SendStep) -> Transfer {
    match step {
        SendStep::Send(transfer) => transfer,
        SendStep::Done(_) => panic!("there is a file to send"),
    }
}

fn completed(event: &AppEvent) -> (&str, &str) {
    match event {
        AppEvent::TransferCompleted { session_id, message } => (session_id, message),
        _ => panic!("the transfer completed"),
    }
}

fn failed(event: &AppEvent) -> (&str, &str) {
    match event {
        AppEvent::TransferFailed { session_id, error } => (session_id, error),
        _ => panic!("the transfer failed"),
    }
}

fn answered(code: u16, text: &str) -> UploadReply {
    UploadReply::Answered { code, text: text.to_string() }
}

#[test]
fn clipboard_text_is_sent_as_plain_text() {
    assert_eq!(file_type("clipboard.txt"), "text/plain");
}

#[test]
fn media_types_follow_the_extension() {
    for (path, expected) in [
        ("a.md", "text/plain"),
        ("a.LOG", "text/plain"),
        ("a.json", "application/json"),
        ("a.png", "image/png"),
        ("a.jpg", "image/jpeg"),
        ("a.JPEG", "image/jpeg"),
        ("a.gif", "image/gif"),
        ("/x.txt/a.pdf", "application/pdf"),
        ("a.tar.gz", "application/octet-stream"),
        ("txt", "application/octet-stream"),
        (".txt", "application/octet-stream"),
        ("/x.txt/a", "application/octet-stream"),
        ("", "application/octet-stream"),
    ] {
        assert_eq!(file_type(path), expected, "{path}");
    }
}

#[test]
fn readable_files_are_offered() {
    let sending = sending();
    assert_eq!(
        sending.prepare_url(),
        "https://10.0.0.2:53317/api/localsend/v2/prepare-upload"
    );
    let request = sending.request();
    assert_eq!(request.info.alias, "me");
    assert_eq!(request.info.fingerprint, "FP");
    assert_eq!(request.info.port, Some(4000));
    assert_eq!(request.info.announce, None);
    assert_eq!(request.files.len(), 2);
    let first = request.files.get("i").unwrap();
    assert_eq!(first.id, "i");
    assert_eq!(first.file_name, "a.txt");
    assert_eq!(first.size, 10);
    assert_eq!(first.file_type.as_deref(), Some("text/plain"));
    assert_eq!(first.sha256, None);
    assert!(request.files.get("j").is_none());
    let third = request.files.get("k").unwrap();
    assert_eq!(third.file_name, "b.PNG");
    assert_eq!(third.file_type.as_deref(), Some("image/png"));
}

#[test]
fn offers_have_random_identifiers() {
    let sending = client().send_files(&phone(), &files()).unwrap();
    let request = sending.request();
    assert_eq!(request.files.len(), 2);
    let (one, file) = request.files.entry(0);
    let (other, _) = request.files.entry(1);
    assert_eq!(one.len(), 36);
    assert_eq!(*one, file.id);
    assert_ne!(one, other);
}

#[test]
fn nothing_is_offered_without_readable_files() {
    for files in [vec![], vec![LocalFile { path: "gone".to_string(), size: None }]] {
        match client().send_files(&phone(), &files) {
            Err(AppEvent::StatusMessage(message)) => {
                assert_eq!(message, "No valid files to send")
            }
            _ => panic!("there is nothing to send"),
        }
    }
}

#[test]
fn transfers_may_end_before_they_begin() {
    let sending = sending();
    let event = sending.prepare_reply(&PrepareReply::Unreachable("refused".to_string())).unwrap();
    assert_eq!(failed(&event), ("unknown", "Failed to connect to peer: refused"));
    let reply = |code: u16, text: &str| {
        sending.prepare_reply(&PrepareReply::Answered { code, text: text.to_string() })
    };
    let event = reply(204, "204 No Content").unwrap();
    assert_eq!(completed(&event), ("none", "Phone already has the selected files"));
    let event = reply(403, "403 Forbidden").unwrap();
    assert_eq!(
        failed(&event),
        ("unknown", "Transfer cancelled or declined by receiver (Phone)")
    );
    let event = reply(500, "500 Internal Server Error").unwrap();
    assert_eq!(
        failed(&event),
        (
            "unknown",
            "Receiver returned 500 Internal Server Error while preparing the transfer"
        )
    );
    assert!(reply(300, "300 Multiple Choices").is_some());
    assert!(reply(199, "199").is_some());
    assert!(reply(200, "200 OK").is_none());
    assert!(reply(299, "299").is_none());
    let event = sending.prepare_reply(&PrepareReply::Unreadable("eof".to_string())).unwrap();
    assert_eq!(
        failed(&event),
        ("unknown", "Transfer rejected or cancelled by peer: eof")
    );
}

#[test]
fn peers_may_ask_for_nothing() {
    match sending().begin_transfer(response(&[])) {
        SendStep::Done(event) => assert_eq!(
            completed(&event),
            ("s", "Phone did not request any of the selected files")
        ),
        _ => panic!("nothing was asked for"),
    }
    match sending().begin_transfer(response(&[("unknown", "t")])) {
        SendStep::Done(event) => {
            assert_eq!(completed(&event), ("s", "Successfully sent files to Phone"))
        }
        _ => panic!("nothing that was offered was asked for"),
    }
}

#[test]
fn accepted_files_are_sent_one_by_one() {
    let asked = response(&[("x", "tx"), ("k", "tk"), ("y", "ty"), ("i", "ti")]);
    let sending = sending();
    assert_eq!(sending.accepted_bytes(&asked), Some(15));
    let transfer = send(sending.begin_transfer(asked));
    assert_eq!(transfer.source(), 2);
    assert_eq!(
        transfer.upload_url(),
        "https://10.0.0.2:53317/api/localsend/v2/upload?sessionId=s&fileId=k&token=tk"
    );
    let mut progress = transfer.progress();
    assert!(progress.can_count(3));
    match progress.chunk(3) {
        AppEvent::TransferProgress {
            session_id,
            file_id,
            bytes_transferred,
            total_bytes,
            is_upload,
        } => {
            assert_eq!(session_id, "s");
            assert_eq!(file_id, "b.PNG to Phone");
            assert_eq!((bytes_transferred, total_bytes), (3, 15));
            assert!(is_upload);
        }
        _ => panic!("progress is reported"),
    }
    assert!(!progress.can_count(u64::MAX - 2));
    let (report, step) = transfer.uploaded(answered(200, "200 OK"));
    match report {
        Some(AppEvent::TransferProgress { bytes_transferred, total_bytes, .. }) => {
            assert_eq!((bytes_transferred, total_bytes), (5, 15))
        }
        _ => panic!("progress is reported"),
    }
    let transfer = send(step);
    assert_eq!(transfer.source(), 0);
    let mut progress = transfer.progress();
    match progress.chunk(4) {
        AppEvent::TransferProgress { file_id, bytes_transferred, .. } => {
            assert_eq!(file_id, "a.txt to Phone");
            assert_eq!(bytes_transferred, 9);
        }
        _ => panic!("progress is reported"),
    }
    let (report, step) = transfer.uploaded(answered(204, "204 No Content"));
    match report {
        Some(AppEvent::TransferProgress { bytes_transferred, total_bytes, .. }) => {
            assert_eq!((bytes_transferred, total_bytes), (15, 15))
        }
        _ => panic!("progress is reported"),
    }
    match step {
        SendStep::Done(event) => {
            assert_eq!(completed(&event), ("s", "Successfully sent files to Phone"))
        }
        _ => panic!("all files are sent"),
    }
}

#[test]
fn failed_uploads_end_the_transfer() {
    let start = || send(sending().begin_transfer(response(&[("i", "ti"), ("k", "tk")])));
    let outcome = |reply: UploadReply| match start().uploaded(reply) {
        (None, SendStep::Done(event)) => {
            let (session, error) = failed(&event);
            assert_eq!(session, "s");
            error.to_string()
        }
        _ => panic!("the transfer ends"),
    };
    assert_eq!(
        outcome(UploadReply::NotSent("reset".to_string())),
        "Upload cancelled or failed: reset"
    );
    assert_eq!(
        outcome(answered(403, "403 Forbidden")),
        "Transfer cancelled by receiver (Phone)"
    );
    assert_eq!(
        outcome(answered(404, "404 Not Found")),
        "Upload failed with status 404 Not Found"
    );
    let (event, url) = start().not_opened("\"/home/me/a.txt\"", "denied");
    assert_eq!(
        failed(&event),
        ("s", "Failed to open file \"/home/me/a.txt\": denied")
    );
    assert_eq!(url, "https://10.0.0.2:53317/api/localsend/v2/cancel?sessionId=s");
}

#[test]
fn sizes_that_cannot_be_counted_are_told() {
    let files = vec![
        LocalFile { path: "a".to_string(), size: Some(u64::MAX) },
        LocalFile { path: "b".to_string(), size: Some(1) },
    ];
    let ids = vec!["i".to_string(), "j".to_string()];
    let sending = client().offer_files(&phone(), &files, ids).unwrap();
    assert_eq!(sending.accepted_bytes(&response(&[("i", "t")])), Some(u64::MAX));
    assert_eq!(sending.accepted_bytes(&response(&[("i", "t"), ("j", "t")])), None);
}
