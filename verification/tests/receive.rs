use monosend::events::{AppEvent, IncomingTransferRequest};
use monosend::localsend::protocol::{FileDto, Peer};
use monosend::receive::{
    acceptance_line, alias_for, answer_line, answer_request, ask_for_decision,
    ask_through_notification, copy_received_text_to_clipboard, decide, device_alias, handle_event,
    is_text_file, listening_line, received_line, request_body, requested_size, show_information,
    Answering, CopyOutcome, NotificationOutcome, ReceiveAction,
};

fn request(names: &[&str], size: u64) -> IncomingTransferRequest {
    IncomingTransferRequest {
        peer: Peer {
            alias: "Phone".to_string(),
            version: "2.0".to_string(),
            device_model: None,
            device_type: None,
            fingerprint: "F".to_string(),
            ip: "10.0.0.2".to_string(),
            port: 53317,
            protocol: "https".to_string(),
        },
        files: names
            .iter()
            .map(|name| FileDto {
                id: name.to_string(),
                file_name: name.to_string(),
                size,
                file_type: None,
                sha256: None,
                preview: None,
                metadata: None,
            })
            .collect(),
    }
}

fn ended(success: bool, stdout: &str, stderr: &str) -> NotificationOutcome {
    NotificationOutcome::Ended {
        success,
        stdout: stdout.to_string(),
        stderr: stderr.to_string(),
    }
}

#[test]
fn only_txt_files_are_copied_to_the_clipboard() {
    assert!(is_text_file("message.txt"));
    assert!(is_text_file("MESSAGE.TXT"));
    assert!(!is_text_file("message.md"));
    assert!(!is_text_file("txt"));
}

#[test]
fn text_files_are_told_by_their_name_alone() {
    assert!(is_text_file("/tmp/dir.md/a.tXt"));
    assert!(!is_text_file("/tmp/dir.txt/a"));
    assert!(!is_text_file(".txt"));
    assert!(!is_text_file("a.txt.gz"));
    assert!(!is_text_file(".."));
}

#[test]
fn device_is_named_after_its_host() {
    assert_eq!(alias_for(Some("desk".to_string())), "monosend (desk)");
    assert_eq!(alias_for(None), "monosend (device)");
    let alias = device_alias();
    assert!(alias.starts_with("monosend (") && alias.ends_with(")"));
    let hostname = hostname::get().map(|name| name.to_string_lossy().into_owned());
    assert_eq!(alias, alias_for(hostname.ok()));
}

#[test]
fn start_is_announced() {
    assert_eq!(
        listening_line(53318, "/home/me"),
        "Listening for LocalSend transfers on port 53318; saving to /home/me"
    );
    assert_eq!(
        acceptance_line(true),
        "Automatic acceptance is enabled. Press Ctrl+C to stop."
    );
    assert_eq!(
        acceptance_line(false),
        "Incoming requests will appear as desktop notifications. Press Ctrl+C to stop."
    );
}

#[test]
fn requests_are_put_in_words() {
    let few = request(&["a", "b"], 10);
    assert_eq!(requested_size(&few), Some(20));
    assert_eq!(
        request_body(&few, "20 B", "/home/me", "Accepting automatically"),
        "Phone wants to send 2 file(s) (20 B)\na, b\nSave to: /home/me\nAccepting automatically."
    );
    let four = request(&["a", "b", "c", "d"], 1);
    assert!(request_body(&four, "4 B", "/", "P").contains("\na, b, c, d\n"));
    let many = request(&["a", "b", "c", "d", "e", "f"], 1);
    assert!(request_body(&many, "6 B", "/", "P").contains("\na, b, c, d, and 2 more\n"));
    let none = request(&[], 1);
    assert_eq!(requested_size(&none), Some(0));
    let body = request_body(&none, "0 B", "/", "P");
    assert!(body.starts_with("Phone wants to send 0 file(s) (0 B)\n\n"));
    assert_eq!(requested_size(&request(&["a", "b"], u64::MAX)), None);
}

#[test]
fn requests_are_accepted_or_asked_about() {
    let few = request(&["a"], 10);
    match answer_request(&few, true, "10 B", "/d") {
        Answering::Accept { title, body } => {
            assert_eq!(title, "Incoming LocalSend transfer");
            assert!(body.ends_with("\nAccepting automatically."));
        }
        _ => panic!("acceptance is automatic"),
    }
    match answer_request(&few, false, "10 B", "/d") {
        Answering::Ask { body } => assert!(body.ends_with("\nChoose whether to receive it.")),
        _ => panic!("the user is asked"),
    }
}

#[test]
fn only_accept_accepts() {
    assert_eq!(ask_through_notification(&ended(true, "accept\n", "")), Ok(true));
    assert_eq!(ask_through_notification(&ended(true, "decline\n", "")), Ok(false));
    assert_eq!(ask_through_notification(&ended(true, "", "")), Ok(false));
    assert_eq!(
        ask_through_notification(&ended(false, "accept", " no daemon \n")),
        Err("no daemon".to_string())
    );
    assert_eq!(
        ask_through_notification(&ended(false, "accept", "\n")),
        Err("notify-send exited without a selection".to_string())
    );
    assert_eq!(
        ask_through_notification(&NotificationOutcome::NotRun),
        Err("failed to run notify-send; make sure libnotify is installed".to_string())
    );
}

#[test]
fn undecided_requests_are_declined() {
    let decision = decide(&ended(false, "accept", "no daemon"));
    assert!(!decision.accepted);
    assert_eq!(
        decision.complaints,
        [
            "Could not show actionable notification: no daemon",
            "Declining the transfer because no decision could be collected."
        ]
    );
    let decision = decide(&ended(true, "accept", ""));
    assert!(decision.accepted);
    assert!(decision.complaints.is_empty());
    assert_eq!(answer_line("Phone", true), "Accepted transfer from Phone.");
    assert_eq!(answer_line("Phone", false), "Declined transfer from Phone.");
}

#[test]
fn notifications_are_shown_with_notify_send() {
    assert_eq!(
        show_information("T", "B"),
        ["--app-name=monosend", "--icon=document-save", "T", "B"]
    );
    assert_eq!(
        ask_for_decision("B"),
        [
            "--app-name=monosend",
            "--icon=document-save",
            "--expire-time=0",
            "--wait",
            "--action=accept=Accept",
            "--action=decline=Decline",
            "Incoming LocalSend file",
            "B"
        ]
    );
}

#[test]
fn outcomes_are_told_and_shown() {
    match handle_event(AppEvent::TransferCompleted {
        session_id: "s".to_string(),
        message: "Received a".to_string(),
    }) {
        ReceiveAction::Inform { line, title, body } => {
            assert_eq!(line, "[s] Received a");
            assert_eq!(title, "LocalSend transfer complete");
            assert_eq!(body, "Received a");
        }
        _ => panic!("a completed transfer is told"),
    }
    match handle_event(AppEvent::TransferFailed {
        session_id: "s".to_string(),
        error: "lost".to_string(),
    }) {
        ReceiveAction::Warn { line, title, body } => {
            assert_eq!(line, "Transfer s failed: lost");
            assert_eq!(title, "LocalSend transfer failed");
            assert_eq!(body, "lost");
        }
        _ => panic!("a failed transfer is told"),
    }
    assert!(matches!(
        handle_event(AppEvent::IncomingTransfer(request(&[], 0))),
        ReceiveAction::Answer(_)
    ));
}

#[test]
fn only_complete_downloads_are_told() {
    let event = |bytes: u64, total: u64, is_upload: bool| AppEvent::TransferProgress {
        session_id: "s".to_string(),
        file_id: "f".to_string(),
        bytes_transferred: bytes,
        total_bytes: total,
        is_upload,
    };
    assert!(matches!(
        handle_event(event(5, 5, false)),
        ReceiveAction::Received { total_bytes: 5, .. }
    ));
    assert!(matches!(handle_event(event(4, 5, false)), ReceiveAction::Ignore));
    assert!(matches!(handle_event(event(5, 5, true)), ReceiveAction::Ignore));
    assert!(matches!(handle_event(event(0, 0, false)), ReceiveAction::Ignore));
    assert_eq!(received_line("s", "5 B"), "[s] Received 5 B");
}

#[test]
fn received_text_goes_to_the_clipboard() {
    match handle_event(AppEvent::FileReceived { path: "/d/note (1).TXT".to_string() }) {
        ReceiveAction::Copy(path) => assert_eq!(path, "/d/note (1).TXT"),
        _ => panic!("a text file is copied"),
    }
    assert!(matches!(
        handle_event(AppEvent::FileReceived { path: "/d/photo.jpg".to_string() }),
        ReceiveAction::Ignore
    ));
    let told = |outcome: CopyOutcome| copy_received_text_to_clipboard("/d/n.txt", &outcome);
    assert_eq!(
        told(CopyOutcome::Unread("gone".to_string())),
        (false, "Could not read /d/n.txt for the clipboard: gone".to_string())
    );
    assert_eq!(
        told(CopyOutcome::Copied("xclip")),
        (true, "Copied n.txt to the clipboard using xclip.".to_string())
    );
    assert_eq!(
        told(CopyOutcome::NotCopied("no tool".to_string())),
        (false, "Could not copy /d/n.txt to the clipboard: no tool".to_string())
    );
}
