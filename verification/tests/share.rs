use monosend::events::{AppEvent, IncomingTransferRequest};
use monosend::localsend::client::LocalFile;
use monosend::localsend::discovery::Ipv4;
use monosend::localsend::protocol::Peer;
use monosend::share::{
    add_peer, discover_peers, is_own_receiver, parse_selection, peer_menu, progress_line,
    prompt_for_peer, selection_prompt, shared_size, sharing_line, validate_files, Choice,
    DiscoveryStep, Monitor, MonitorEvent, MonitorStep, PathProbe, SearchEvent,
};

fn peer(alias: &str, fingerprint: &str, ip: &str) -> Peer {
    Peer {
        alias: alias.to_string(),
        version: "2.0".to_string(),
        device_model: None,
        device_type: None,
        fingerprint: fingerprint.to_string(),
        ip: ip.to_string(),
        port: 53317,
        protocol: "https".to_string(),
    }
}

fn ip(a: u8, b: u8, c: u8, d: u8) -> Ipv4 {
    Ipv4 { a, b, c, d }
}

fn progress(bytes: u64, total: u64, is_upload: bool) -> MonitorEvent {
    MonitorEvent::Event(AppEvent::TransferProgress {
        session_id: "s".to_string(),
        file_id: "a.txt to Phone".to_string(),
        bytes_transferred: bytes,
        total_bytes: total,
        is_upload,
    })
}

fn percent(step: MonitorStep) -> Option<u64> {
    match step {
        MonitorStep::Report { percent, .. } => Some(percent),
        MonitorStep::Watch => None,
        _ => panic!("neither a report nor silence"),
    }
}

#[test]
fn parses_numbered_device_selections() {
    assert_eq!(parse_selection("1\n", 3), Some(0));
    assert_eq!(parse_selection(" 3 ", 3), Some(2));
    assert_eq!(parse_selection("0", 3), None);
    assert_eq!(parse_selection("4", 3), None);
    assert_eq!(parse_selection("device", 3), None);
}

#[test]
fn selections_are_read_as_numbers() {
    assert_eq!(parse_selection("+2\r\n", 3), Some(1));
    assert_eq!(parse_selection("\u{2003}2", 3), Some(1));
    assert_eq!(parse_selection("002", 3), Some(1));
    assert_eq!(parse_selection("-2", 3), None);
    assert_eq!(parse_selection("2 3", 3), None);
    assert_eq!(parse_selection("", 3), None);
    assert_eq!(parse_selection("1", 0), None);
    assert_eq!(parse_selection("99999999999999999999999", 3), None);
}

#[test]
fn rejects_directories_as_share_inputs() {
    let result = validate_files::<String>(vec![("/tmp".to_string(), PathProbe::NotAFile)]);
    assert!(result.is_err());
}

#[test]
fn first_refused_path_counts() {
    let probes = vec![
        ("a".to_string(), PathProbe::File("/x/a".to_string())),
        ("b".to_string(), PathProbe::Unreadable),
        ("c".to_string(), PathProbe::NotAFile),
    ];
    assert_eq!(validate_files(probes), Err((1, "could not read b".to_string())));
    let probes = vec![("c".to_string(), PathProbe::<u8>::NotAFile)];
    assert_eq!(validate_files(probes), Err((0, "c is not a file".to_string())));
    let probes = vec![("d".to_string(), PathProbe::<u8>::Unresolved)];
    assert_eq!(validate_files(probes), Err((0, "could not resolve d".to_string())));
    let probes = vec![
        ("a".to_string(), PathProbe::File(4)),
        ("b".to_string(), PathProbe::File(5)),
    ];
    assert_eq!(validate_files(probes), Ok(vec![4, 5]));
}

#[test]
fn shared_files_are_summed_up() {
    let file = |size| LocalFile { path: "f".to_string(), size };
    assert_eq!(shared_size(&vec![file(Some(3)), file(None), file(Some(4))]), Some(7));
    assert_eq!(shared_size(&vec![file(Some(u64::MAX)), file(Some(1))]), None);
    assert_eq!(sharing_line(2, "7 B"), "Sharing 2 file(s) (7 B)");
}

#[test]
fn own_receivers_are_recognised() {
    let local = vec![ip(10, 0, 0, 7), ip(192, 168, 1, 20)];
    assert!(is_own_receiver(&peer("me", "F", "192.168.1.20"), "me", &local));
    assert!(!is_own_receiver(&peer("you", "F", "192.168.1.20"), "me", &local));
    assert!(!is_own_receiver(&peer("me", "F", "192.168.1.21"), "me", &local));
    assert!(!is_own_receiver(&peer("me", "F", "192.168.01.20"), "me", &local));
    assert!(!is_own_receiver(&peer("me", "F", "fe80::1"), "me", &local));
}

#[test]
fn devices_are_known_once() {
    let local = vec![ip(10, 0, 0, 7)];
    let mut peers = Vec::new();
    add_peer(&mut peers, peer("a", "A", "10.0.0.1"), "me", "ME", &local);
    add_peer(&mut peers, peer("b", "B", "10.0.0.2"), "me", "ME", &local);
    add_peer(&mut peers, peer("self", "ME", "10.0.0.3"), "me", "ME", &local);
    add_peer(&mut peers, peer("me", "C", "10.0.0.7"), "me", "ME", &local);
    add_peer(&mut peers, peer("a again", "A", "10.0.0.9"), "me", "ME", &local);
    let aliases: Vec<&str> = peers.iter().map(|peer| peer.alias.as_str()).collect();
    assert_eq!(aliases, ["a again", "b"]);
    assert_eq!(peers[0].ip, "10.0.0.9");
}

#[test]
fn search_waits_for_the_first_device() {
    let local = Vec::new();
    let mut peers = Vec::new();
    let mut feed = |event| discover_peers(&mut peers, event, "me", "ME", &local);
    let completed = AppEvent::TransferCompleted {
        session_id: "s".to_string(),
        message: "m".to_string(),
    };
    assert!(matches!(
        feed(SearchEvent::Event(completed)),
        DiscoveryStep::Wait { at_most_a_while: false }
    ));
    let request = IncomingTransferRequest { peer: peer("x", "X", "10.0.0.4"), files: Vec::new() };
    assert!(matches!(
        feed(SearchEvent::Event(AppEvent::IncomingTransfer(request))),
        DiscoveryStep::Decline { at_most_a_while: false }
    ));
    assert!(matches!(
        feed(SearchEvent::Event(AppEvent::PeerDiscovered(peer("a", "A", "10.0.0.1")))),
        DiscoveryStep::Wait { at_most_a_while: true }
    ));
    assert!(matches!(feed(SearchEvent::Quiet), DiscoveryStep::Done));
    match feed(SearchEvent::Event(AppEvent::StatusMessage("broken".to_string()))) {
        DiscoveryStep::Failed(error) => assert_eq!(error, "broken"),
        _ => panic!("a status message ends the search"),
    }
    match feed(SearchEvent::Stopped) {
        DiscoveryStep::Failed(error) => {
            assert_eq!(error, "device discovery stopped unexpectedly")
        }
        _ => panic!("no more events end the search"),
    }
    assert_eq!(peers.len(), 1);
}

#[test]
fn devices_are_chosen_from_a_menu() {
    let mut named = peer("Phone", "B", "10.0.0.2");
    named.device_model = Some("Pixel".to_string());
    let peers = vec![peer("Laptop", "A", "10.0.0.1"), named];
    assert_eq!(
        peer_menu(&peers),
        [
            "  1. Laptop - Unknown device (10.0.0.1)",
            "  2. Phone - Pixel (10.0.0.2)"
        ]
    );
    assert_eq!(selection_prompt(2), "Enter a number (1-2): ");
    match prompt_for_peer(&peers, Some("2\n")) {
        Choice::Peer(peer) => assert_eq!(peer.alias, "Phone"),
        _ => panic!("the second device is on offer"),
    }
    match prompt_for_peer(&peers, Some("3\n")) {
        Choice::Again(text) => assert_eq!(text, "Please enter a number from 1 to 2."),
        _ => panic!("there is no third device"),
    }
    match prompt_for_peer(&peers, None) {
        Choice::Nothing(text) => assert_eq!(text, "no device was selected"),
        _ => panic!("nothing was entered"),
    }
}

#[test]
fn progress_is_reported_now_and_then() {
    let mut monitor = Monitor::new();
    assert_eq!(percent(monitor.monitor_transfer(progress(9, 100, true))), None);
    assert_eq!(percent(monitor.monitor_transfer(progress(10, 100, true))), Some(10));
    assert_eq!(percent(monitor.monitor_transfer(progress(19, 100, true))), None);
    assert_eq!(percent(monitor.monitor_transfer(progress(35, 100, false))), None);
    assert_eq!(percent(monitor.monitor_transfer(progress(35, 0, true))), None);
    assert_eq!(percent(monitor.monitor_transfer(progress(35, 100, true))), Some(35));
    assert_eq!(percent(monitor.monitor_transfer(progress(100, 100, true))), Some(100));
    assert_eq!(percent(monitor.monitor_transfer(progress(100, 100, true))), Some(100));
    assert_eq!(percent(monitor.monitor_transfer(progress(250, 100, true))), Some(100));
}

#[test]
fn percentages_saturate() {
    let mut monitor = Monitor::new();
    let half = u64::MAX / 2;
    assert_eq!(percent(monitor.monitor_transfer(progress(half, half, true))), None);
    assert_eq!(percent(monitor.monitor_transfer(progress(u64::MAX, 1, true))), Some(100));
}

#[test]
fn transfers_end_with_their_outcome() {
    let mut monitor = Monitor::new();
    let event = AppEvent::TransferCompleted {
        session_id: "s".to_string(),
        message: "done".to_string(),
    };
    match monitor.monitor_transfer(MonitorEvent::Event(event)) {
        MonitorStep::Completed(message) => assert_eq!(message, "done"),
        _ => panic!("the transfer completed"),
    }
    let event = AppEvent::TransferFailed {
        session_id: "s".to_string(),
        error: "lost".to_string(),
    };
    match monitor.monitor_transfer(MonitorEvent::Event(event)) {
        MonitorStep::Failed(error) => assert_eq!(error, "lost"),
        _ => panic!("the transfer failed"),
    }
    match monitor.monitor_transfer(MonitorEvent::Stopped) {
        MonitorStep::Failed(error) => {
            assert_eq!(error, "the transfer stopped before it completed")
        }
        _ => panic!("no more events are a failure"),
    }
    match monitor.monitor_transfer(MonitorEvent::Event(AppEvent::StatusMessage("hm".to_string()))) {
        MonitorStep::Tell(message) => assert_eq!(message, "hm"),
        _ => panic!("the message is passed on"),
    }
    let request = IncomingTransferRequest { peer: peer("x", "X", "10.0.0.4"), files: Vec::new() };
    assert!(matches!(
        monitor.monitor_transfer(MonitorEvent::Event(AppEvent::IncomingTransfer(request))),
        MonitorStep::Decline
    ));
    assert!(matches!(
        monitor.monitor_transfer(MonitorEvent::Event(AppEvent::FileReceived {
            path: "p".to_string()
        })),
        MonitorStep::Watch
    ));
    assert_eq!(
        progress_line("a.txt to Phone", "1 KB", "2 KB", 50),
        "Sending a.txt to Phone: 1 KB / 2 KB (50%)"
    );
}
