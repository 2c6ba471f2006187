use monosend::events::AppEvent;
use monosend::localsend::discovery::{bind_address, get_local_v4_ips, DiscoveryEngine, Ipv4};
use monosend::localsend::protocol::register_self;
use monosend::localsend::tls::generate_self_signed_cert;

fn engine() -> DiscoveryEngine {
    let tls = generate_self_signed_cert("me").unwrap();
    DiscoveryEngine::new("me".to_string(), "FP".to_string(), 4000, tls.client_identity).unwrap()
}

fn ip(a: u8, b: u8, c: u8, d: u8) -> Ipv4 {
    Ipv4 { a, b, c, d }
}

#[test]
fn loopback_addresses_are_left_out() {
    let addresses = vec![ip(127, 0, 0, 1), ip(10, 0, 0, 7), ip(127, 1, 2, 3), ip(0, 0, 0, 0)];
    assert_eq!(get_local_v4_ips(&addresses), [ip(10, 0, 0, 7), ip(0, 0, 0, 0)]);
    assert_eq!(ip(192, 168, 1, 20).text(), "192.168.1.20");
    assert_eq!(ip(0, 9, 10, 255).text(), "0.9.10.255");
}

#[test]
fn announcements_go_to_the_well_known_port() {
    assert_eq!(bind_address(), "0.0.0.0:53317");
    let announcement = engine().announce(&vec![ip(10, 1, 2, 3), ip(192, 168, 0, 9)]);
    assert_eq!(
        announcement.targets,
        [
            "224.0.0.167:53317",
            "255.255.255.255:53317",
            "10.1.2.255:53317",
            "192.168.0.255:53317"
        ]
    );
    assert_eq!(announcement.message, register_self("me", "FP", 4000, Some(true)));
    assert_eq!(announcement.message.port, Some(4000));
    assert_eq!(announcement.message.protocol.as_deref(), Some("https"));
    assert_eq!(announcement.message.download, Some(false));
}

#[test]
fn own_announcements_are_ignored() {
    let engine = engine();
    let own = engine.announce(&Vec::new()).message;
    assert!(engine.hear(&own, "10.0.0.7").is_none());
}

#[test]
fn announcements_of_others_are_answered() {
    let other = register_self("Phone", "P", 5000, Some(true));
    match engine().hear(&other, "10.0.0.2") {
        Some((AppEvent::PeerDiscovered(peer), Some(reply))) => {
            assert_eq!(peer.alias, "Phone");
            assert_eq!(peer.port, 5000);
            assert_eq!(reply.url, "https://10.0.0.2:5000/api/localsend/v2/register");
            assert_eq!(reply.message, register_self("me", "FP", 4000, Some(false)));
        }
        _ => panic!("the announcement asks for an answer"),
    }
    for announce in [None, Some(false)] {
        let other = register_self("Phone", "P", 5000, announce);
        assert!(matches!(
            engine().hear(&other, "10.0.0.2"),
            Some((AppEvent::PeerDiscovered(_), None))
        ));
    }
}

#[test]
fn registrations_are_posted_to_the_peer() {
    let reply = engine().reply_register("10.0.0.2", 80, "http");
    assert_eq!(reply.url, "http://10.0.0.2:80/api/localsend/v2/register");
    assert_eq!(reply.message.announce, Some(false));
}
