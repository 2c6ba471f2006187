//! Discovery of LocalSend peers: what is announced, to whom, and what is made
//! of the announcements of others.
use vstd::prelude::*;
use vstd::string::*;

use crate::events::{AppEvent, EventModel};
use crate::localsend::protocol::{
    host_and_port, host_port, peer_of, register_self, registered_peer, registration, RegisterDto,
    RegisterModel, LOCALSEND_DEFAULT_PORT, LOCALSEND_MULTICAST_ADDR, REGISTER_PATH,
};
use crate::localsend::server::register_event;
use crate::localsend::tls::{build_client, direct_settings, settings_of};
use crate::text::{decimal, decimal_text, join3, same};

verus! {

/// How many seconds lie between two announcements.
pub const ANNOUNCEMENT_INTERVAL_SECONDS: u64 = 5;

/// How many milliseconds to wait after an announcement could not be received.
pub const RECEIVE_ERROR_PAUSE_MILLISECONDS: u64 = 500;

/// An IPv4 address, by its four octets.
#[derive(Debug, Clone, Copy, PartialEq, Eq, Structural)]
pub struct Ipv4 {
    pub a: u8,
    pub b: u8,
    pub c: u8,
    pub d: u8,
}

impl Ipv4 {
    /// The first three octets in decimal notation, each followed by a dot.
    pub open spec fn subnet(self) -> Seq<char> {
        decimal(self.a as nat) + "."@ + decimal(self.b as nat) + "."@ + decimal(self.c as nat)
            + "."@
    }

    /// The address in dotted decimal notation.
    pub open spec fn dotted(self) -> Seq<char> {
        self.subnet() + decimal(self.d as nat)
    }

    /// Whether the address is one of the block 127.0.0.0/8.
    pub open spec fn loops_back(self) -> bool {
        self.a == 127
    }

    fn subnet_text(&self) -> (r: String)
        ensures
            r@ == self.subnet(),
    {
        let mut out: String = decimal_text(self.a as u64);
        out.append(".");
        out.append(decimal_text(self.b as u64).as_str());
        out.append(".");
        out.append(decimal_text(self.c as u64).as_str());
        out.append(".");
        out
    }

    /// The address in dotted decimal notation.
    pub fn text(&self) -> (r: String)
        ensures
            r@ == self.dotted(),
    {
        let mut out: String = self.subnet_text();
        out.append(decimal_text(self.d as u64).as_str());
        out
    }
}

/// The addresses that other devices can reach, of those of the network
/// interfaces of this one: all but the loopback addresses.
pub open spec fn reachable(addresses: Seq<Ipv4>) -> Seq<Ipv4> {
    addresses.filter(|ip: Ipv4| !ip.loops_back())
}

/// All non-loopback addresses among `addresses`, which are those of the network
/// interfaces.
pub fn get_local_v4_ips(addresses: &Vec<Ipv4>) -> (r: Vec<Ipv4>)
    ensures
        r@ == reachable(addresses@),
{
    let mut ips: Vec<Ipv4> = Vec::new();
    let mut i: usize = 0;
    let ghost kept = |ip: Ipv4| !ip.loops_back();
    assert(addresses@.take(0).filter(kept) =~= Seq::empty()) by {
        reveal(Seq::filter);
    }
    while i < addresses.len()
        invariant
            i <= addresses@.len(),
            kept == (|ip: Ipv4| !ip.loops_back()),
            ips@ == addresses@.take(i as int).filter(kept),
        decreases addresses@.len() - i,
    {
        let ip: Ipv4 = addresses[i];
        proof {
            assert(addresses@.take(i + 1).drop_last() =~= addresses@.take(i as int));
            assert(addresses@.take(i + 1).last() == ip);
            reveal(Seq::filter);
        }
        if ip.a != 127 {
            ips.push(ip);
        }
        i = i + 1;
    }
    assert(addresses@.take(i as int) =~= addresses@);
    ips
}

/// The address that discovery listens on. The port is the well-known one,
/// whatever port this device advertises.
pub open spec fn listening_address() -> Seq<char> {
    host_and_port("0.0.0.0"@, LOCALSEND_DEFAULT_PORT)
}

/// The address that discovery listens on.
pub fn bind_address() -> (r: String)
    ensures
        r@ == listening_address(),
{
    host_port("0.0.0.0", LOCALSEND_DEFAULT_PORT)
}

/// Where announcements are sent to: the multicast group of LocalSend, the
/// broadcast address, and the last address of the subnet of each local address.
pub open spec fn announcement_targets(local_ips: Seq<Ipv4>) -> Seq<Seq<char>> {
    seq![
        host_and_port(LOCALSEND_MULTICAST_ADDR@, LOCALSEND_DEFAULT_PORT),
        host_and_port("255.255.255.255"@, LOCALSEND_DEFAULT_PORT),
    ] + local_ips.map_values(
        |ip: Ipv4| host_and_port(ip.subnet() + "255"@, LOCALSEND_DEFAULT_PORT),
    )
}

/// An announcement of this device, and where it is sent to.
#[derive(Debug)]
pub struct Announcement {
    pub message: RegisterDto,
    pub targets: Vec<String>,
}

/// A registration that is posted to a URL.
#[derive(Debug)]
pub struct RegistrationReply {
    pub url: String,
    pub message: RegisterDto,
}

/// What a [`RegistrationReply`] says.
#[verifier::ext_equal]
pub struct ReplyModel {
    pub url: Seq<char>,
    pub message: RegisterModel,
}

impl DeepView for RegistrationReply {
    type V = ReplyModel;

    open spec fn deep_view(&self) -> ReplyModel {
        ReplyModel { url: self.url@, message: self.message.deep_view() }
    }
}

/// A registration of the device with the given alias, fingerprint and port with
/// the device at `ip`.
pub open spec fn registration_reply(
    alias: Seq<char>,
    fingerprint: Seq<char>,
    port: u16,
    target_ip: Seq<char>,
    target_port: u16,
    target_protocol: Seq<char>,
) -> ReplyModel {
    ReplyModel {
        url: target_protocol + "://"@ + host_and_port(target_ip, target_port) + REGISTER_PATH@,
        message: registration(alias, fingerprint, port, Some(false)),
    }
}

/// What the device with the given alias, fingerprint and port makes of the
/// announcement `message` from the address `ip`: the peer that is discovered,
/// and the reply where one is asked for. Its own announcements it ignores.
pub open spec fn heard(
    alias: Seq<char>,
    fingerprint: Seq<char>,
    port: u16,
    message: RegisterModel,
    ip: Seq<char>,
) -> Option<(EventModel, Option<ReplyModel>)> {
    if message.fingerprint == fingerprint {
        None
    } else {
        let peer = registered_peer(message, ip);
        Some(
            (
                EventModel::PeerDiscovered(peer),
                if message.announce == Some(true) {
                    Some(registration_reply(alias, fingerprint, port, ip, peer.port, peer.protocol))
                } else {
                    None
                },
            ),
        )
    }
}

/// Makes this device known to others, and others to it.
#[derive(Debug)]
pub struct DiscoveryEngine {
    pub alias: String,
    pub fingerprint: String,
    pub port: u16,
    pub http_client: reqwest::Client,
}

impl DiscoveryEngine {
    /// Discovery for the device with the given alias, fingerprint and port, where
    /// a client was built for HTTP.
    pub fn with_client(
        alias: String,
        fingerprint: String,
        port: u16,
        built: Result<reqwest::Client, reqwest::Error>,
    ) -> (r: Result<Self, reqwest::Error>)
        ensures
            r == (match built {
                Ok(http_client) => Ok(DiscoveryEngine { alias, fingerprint, port, http_client }),
                Err(e) => Err(e),
            }),
    {
        match built {
            Ok(http_client) => Ok(DiscoveryEngine { alias, fingerprint, port, http_client }),
            Err(e) => Err(e),
        }
    }

    /// Discovery for the device with the given alias, fingerprint and port,
    /// which presents `identity` to its peers. There is one exactly where
    /// `build_client` came to a client for `identity`, and it holds that client;
    /// otherwise the error is the one that `build_client` came to.
    pub fn new(alias: String, fingerprint: String, port: u16, identity: reqwest::Identity) -> (r:
        Result<Self, reqwest::Error>)
        ensures
            r matches Ok(engine) ==> engine.alias@ == alias@ && engine.fingerprint@ == fingerprint@
                && engine.port == port && settings_of(engine.http_client) == direct_settings(
                identity,
            ),
            exists|built: Result<reqwest::Client, reqwest::Error>|
                #[trigger] call_ensures(build_client, (identity,), built) && r == (match built {
                    Ok(http_client) => Ok(
                        DiscoveryEngine { alias, fingerprint, port, http_client },
                    ),
                    Err(e) => Err(e),
                }),
    {
        let built = build_client(identity);
        Self::with_client(alias, fingerprint, port, built)
    }

    /// What is announced, and where it is sent to from a device with the
    /// addresses `local_ips`.
    pub fn announce(&self, local_ips: &Vec<Ipv4>) -> (r: Announcement)
        ensures
            r.message.deep_view() == registration(
                self.alias@,
                self.fingerprint@,
                self.port,
                Some(true),
            ),
            r.targets.deep_view() == announcement_targets(local_ips@),
    {
        let mut targets: Vec<String> = Vec::new();
        targets.push(host_port(LOCALSEND_MULTICAST_ADDR, LOCALSEND_DEFAULT_PORT));
        targets.push(host_port("255.255.255.255", LOCALSEND_DEFAULT_PORT));
        let mut i: usize = 0;
        while i < local_ips.len()
            invariant
                i <= local_ips@.len(),
                targets@.len() == 2 + i,
                targets@[0]@ == announcement_targets(local_ips@)[0],
                targets@[1]@ == announcement_targets(local_ips@)[1],
                forall|j: int|
                    2 <= j < targets@.len() ==> (#[trigger] targets@[j])@ == announcement_targets(
                        local_ips@,
                    )[j],
            decreases local_ips@.len() - i,
        {
            let mut host: String = local_ips[i].subnet_text();
            host.append("255");
            targets.push(host_port(host.as_str(), LOCALSEND_DEFAULT_PORT));
            i = i + 1;
        }
        assert(targets.deep_view() =~= announcement_targets(local_ips@));
        Announcement {
            message: register_self(
                self.alias.as_str(),
                self.fingerprint.as_str(),
                self.port,
                Some(true),
            ),
            targets,
        }
    }

    /// The registration of this device with the peer at the given address.
    pub fn reply_register(&self, target_ip: &str, target_port: u16, target_protocol: &str) -> (r:
        RegistrationReply)
        ensures
            r.deep_view() == registration_reply(
                self.alias@,
                self.fingerprint@,
                self.port,
                target_ip@,
                target_port,
                target_protocol@,
            ),
    {
        let address: String = host_port(target_ip, target_port);
        let mut url: String = join3(target_protocol, "://", address.as_str());
        url.append(REGISTER_PATH);
        RegistrationReply {
            url,
            message: register_self(
                self.alias.as_str(),
                self.fingerprint.as_str(),
                self.port,
                Some(false),
            ),
        }
    }

    /// What is made of the announcement `message` from the address `ip`: the
    /// event that is reported, and the reply where one is asked for.
    pub fn hear(&self, message: &RegisterDto, ip: &str) -> (r: Option<
        (AppEvent, Option<RegistrationReply>),
    >)
        ensures
            r.deep_view() == heard(
                self.alias@,
                self.fingerprint@,
                self.port,
                message.deep_view(),
                ip@,
            ),
    {
        if same(message.fingerprint.as_str(), self.fingerprint.as_str()) {
            return None;
        }
        let peer = peer_of(message, ip);
        let asked: bool = match message.announce {
            Some(asked) => asked,
            None => false,
        };
        let reply = if asked {
            Some(self.reply_register(ip, peer.port, peer.protocol.as_str()))
        } else {
            None
        };
        Some((AppEvent::PeerDiscovered(peer), reply))
    }
}

// ---------------------------------------------------------------------------
// Laws
// ---------------------------------------------------------------------------

/// Discovery always uses its well-known port: that is the port of every target
/// of an announcement, and the one that is listened on.
pub proof fn law_discovery_uses_the_well_known_port(local_ips: Seq<Ipv4>, i: int)
    requires
        0 <= i < announcement_targets(local_ips).len(),
    ensures
        exists|host: Seq<char>|
            announcement_targets(local_ips)[i] == #[trigger] host_and_port(
                host,
                LOCALSEND_DEFAULT_PORT,
            ),
        exists|host: Seq<char>|
            listening_address() == #[trigger] host_and_port(host, LOCALSEND_DEFAULT_PORT),
{
    let targets = announcement_targets(local_ips);
    if i >= 2 {
        assert(targets[i] == host_and_port(
            local_ips[i - 2].subnet() + "255"@,
            LOCALSEND_DEFAULT_PORT,
        ));
    }
}

/// A device does not discover itself, whatever else it announces.
pub proof fn law_own_announcements_are_ignored(
    alias: Seq<char>,
    fingerprint: Seq<char>,
    port: u16,
    announce: Option<bool>,
    ip: Seq<char>,
)
    ensures
        heard(alias, fingerprint, port, registration(alias, fingerprint, port, announce), ip)
            is None,
{
}

/// Two devices find each other by one announcement: the one that hears it
/// discovers the other under its alias, fingerprint and port, and registers
/// there over HTTPS; by that registration the other discovers the first in
/// turn.
pub proof fn law_one_announcement_makes_both_known(
    alias: Seq<char>,
    fingerprint: Seq<char>,
    port: u16,
    ip: Seq<char>,
    other_alias: Seq<char>,
    other_fingerprint: Seq<char>,
    other_port: u16,
    other_ip: Seq<char>,
)
    requires
        alias.len() > 0,
        fingerprint.len() > 0,
        other_alias.len() > 0,
        other_fingerprint.len() > 0,
        fingerprint != other_fingerprint,
    ensures
        ({
            let announced = registration(alias, fingerprint, port, Some(true));
            let answer = heard(other_alias, other_fingerprint, other_port, announced, ip);
            &&& answer matches Some((EventModel::PeerDiscovered(peer), Some(reply)))
            &&& peer.alias == alias && peer.fingerprint == fingerprint
            &&& peer.ip == ip && peer.port == port
            &&& reply.url == "https"@ + "://"@ + host_and_port(ip, port) + REGISTER_PATH@
            &&& register_event(Some(reply.message), other_ip) matches Some(
                EventModel::PeerDiscovered(found),
            )
            &&& found.alias == other_alias && found.fingerprint == other_fingerprint
            &&& found.ip == other_ip && found.port == other_port
        }),
{
}

/// The addresses of this device are all but the loopback ones, in their order:
/// address by address, one is kept exactly where its first octet is not 127.
pub proof fn law_loopback_addresses_are_left_out(addresses: Seq<Ipv4>, ip: Ipv4)
    ensures
        reachable(Seq::empty()) == Seq::<Ipv4>::empty(),
        ip.a == 127 ==> reachable(addresses.push(ip)) == reachable(addresses),
        ip.a != 127 ==> reachable(addresses.push(ip)) == reachable(addresses).push(ip),
{
    reveal(Seq::filter);
    assert(addresses.push(ip).drop_last() =~= addresses);
    assert(addresses.push(ip).last() == ip);
}

/// An address is written as its four octets in decimal notation with dots between
/// them.
pub proof fn law_addresses_are_dotted(ip: Ipv4)
    ensures
        ip.dotted() == decimal(ip.a as nat) + "."@ + decimal(ip.b as nat) + "."@ + decimal(
            ip.c as nat,
        ) + "."@ + decimal(ip.d as nat),
{
}

/// An announcement goes to the multicast group, to the broadcast address and, for
/// each local address in turn, to the last address of its subnet, and nowhere
/// else.
pub proof fn law_announcements_reach_every_subnet(local_ips: Seq<Ipv4>, i: int)
    ensures
        announcement_targets(local_ips).len() == local_ips.len() + 2,
        announcement_targets(local_ips)[0] == "224.0.0.167"@ + ":"@ + decimal(53317),
        announcement_targets(local_ips)[1] == "255.255.255.255"@ + ":"@ + decimal(53317),
        0 <= i < local_ips.len() ==> announcement_targets(local_ips)[i + 2] == decimal(
            local_ips[i].a as nat,
        ) + "."@ + decimal(local_ips[i].b as nat) + "."@ + decimal(local_ips[i].c as nat) + "."@
            + "255"@ + ":"@ + decimal(53317),
{
}

/// The address that is listened on is any address of this device, on the
/// well-known port.
pub proof fn law_every_address_is_listened_on()
    ensures
        listening_address() == "0.0.0.0"@ + ":"@ + decimal(53317),
{
}

/// An announcement makes its device known unless it is this one, by its
/// fingerprint; it is answered exactly where it asks for an answer, by a
/// registration of this device that asks for none, posted to the device where it
/// says that it listens.
pub proof fn law_others_are_made_known_and_answered(
    alias: Seq<char>,
    fingerprint: Seq<char>,
    port: u16,
    message: RegisterModel,
    ip: Seq<char>,
)
    ensures
        ({
            let outcome = heard(alias, fingerprint, port, message, ip);
            let target_port: u16 = match message.port {
                Some(port) => port,
                None => 53317,
            };
            let target_protocol = match message.protocol {
                Some(protocol) => protocol,
                None => "https"@,
            };
            &&& outcome is None <==> message.fingerprint == fingerprint
            &&& outcome is Some ==> {
                &&& outcome->Some_0.0 == EventModel::PeerDiscovered(registered_peer(message, ip))
                &&& outcome->Some_0.1 is Some <==> message.announce == Some(true)
                &&& outcome->Some_0.1 matches Some(reply) ==> {
                    &&& reply.url == target_protocol + "://"@ + (ip + ":"@ + decimal(
                        target_port as nat,
                    )) + "/api/localsend/v2/register"@
                    &&& reply.message.alias == alias
                    &&& reply.message.fingerprint == fingerprint
                    &&& reply.message.port == Some(port)
                    &&& reply.message.protocol == Some("https"@)
                    &&& reply.message.announce == Some(false)
                    &&& reply.message.download == Some(false)
                }
            }
        }),
{
}

/// A registration with a peer is posted to the address, the port and over the
/// protocol that are given, and says who this device is.
pub proof fn law_registrations_go_to_their_target(
    alias: Seq<char>,
    fingerprint: Seq<char>,
    port: u16,
    target_ip: Seq<char>,
    target_port: u16,
    target_protocol: Seq<char>,
)
    ensures
        ({
            let reply = registration_reply(
                alias,
                fingerprint,
                port,
                target_ip,
                target_port,
                target_protocol,
            );
            &&& reply.url == target_protocol + "://"@ + (target_ip + ":"@ + decimal(
                target_port as nat,
            )) + "/api/localsend/v2/register"@
            &&& reply.message == registration(alias, fingerprint, port, Some(false))
        }),
{
}

/// An announcement that is heard from another device makes that device known
/// under the address that it came from, and is answered exactly where it asks for
/// that; one of this device is passed over.
pub proof fn law_announcements_are_heard_and_answered(
    engine: &DiscoveryEngine,
    message: &RegisterDto,
    ip: &str,
    r: Option<(AppEvent, Option<RegistrationReply>)>,
)
    requires
        call_ensures(DiscoveryEngine::hear, (engine, message, ip), r),
    ensures
        r is None <==> message.fingerprint@ == engine.fingerprint@,
        r matches Some((event, reply)) ==> {
            &&& event matches AppEvent::PeerDiscovered(peer)
            &&& peer.ip@ == ip@
            &&& peer.deep_view() == registered_peer(message.deep_view(), ip@)
            &&& reply is Some <==> message.announce == Some(true)
            &&& reply is Some ==> {
                &&& reply->0.message.alias@ == engine.alias@
                &&& reply->0.message.fingerprint@ == engine.fingerprint@
                &&& reply->0.message.port == Some(engine.port)
                &&& reply->0.message.announce == Some(false)
                &&& reply->0.url@ == peer.protocol@ + "://"@ + (peer.ip@ + ":"@ + decimal(
                    peer.port as nat,
                )) + "/api/localsend/v2/register"@
            }
        },
{
    law_others_are_made_known_and_answered(
        engine.alias@,
        engine.fingerprint@,
        engine.port,
        message.deep_view(),
        ip@,
    );
}

/// This device announces itself under its own alias, fingerprint and port and
/// asks for an answer, to the group, to everyone, and to each of its subnets.
pub proof fn law_this_device_is_announced(
    engine: &DiscoveryEngine,
    local_ips: &Vec<Ipv4>,
    r: Announcement,
    i: int,
)
    requires
        call_ensures(DiscoveryEngine::announce, (engine, local_ips), r),
    ensures
        r.message.alias@ == engine.alias@,
        r.message.fingerprint@ == engine.fingerprint@,
        r.message.port == Some(engine.port),
        r.message.announce == Some(true),
        r.targets@.len() == local_ips@.len() + 2,
        r.targets@[0]@ == "224.0.0.167"@ + ":"@ + decimal(53317),
        r.targets@[1]@ == "255.255.255.255"@ + ":"@ + decimal(53317),
        0 <= i < local_ips@.len() ==> r.targets@[i + 2]@ == decimal(local_ips@[i].a as nat) + "."@
            + decimal(local_ips@[i].b as nat) + "."@ + decimal(local_ips@[i].c as nat) + "."@
            + "255"@ + ":"@ + decimal(53317),
{
    law_announcements_reach_every_subnet(local_ips@, i);
    assert(r.targets.deep_view().len() == r.targets@.len());
    assert(r.targets.deep_view()[0] == r.targets@[0]@);
    assert(r.targets.deep_view()[1] == r.targets@[1]@);
    if 0 <= i < local_ips@.len() {
        assert(r.targets.deep_view()[i + 2] == r.targets@[i + 2]@);
    }
}

/// The pauses of discovery.
pub proof fn law_discovery_takes_its_time()
    ensures
        ANNOUNCEMENT_INTERVAL_SECONDS == 5,
        RECEIVE_ERROR_PAUSE_MILLISECONDS == 500,
{
}

/// The addresses of this device that others can reach are all but those that begin
/// with 127, each written with dots.
pub proof fn law_local_addresses_are_reachable(
    addresses: &Vec<Ipv4>,
    ips: Vec<Ipv4>,
    ip: &Ipv4,
    text: String,
    bound: String,
)
    requires
        call_ensures(get_local_v4_ips, (addresses,), ips),
        call_ensures(Ipv4::text, (ip,), text),
        call_ensures(bind_address, (), bound),
    ensures
        ips@.contains(*ip) <==> addresses@.contains(*ip) && ip.a != 127,
        text@ == decimal(ip.a as nat) + "."@ + decimal(ip.b as nat) + "."@ + decimal(ip.c as nat)
            + "."@ + decimal(ip.d as nat),
        bound@ == "0.0.0.0"@ + ":"@ + decimal(53317),
{
    lemma_reachable(addresses@, *ip);
}

proof fn lemma_reachable(addresses: Seq<Ipv4>, ip: Ipv4)
    ensures
        reachable(addresses).contains(ip) <==> addresses.contains(ip) && ip.a != 127,
    decreases addresses.len(),
{
    if addresses.len() == 0 {
        reveal(Seq::filter);
    } else {
        let rest = addresses.drop_last();
        let last = addresses.last();
        lemma_reachable(rest, ip);
        assert(rest.push(last) =~= addresses);
        law_loopback_addresses_are_left_out(rest, last);
        assert(addresses.contains(ip) <==> rest.contains(ip) || last == ip) by {
            if addresses.contains(ip) {
                let i = choose|i: int| 0 <= i < addresses.len() && addresses[i] == ip;
                if i < rest.len() {
                    assert(rest[i] == ip);
                }
            }
            if rest.contains(ip) {
                let i = choose|i: int| 0 <= i < rest.len() && rest[i] == ip;
                assert(addresses[i] == ip);
            }
            assert(addresses[addresses.len() - 1] == last);
        }
        let kept = reachable(rest);
        if last.a != 127 {
            let more = kept.push(last);
            assert(more.contains(ip) <==> kept.contains(ip) || last == ip) by {
                if more.contains(ip) {
                    let i = choose|i: int| 0 <= i < more.len() && more[i] == ip;
                    if i < kept.len() {
                        assert(kept[i] == ip);
                    }
                }
                if kept.contains(ip) {
                    let i = choose|i: int| 0 <= i < kept.len() && kept[i] == ip;
                    assert(more[i] == ip);
                }
                assert(more[kept.len() as int] == last);
            }
        }
    }
}

/// A registration is posted where it is asked to be, in the name of this device.
pub proof fn law_registrations_are_posted_as_asked(
    engine: &DiscoveryEngine,
    target_ip: &str,
    target_port: u16,
    target_protocol: &str,
    r: RegistrationReply,
)
    requires
        call_ensures(
            DiscoveryEngine::reply_register,
            (engine, target_ip, target_port, target_protocol),
            r,
        ),
    ensures
        r.url@ == target_protocol@ + "://"@ + (target_ip@ + ":"@ + decimal(target_port as nat))
            + "/api/localsend/v2/register"@,
        r.message.alias@ == engine.alias@,
        r.message.fingerprint@ == engine.fingerprint@,
        r.message.port == Some(engine.port),
        r.message.announce == Some(false),
{
    law_registrations_go_to_their_target(
        engine.alias@,
        engine.fingerprint@,
        engine.port,
        target_ip@,
        target_port,
        target_protocol@,
    );
}

/// Discovery is for the device that it was set up for, and reaches peers directly.
pub proof fn law_discovery_is_for_this_device(
    alias: String,
    fingerprint: String,
    port: u16,
    identity: reqwest::Identity,
    r: Result<DiscoveryEngine, reqwest::Error>,
)
    requires
        call_ensures(DiscoveryEngine::new, (alias, fingerprint, port, identity), r),
    ensures
        r matches Ok(engine) ==> {
            &&& engine.alias@ == alias@
            &&& engine.fingerprint@ == fingerprint@
            &&& engine.port == port
            &&& settings_of(engine.http_client) == direct_settings(identity)
        },
{
}

}
