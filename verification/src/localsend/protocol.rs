//! LocalSend v2 messages, data structures and network constants.
use vstd::prelude::*;

use crate::json::{Json, JsonModel};
use crate::table::Table;
use crate::text::{decimal, decimal_text, join3};

verus! {

/// LocalSend multicast IPv4 address.
pub const LOCALSEND_MULTICAST_ADDR: &'static str = "224.0.0.167";

/// Default LocalSend UDP/HTTPS port.
pub const LOCALSEND_DEFAULT_PORT: u16 = 53317;

/// LocalSend protocol version.
pub const PROTOCOL_VERSION: &'static str = "2.2";

/// The device model that this program presents itself as.
pub const DEVICE_MODEL: &'static str = "monosend CLI";

/// The path of the device information.
pub const INFO_PATH: &'static str = "/api/localsend/v2/info";

/// The path that registrations are posted to.
pub const REGISTER_PATH: &'static str = "/api/localsend/v2/register";

/// The path that transfer requests are posted to.
pub const PREPARE_UPLOAD_PATH: &'static str = "/api/localsend/v2/prepare-upload";

/// The path that file contents are posted to.
pub const UPLOAD_PATH: &'static str = "/api/localsend/v2/upload";

/// The path that cancellations are posted to.
pub const CANCEL_PATH: &'static str = "/api/localsend/v2/cancel";

/// Device classification types of the LocalSend protocol.
#[derive(Debug, Clone, Copy, PartialEq, Eq, Structural)]
pub enum DeviceType {
    Mobile,
    Desktop,
    Web,
    Headless,
    Server,
    Unknown,
}

impl DeepView for DeviceType {
    type V = DeviceType;

    open spec fn deep_view(&self) -> DeviceType {
        *self
    }
}

/// Registration payload exchanged over multicast UDP or HTTP.
#[derive(Debug, Clone, PartialEq, Eq)]
pub struct RegisterDto {
    pub alias: String,
    pub version: String,
    pub device_model: Option<String>,
    pub device_type: Option<DeviceType>,
    pub fingerprint: String,
    pub port: Option<u16>,
    pub protocol: Option<String>,
    pub download: Option<bool>,
    pub announce: Option<bool>,
}

/// What a [`RegisterDto`] says.
#[verifier::ext_equal]
pub struct RegisterModel {
    pub alias: Seq<char>,
    pub version: Seq<char>,
    pub device_model: Option<Seq<char>>,
    pub device_type: Option<DeviceType>,
    pub fingerprint: Seq<char>,
    pub port: Option<u16>,
    pub protocol: Option<Seq<char>>,
    pub download: Option<bool>,
    pub announce: Option<bool>,
}

impl DeepView for RegisterDto {
    type V = RegisterModel;

    open spec fn deep_view(&self) -> RegisterModel {
        RegisterModel {
            alias: self.alias@,
            version: self.version@,
            device_model: self.device_model.deep_view(),
            device_type: self.device_type,
            fingerprint: self.fingerprint@,
            port: self.port,
            protocol: self.protocol.deep_view(),
            download: self.download,
            announce: self.announce,
        }
    }
}

/// Device information.
#[derive(Debug, Clone, PartialEq, Eq)]
pub struct InfoDto {
    pub alias: String,
    pub version: String,
    pub device_model: Option<String>,
    pub device_type: Option<DeviceType>,
    pub fingerprint: String,
    pub download: bool,
}

/// What an [`InfoDto`] says.
#[verifier::ext_equal]
pub struct InfoModel {
    pub alias: Seq<char>,
    pub version: Seq<char>,
    pub device_model: Option<Seq<char>>,
    pub device_type: Option<DeviceType>,
    pub fingerprint: Seq<char>,
    pub download: bool,
}

impl DeepView for InfoDto {
    type V = InfoModel;

    open spec fn deep_view(&self) -> InfoModel {
        InfoModel {
            alias: self.alias@,
            version: self.version@,
            device_model: self.device_model.deep_view(),
            device_type: self.device_type,
            fingerprint: self.fingerprint@,
            download: self.download,
        }
    }
}

/// Metadata of a single file in a transfer session.
#[derive(Debug, Clone, PartialEq, Eq)]
pub struct FileDto {
    pub id: String,
    pub file_name: String,
    pub size: u64,
    pub file_type: Option<String>,
    pub sha256: Option<String>,
    pub preview: Option<String>,
    pub metadata: Option<Json>,
}

/// What a [`FileDto`] says.
#[verifier::ext_equal]
pub struct FileModel {
    pub id: Seq<char>,
    pub file_name: Seq<char>,
    pub size: u64,
    pub file_type: Option<Seq<char>>,
    pub sha256: Option<Seq<char>>,
    pub preview: Option<Seq<char>>,
    pub metadata: Option<JsonModel>,
}

impl DeepView for FileDto {
    type V = FileModel;

    open spec fn deep_view(&self) -> FileModel {
        FileModel {
            id: self.id@,
            file_name: self.file_name@,
            size: self.size,
            file_type: self.file_type.deep_view(),
            sha256: self.sha256.deep_view(),
            preview: self.preview.deep_view(),
            metadata: self.metadata.deep_view(),
        }
    }
}

/// Request payload of a transfer.
#[derive(Debug, Clone)]
pub struct PrepareUploadReqDto {
    pub info: RegisterDto,
    pub files: Table<FileDto>,
}

/// What a [`PrepareUploadReqDto`] says.
#[verifier::ext_equal]
pub struct PrepareUploadReqModel {
    pub info: RegisterModel,
    pub files: Map<Seq<char>, FileModel>,
}

impl DeepView for PrepareUploadReqDto {
    type V = PrepareUploadReqModel;

    open spec fn deep_view(&self) -> PrepareUploadReqModel {
        PrepareUploadReqModel { info: self.info.deep_view(), files: self.files.deep_view() }
    }
}

/// Response payload of a transfer request: a token for each file that is asked
/// for.
#[derive(Debug, Clone)]
pub struct PrepareUploadRespDto {
    pub session_id: String,
    pub files: Table<String>,
}

/// What a [`PrepareUploadRespDto`] says.
#[verifier::ext_equal]
pub struct PrepareUploadRespModel {
    pub session_id: Seq<char>,
    pub files: Map<Seq<char>, Seq<char>>,
}

impl DeepView for PrepareUploadRespDto {
    type V = PrepareUploadRespModel;

    open spec fn deep_view(&self) -> PrepareUploadRespModel {
        PrepareUploadRespModel { session_id: self.session_id@, files: self.files.deep_view() }
    }
}

/// A LocalSend device on the network.
#[derive(Debug, PartialEq, Eq)]
pub struct Peer {
    pub alias: String,
    pub version: String,
    pub device_model: Option<String>,
    pub device_type: Option<DeviceType>,
    pub fingerprint: String,
    pub ip: String,
    pub port: u16,
    pub protocol: String,
}

/// What is known of a [`Peer`].
#[verifier::ext_equal]
pub struct PeerModel {
    pub alias: Seq<char>,
    pub version: Seq<char>,
    pub device_model: Option<Seq<char>>,
    pub device_type: Option<DeviceType>,
    pub fingerprint: Seq<char>,
    pub ip: Seq<char>,
    pub port: u16,
    pub protocol: Seq<char>,
}

impl DeepView for Peer {
    type V = PeerModel;

    open spec fn deep_view(&self) -> PeerModel {
        PeerModel {
            alias: self.alias@,
            version: self.version@,
            device_model: self.device_model.deep_view(),
            device_type: self.device_type,
            fingerprint: self.fingerprint@,
            ip: self.ip@,
            port: self.port,
            protocol: self.protocol@,
        }
    }
}

impl Clone for Peer {
    fn clone(&self) -> (r: Self)
        ensures
            r.deep_view() == self.deep_view(),
    {
        Peer {
            alias: self.alias.clone(),
            version: self.version.clone(),
            device_model: self.device_model.clone(),
            device_type: self.device_type,
            fingerprint: self.fingerprint.clone(),
            ip: self.ip.clone(),
            port: self.port,
            protocol: self.protocol.clone(),
        }
    }
}

/// How this device registers with others: under its alias and fingerprint, as
/// reachable over HTTPS on its port, and offering no downloads.
pub open spec fn registration(
    alias: Seq<char>,
    fingerprint: Seq<char>,
    port: u16,
    announce: Option<bool>,
) -> RegisterModel {
    RegisterModel {
        alias,
        version: PROTOCOL_VERSION@,
        device_model: Some(DEVICE_MODEL@),
        device_type: Some(DeviceType::Desktop),
        fingerprint,
        port: Some(port),
        protocol: Some("https"@),
        download: Some(false),
        announce,
    }
}

/// The registration of this device.
pub fn register_self(alias: &str, fingerprint: &str, port: u16, announce: Option<bool>) -> (r:
    RegisterDto)
    ensures
        r.deep_view() == registration(alias@, fingerprint@, port, announce),
{
    RegisterDto {
        alias: alias.to_owned(),
        version: PROTOCOL_VERSION.to_owned(),
        device_model: Some(DEVICE_MODEL.to_owned()),
        device_type: Some(DeviceType::Desktop),
        fingerprint: fingerprint.to_owned(),
        port: Some(port),
        protocol: Some("https".to_owned()),
        download: Some(false),
        announce,
    }
}

/// An address and a port, as in a URL.
pub open spec fn host_and_port(ip: Seq<char>, port: u16) -> Seq<char> {
    ip + ":"@ + decimal(port as nat)
}

/// `ip`, a colon and `port`.
pub fn host_port(ip: &str, port: u16) -> (r: String)
    ensures
        r@ == host_and_port(ip@, port),
{
    let port: String = decimal_text(port as u64);
    join3(ip, ":", port.as_str())
}

/// The device that the registration `message` from the address `ip` makes
/// known. A device that does not name itself is named after its address; one
/// that gives no fingerprint is told apart by its address and port.
pub open spec fn registered_peer(message: RegisterModel, ip: Seq<char>) -> PeerModel {
    let port = match message.port {
        Some(port) => port,
        None => LOCALSEND_DEFAULT_PORT,
    };
    PeerModel {
        alias: if message.alias.len() == 0 {
            "Device ("@ + ip + ")"@
        } else {
            message.alias
        },
        version: message.version,
        device_model: message.device_model,
        device_type: message.device_type,
        fingerprint: if message.fingerprint.len() == 0 {
            host_and_port(ip, port)
        } else {
            message.fingerprint
        },
        ip,
        port,
        protocol: match message.protocol {
            Some(protocol) => protocol,
            None => "https"@,
        },
    }
}

/// The device that the registration `message` from the address `ip` makes
/// known.
pub fn peer_of(message: &RegisterDto, ip: &str) -> (r: Peer)
    ensures
        r.deep_view() == registered_peer(message.deep_view(), ip@),
{
    let port: u16 = match message.port {
        Some(port) => port,
        None => LOCALSEND_DEFAULT_PORT,
    };
    let protocol: String = match &message.protocol {
        Some(protocol) => protocol.clone(),
        None => "https".to_owned(),
    };
    let alias: String = if message.alias.as_str().is_empty() {
        join3("Device (", ip, ")")
    } else {
        message.alias.clone()
    };
    let fingerprint: String = if message.fingerprint.as_str().is_empty() {
        host_port(ip, port)
    } else {
        message.fingerprint.clone()
    };
    Peer {
        alias,
        version: message.version.clone(),
        device_model: message.device_model.clone(),
        device_type: message.device_type,
        fingerprint,
        ip: ip.to_owned(),
        port,
        protocol,
    }
}

/// A peer that is made known by a registration has a name and a fingerprint.
pub proof fn law_registered_peers_are_named(message: RegisterModel, ip: Seq<char>)
    ensures
        registered_peer(message, ip).alias.len() > 0,
        registered_peer(message, ip).fingerprint.len() > 0,
        registered_peer(message, ip).ip == ip,
{
    reveal_strlit("Device (");
    reveal_strlit(":");
}

/// What this device announces of itself is what a peer takes it for: the peer
/// learns the alias, the fingerprint and the port as they are.
pub proof fn law_registration_is_understood(
    alias: Seq<char>,
    fingerprint: Seq<char>,
    port: u16,
    announce: Option<bool>,
    ip: Seq<char>,
)
    requires
        alias.len() > 0,
        fingerprint.len() > 0,
    ensures
        registered_peer(registration(alias, fingerprint, port, announce), ip) == (PeerModel {
            alias,
            version: PROTOCOL_VERSION@,
            device_model: Some(DEVICE_MODEL@),
            device_type: Some(DeviceType::Desktop),
            fingerprint,
            ip,
            port,
            protocol: "https"@,
        }),
{
}

/// A device registers under its own alias, fingerprint and port, over HTTPS, and
/// says whether it announces itself.
pub proof fn law_registration_is_of_the_device(
    alias: Seq<char>,
    fingerprint: Seq<char>,
    port: u16,
    announce: Option<bool>,
)
    ensures
        registration(alias, fingerprint, port, announce).alias == alias,
        registration(alias, fingerprint, port, announce).fingerprint == fingerprint,
        registration(alias, fingerprint, port, announce).port == Some(port),
        registration(alias, fingerprint, port, announce).announce == announce,
        registration(alias, fingerprint, port, announce).version == "2.2"@,
        registration(alias, fingerprint, port, announce).device_model == Some("monosend CLI"@),
        registration(alias, fingerprint, port, announce).device_type == Some(DeviceType::Desktop),
        registration(alias, fingerprint, port, announce).protocol == Some("https"@),
        registration(alias, fingerprint, port, announce).download == Some(false),
{
}

/// A peer is known as it registered: every field that it gives is taken over, and
/// only what it leaves out is filled in, from the address that it came from.
pub proof fn law_registered_fields_are_taken_over(message: RegisterModel, ip: Seq<char>)
    ensures
        ({
            let peer = registered_peer(message, ip);
            &&& peer.version == message.version
            &&& peer.device_model == message.device_model
            &&& peer.device_type == message.device_type
            &&& peer.ip == ip
            &&& message.alias.len() > 0 ==> peer.alias == message.alias
            &&& message.alias.len() == 0 ==> peer.alias == "Device ("@ + ip + ")"@
            &&& message.port is Some ==> Some(peer.port) == message.port
            &&& message.port is None ==> peer.port == 53317
            &&& message.protocol is Some ==> Some(peer.protocol) == message.protocol
            &&& message.protocol is None ==> peer.protocol == "https"@
            &&& message.fingerprint.len() > 0 ==> peer.fingerprint == message.fingerprint
            &&& message.fingerprint.len() == 0 ==> peer.fingerprint == ip + ":"@ + decimal(
                peer.port as nat,
            )
        }),
{
}

/// An address and a port are written with a colon between them.
pub proof fn law_ports_follow_a_colon(ip: Seq<char>, port: u16)
    ensures
        host_and_port(ip, port) == ip + ":"@ + decimal(port as nat),
{
}

/// Where a peer is asked, under the paths of the protocol.
pub proof fn law_paths_are_those_of_the_protocol()
    ensures
        INFO_PATH@ == "/api/localsend/v2/info"@,
        REGISTER_PATH@ == "/api/localsend/v2/register"@,
        PREPARE_UPLOAD_PATH@ == "/api/localsend/v2/prepare-upload"@,
        UPLOAD_PATH@ == "/api/localsend/v2/upload"@,
        CANCEL_PATH@ == "/api/localsend/v2/cancel"@,
        LOCALSEND_MULTICAST_ADDR@ == "224.0.0.167"@,
        LOCALSEND_DEFAULT_PORT == 53317,
        PROTOCOL_VERSION@ == "2.2"@,
        DEVICE_MODEL@ == "monosend CLI"@,
{
}

/// What is known of a message of the protocol is what it holds, field by field.
pub proof fn law_messages_are_known_field_by_field(
    message: RegisterDto,
    info: InfoDto,
    file: FileDto,
    peer: Peer,
)
    ensures
        message.deep_view().alias == message.alias@,
        message.deep_view().version == message.version@,
        message.deep_view().device_model == message.device_model.deep_view(),
        message.deep_view().device_type == message.device_type,
        message.deep_view().fingerprint == message.fingerprint@,
        message.deep_view().port == message.port,
        message.deep_view().protocol == message.protocol.deep_view(),
        message.deep_view().download == message.download,
        message.deep_view().announce == message.announce,
        info.deep_view().alias == info.alias@,
        info.deep_view().version == info.version@,
        info.deep_view().device_model == info.device_model.deep_view(),
        info.deep_view().device_type == info.device_type,
        info.deep_view().fingerprint == info.fingerprint@,
        info.deep_view().download == info.download,
        file.deep_view().id == file.id@,
        file.deep_view().file_name == file.file_name@,
        file.deep_view().size == file.size,
        file.deep_view().file_type == file.file_type.deep_view(),
        file.deep_view().sha256 == file.sha256.deep_view(),
        file.deep_view().preview == file.preview.deep_view(),
        file.deep_view().metadata == file.metadata.deep_view(),
        peer.deep_view().alias == peer.alias@,
        peer.deep_view().version == peer.version@,
        peer.deep_view().device_model == peer.device_model.deep_view(),
        peer.deep_view().device_type == peer.device_type,
        peer.deep_view().fingerprint == peer.fingerprint@,
        peer.deep_view().ip == peer.ip@,
        peer.deep_view().port == peer.port,
        peer.deep_view().protocol == peer.protocol@,
{
}

/// A peer that registers is known by what it registered with: its port and its
/// protocol are those of the message, its alias and its fingerprint too unless
/// they are empty, and its address is where the message came from.
pub proof fn law_peers_are_known_as_they_register(message: &RegisterDto, ip: &str, peer: Peer)
    requires
        call_ensures(peer_of, (message, ip), peer),
    ensures
        peer.ip@ == ip@,
        peer.version@ == message.version@,
        peer.device_type == message.device_type,
        message.port matches Some(port) ==> peer.port == port,
        message.port is None ==> peer.port == 53317,
        message.protocol matches Some(protocol) ==> peer.protocol@ == protocol@,
        message.protocol is None ==> peer.protocol@ == "https"@,
        message.alias@.len() > 0 ==> peer.alias@ == message.alias@,
        message.fingerprint@.len() > 0 ==> peer.fingerprint@ == message.fingerprint@,
{
    law_registered_fields_are_taken_over(message.deep_view(), ip@);
}

}
