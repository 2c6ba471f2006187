//! The certificate that identifies this device, as a server and as a client.
use vstd::prelude::*;
use std::sync::Arc;

use crate::outside::{generate_certificate, offering, server_without_client_auth};
use crate::text::join2;

verus! {

/// `rcgen::Error`, why no certificate was made.
#[verifier::external_type_specification]
#[verifier::external_body]
pub struct ExCertificateError(rcgen::Error);

/// `rustls::Error`, why no server was configured.
#[verifier::external_type_specification]
#[verifier::external_body]
pub struct ExServerError(rustls::Error);

/// `rustls::ServerConfig`, how a server speaks TLS.
#[verifier::external_type_specification]
#[verifier::external_body]
pub struct ExServerConfig(rustls::ServerConfig);

/// `reqwest::Error`, why no identity was read or no client was built.
#[verifier::external_type_specification]
#[verifier::external_body]
pub struct ExClientError(reqwest::Error);

/// `reqwest::Identity`, a certificate that clients present, with its private key.
#[verifier::external_type_specification]
#[verifier::external_body]
pub struct ExIdentity(reqwest::Identity);

/// `reqwest::Client`, an HTTP client.
#[verifier::external_type_specification]
#[verifier::external_body]
pub struct ExClient(reqwest::Client);

// ---------------------------------------------------------------------------
// Fingerprints
// ---------------------------------------------------------------------------

/// The SHA-256 digest of `data`.
pub uninterp spec fn sha256_of(data: Seq<u8>) -> Seq<u8>;

/// Calls `sha2::Sha256::digest`, which gives the SHA-256 digest of `data`:
/// always 32 bytes. Which they are is what `sha256_of` names.
#[verifier::external_body]
fn sha256(data: &[u8]) -> (r: Vec<u8>)
    ensures
        r@ == sha256_of(data@),
        r@.len() == 32,
{
    <sha2::Sha256 as sha2::Digest>::digest(data).to_vec()
}

/// The hexadecimal digit for `n`, where `n` is below sixteen, with the letters
/// in upper case.
pub open spec fn hex_digit(n: int) -> char {
    if n < 10 {
        (48 + n) as char
    } else {
        (55 + n) as char
    }
}

/// `data` in hexadecimal: two upper-case digits for each byte, the higher one
/// first.
pub open spec fn hex_upper(data: Seq<u8>) -> Seq<char> {
    Seq::new(
        data.len() * 2,
        |i: int|
            if i % 2 == 0 {
                hex_digit(data[i / 2] as int / 16)
            } else {
                hex_digit(data[i / 2] as int % 16)
            },
    )
}

/// Calls `hex::encode_upper`, which writes each byte as two upper-case
/// hexadecimal digits.
#[verifier::external_body]
fn encode_upper(data: &[u8]) -> (r: String)
    ensures
        r@ == hex_upper(data@),
{
    hex::encode_upper(data)
}

/// Whether `s` is a fingerprint in the LocalSend format: 64 hexadecimal digits
/// with the letters in upper case.
pub open spec fn is_fingerprint(s: Seq<char>) -> bool {
    s.len() == 64 && forall|i: int|
        0 <= i < 64 ==> ('0' <= #[trigger] s[i] <= '9' || 'A' <= s[i] <= 'F')
}

/// The fingerprint of the certificate with the DER form `der`.
pub fn fingerprint_of(der: &Vec<u8>) -> (r: String)
    ensures
        r@ == hex_upper(sha256_of(der@)),
        is_fingerprint(r@),
{
    let digest: Vec<u8> = sha256(der.as_slice());
    encode_upper(digest.as_slice())
}

// ---------------------------------------------------------------------------
// Certificates
// ---------------------------------------------------------------------------

/// A certificate and its private key, each in DER and in PEM form.
pub struct SelfSigned {
    pub der: Vec<u8>,
    pub pem: String,
    pub key_der: Vec<u8>,
    pub key_pem: String,
}

/// The PEM text with the label `label` and the contents `der`, whose lines end
/// in CR LF or in LF alone.
pub uninterp spec fn pem_text(label: Seq<char>, der: Seq<u8>, crlf: bool) -> Seq<char>;

/// The DNS names that the certificate with the DER form `der` is issued for.
pub uninterp spec fn certified_names(der: Seq<u8>) -> Seq<Seq<char>>;

/// Whether `s` holds nothing but what an IP address is written with.
pub open spec fn may_be_address(s: Seq<char>) -> bool {
    forall|i: int|
        0 <= i < s.len() ==> ('0' <= #[trigger] s[i] <= '9' || 'a' <= s[i] <= 'f' || 'A' <= s[i]
            <= 'F' || s[i] == '.' || s[i] == ':')
}

/// The identity that a text with a certificate and a private key in PEM form
/// holds, where it holds one.
pub uninterp spec fn pem_identity(pem: Seq<char>) -> Option<reqwest::Identity>;

/// The certificates and the private key that clients with `identity` present, in
/// DER form.
pub uninterp spec fn held_by(identity: reqwest::Identity) -> (Seq<Seq<u8>>, Seq<u8>);

/// How many bytes a certificate or a key may have to be read back from its PEM
/// form in any case. The reader gives up on sections of more than 256 MiB, which
/// this stays well below.
pub const PEM_LIMIT: usize = 0x100_0000;

/// The PEM forms of the certificate `der` and the private key `key`, one after
/// the other.
pub open spec fn pem_pair(der: Seq<u8>, key: Seq<u8>, crlf: bool) -> Seq<char> {
    pem_text("CERTIFICATE"@, der, crlf) + pem_text("PRIVATE KEY"@, key, crlf)
}

/// Calls `reqwest::Identity::from_pem`, which takes the certificates and the
/// private key out of a PEM text and fails where there are none. What comes is
/// what `pem_identity` names. From the PEM forms of one certificate and one
/// private key, as far as they are not too large, comes an identity that holds
/// just these two.
#[verifier::external_body]
fn identity_from_pem(pem: &str) -> (r: Result<reqwest::Identity, reqwest::Error>)
    ensures
        r is Ok <==> pem_identity(pem@) is Some,
        r matches Ok(identity) ==> pem_identity(pem@) == Some(identity),
        (forall|der: Seq<u8>, key: Seq<u8>, crlf: bool|
            pem@ == #[trigger] pem_pair(der, key, crlf) && der.len() <= PEM_LIMIT && key.len()
                <= PEM_LIMIT ==> r is Ok && held_by(r->Ok_0) == (seq![der], key)),
{
    reqwest::Identity::from_pem(pem.as_bytes())
}

/// What a server configuration holds for its peers: the certificate that it
/// presents, the private key of that certificate, the application protocols
/// that it offers, and whether it asks for the certificate of a client.
pub struct ServerSettings {
    pub certificate: Seq<u8>,
    pub key: Seq<u8>,
    pub protocols: Seq<Seq<u8>>,
    pub asks_for_client_certificate: bool,
}

/// What `config` holds for the peers of a server.
pub uninterp spec fn presented_by(config: rustls::ServerConfig) -> ServerSettings;

/// Configures a server that presents `certificate` with the private key `key`,
/// offers `protocols` and asks for no client certificate, where
/// `server_without_client_auth` came to one; otherwise the error is the one that
/// it came to.
pub fn server_config(certificate: Vec<u8>, key: Vec<u8>, protocols: Vec<Vec<u8>>) -> (r: Result<
    rustls::ServerConfig,
    rustls::Error,
>)
    ensures
        r matches Ok(config) ==> presented_by(config) == (ServerSettings {
            certificate: certificate@,
            key: key@,
            protocols: protocols.deep_view(),
            asks_for_client_certificate: false,
        }),
        exists|made: Result<rustls::ServerConfig, rustls::Error>|
            #[trigger] call_ensures(server_without_client_auth, (certificate, key), made)
                && match made {
                Ok(_) => r is Ok,
                Err(e) => r == Err::<rustls::ServerConfig, rustls::Error>(e),
            },
{
    match server_without_client_auth(certificate, key) {
        Ok(config) => Ok(offering(config, protocols)),
        Err(e) => Err(e),
    }
}

/// The identity of this device: a server that presents its certificate, the
/// identity that its clients present, and the fingerprint of the certificate.
pub struct TlsConfig {
    pub server_config: Arc<rustls::ServerConfig>,
    pub client_identity: reqwest::Identity,
    pub fingerprint: String,
    pub certificate_der: Vec<u8>,
}

/// Why this device could not be given an identity.
#[derive(Debug)]
pub enum TlsError {
    Certificate(rcgen::Error),
    Identity(reqwest::Error),
    Server(rustls::Error),
}

/// The application protocols that the server offers: HTTP/2 and HTTP/1.1.
pub open spec fn offered_protocols() -> Seq<Seq<u8>> {
    seq![
        seq![0x68u8, 0x32u8],
        seq![0x68u8, 0x74u8, 0x74u8, 0x70u8, 0x2fu8, 0x31u8, 0x2eu8, 0x31u8],
    ]
}

fn protocols() -> (r: Vec<Vec<u8>>)
    ensures
        r.deep_view() == offered_protocols(),
{
    let mut list: Vec<Vec<u8>> = Vec::new();
    list.push(vec![0x68, 0x32]);
    list.push(vec![0x68, 0x74, 0x74, 0x70, 0x2f, 0x31, 0x2e, 0x31]);
    assert(list.deep_view()[0] =~= offered_protocols()[0]);
    assert(list.deep_view()[1] =~= offered_protocols()[1]);
    assert(list.deep_view() =~= offered_protocols());
    list
}

/// Whether `config` is made of the certificate `der` with the private key
/// `key_der`, which `pem` holds in PEM form: the server presents that
/// certificate, the clients present what `pem` holds, and the fingerprint is
/// that of the certificate.
pub open spec fn is_identity(
    config: TlsConfig,
    der: Seq<u8>,
    key_der: Seq<u8>,
    pem: Seq<char>,
) -> bool {
    &&& config.certificate_der@ == der
    &&& config.fingerprint@ == hex_upper(sha256_of(der))
    &&& is_fingerprint(config.fingerprint@)
    &&& presented_by(*config.server_config) == (ServerSettings {
        certificate: der,
        key: key_der,
        protocols: offered_protocols(),
        asks_for_client_certificate: false,
    })
    &&& pem_identity(pem) == Some(config.client_identity)
}

/// Whether the clients of `config` present the certificate that its server
/// presents, and no other, with the same private key.
pub open spec fn is_mutual(config: TlsConfig) -> bool {
    let server = presented_by(*config.server_config);
    held_by(config.client_identity) == (seq![server.certificate], server.key)
}

/// Whether the PEM forms in `made` are those of its DER forms, and these are not
/// too large to be read back in any case.
pub open spec fn reads_back(made: SelfSigned) -> bool {
    &&& made.der@.len() <= PEM_LIMIT
    &&& made.key_der@.len() <= PEM_LIMIT
    &&& exists|crlf: bool|
        made.pem@ + made.key_pem@ == #[trigger] pem_pair(made.der@, made.key_der@, crlf)
}

/// The identity of this device with the certificate `der`, which its clients
/// present as `client_identity`, where a server was configured with it.
pub fn identity_with(
    der: Vec<u8>,
    client_identity: reqwest::Identity,
    configured: Result<rustls::ServerConfig, rustls::Error>,
) -> (r: Result<TlsConfig, TlsError>)
    ensures
        match configured {
            Ok(config) => r matches Ok(tls) && *tls.server_config == config && tls.client_identity
                == client_identity && tls.fingerprint@ == hex_upper(sha256_of(der@))
                && is_fingerprint(tls.fingerprint@) && tls.certificate_der@ == der@,
            Err(e) => r == Err::<TlsConfig, TlsError>(TlsError::Server(e)),
        },
{
    match configured {
        Ok(config) => {
            let fingerprint: String = fingerprint_of(&der);
            Ok(
                TlsConfig {
                    server_config: Arc::new(config),
                    client_identity,
                    fingerprint,
                    certificate_der: der,
                },
            )
        },
        Err(e) => Err(TlsError::Server(e)),
    }
}

/// Gives this device the identity of the certificate `made`. LocalSend uses
/// mutual TLS: the certificate that identifies this device as a server is also
/// the one that its clients present. It succeeds exactly where `made` holds an
/// identity in PEM form and `server_config` came to a server with the
/// certificate, the key and the protocols that are offered.
pub fn identity_of(made: SelfSigned) -> (r: Result<TlsConfig, TlsError>)
    ensures
        r matches Ok(config) ==> is_identity(
            config,
            made.der@,
            made.key_der@,
            made.pem@ + made.key_pem@,
        ),
        r matches Err(e) ==> e !is Certificate,
        r matches Err(TlsError::Identity(_)) <==> pem_identity(made.pem@ + made.key_pem@) is None,
        reads_back(made) ==> pem_identity(made.pem@ + made.key_pem@) is Some,
        reads_back(made) && r is Ok ==> is_mutual(r->Ok_0),
        pem_identity(made.pem@ + made.key_pem@) is Some ==> exists|
            der: Vec<u8>,
            offered: Vec<Vec<u8>>,
            configured: Result<rustls::ServerConfig, rustls::Error>,
        |
            der@ == made.der@ && offered.deep_view() == offered_protocols()
                && #[trigger] call_ensures(server_config, (der, made.key_der, offered), configured)
                && match configured {
                Ok(_) => r is Ok,
                Err(e) => r == Err::<TlsConfig, TlsError>(TlsError::Server(e)),
            },
{
    let pem: String = join2(made.pem.as_str(), made.key_pem.as_str());
    let client_identity: reqwest::Identity = match identity_from_pem(pem.as_str()) {
        Ok(identity) => identity,
        Err(e) => {
            return Err(TlsError::Identity(e));
        },
    };
    let configured = server_config(made.der.clone(), made.key_der, protocols());
    identity_with(made.der, client_identity, configured)
}

/// Generates a self-signed certificate for `alias` and for `localhost`, and
/// gives this device its identity. It comes to what `identity_of` came to with
/// the certificate that `generate_certificate` came to for these two names, or
/// to the error of the latter; the certificate is read back from its PEM form
/// unless it is very large. It fails where `alias` is not ASCII.
pub fn generate_self_signed_cert(alias: &str) -> (r: Result<TlsConfig, TlsError>)
    ensures
        r matches Ok(config) ==> exists|key_der: Seq<u8>, crlf: bool|
            is_identity(
                config,
                config.certificate_der@,
                key_der,
                #[trigger] pem_pair(config.certificate_der@, key_der, crlf),
            ),
        r matches Ok(config) ==> ({
            let server = presented_by(*config.server_config);
            server.certificate.len() <= PEM_LIMIT && server.key.len() <= PEM_LIMIT ==> is_mutual(
                config,
            )
        }),
        r matches Ok(config) ==> is_fingerprint(config.fingerprint@),
        r matches Ok(config) ==> certified_names(config.certificate_der@).contains("localhost"@),
        r matches Ok(config) ==> (may_be_address(alias@) || certified_names(
            config.certificate_der@,
        ).contains(alias@)),
        !vstd::string::is_ascii(alias) ==> r matches Err(TlsError::Certificate(_)),
        exists|names: Vec<String>, made: Result<SelfSigned, rcgen::Error>|
            names.deep_view() == seq![alias@, "localhost"@] && #[trigger] call_ensures(
                generate_certificate,
                (names,),
                made,
            ) && match made {
                Ok(made) => {
                    &&& call_ensures(identity_of, (made,), r)
                    &&& made.der@.len() <= PEM_LIMIT && made.key_der@.len() <= PEM_LIMIT
                        ==> !(r matches Err(TlsError::Identity(_)))
                },
                Err(e) => r == Err::<TlsConfig, TlsError>(TlsError::Certificate(e)),
            },
{
    let mut names: Vec<String> = Vec::new();
    names.push(alias.to_owned());
    names.push("localhost".to_owned());
    proof {
        reveal_strlit("localhost");
        assert("localhost"@[0] == 'l');
        assert(names@[0]@ == alias@);
        assert(names@[1]@ == "localhost"@);
        assert(names.deep_view() =~= seq![alias@, "localhost"@]);
    }
    match generate_certificate(names) {
        Ok(made) => {
            proof {
                let crlf = choose|crlf: bool|
                    made.pem@ == #[trigger] pem_text("CERTIFICATE"@, made.der@, crlf)
                        && made.key_pem@ == pem_text("PRIVATE KEY"@, made.key_der@, crlf);
                assert(made.pem@ + made.key_pem@ == pem_pair(made.der@, made.key_der@, crlf));
            }
            identity_of(made)
        },
        Err(e) => Err(TlsError::Certificate(e)),
    }
}

/// `reqwest::ClientBuilder`, an HTTP client in the making.
#[verifier::external_type_specification]
#[verifier::external_body]
pub struct ExClientBuilder(reqwest::ClientBuilder);

/// `reqwest::redirect::Policy`, what a client does about redirects.
#[verifier::external_type_specification]
#[verifier::external_body]
pub struct ExPolicy(reqwest::redirect::Policy);

/// How an HTTP client reaches its peers: the identity that it presents, whether
/// it takes whatever certificate they present, whether it may go through a
/// proxy, and whether it follows redirects.
pub struct ClientSettings {
    pub identity: Option<reqwest::Identity>,
    pub takes_any_certificate: bool,
    pub uses_proxies: bool,
    pub follows_redirects: bool,
}

/// How a client that `builder` builds reaches its peers.
pub uninterp spec fn set_to(builder: reqwest::ClientBuilder) -> ClientSettings;

/// How `client` reaches its peers.
pub uninterp spec fn settings_of(client: reqwest::Client) -> ClientSettings;

/// Whether redirects are followed under `policy`.
pub uninterp spec fn follows(policy: reqwest::redirect::Policy) -> bool;

/// `reqwest::Client::builder` starts without an identity, checks certificates,
/// goes through the proxies of the system and follows redirects.
pub assume_specification[ reqwest::Client::builder ]() -> (r: reqwest::ClientBuilder)
    ensures
        set_to(r) == (ClientSettings {
            identity: None,
            takes_any_certificate: false,
            uses_proxies: true,
            follows_redirects: true,
        }),
;

/// `reqwest::ClientBuilder::identity` sets the identity that is presented.
pub assume_specification[ reqwest::ClientBuilder::identity ](
    builder: reqwest::ClientBuilder,
    identity: reqwest::Identity,
) -> (r: reqwest::ClientBuilder)
    ensures
        set_to(r) == (ClientSettings { identity: Some(identity), ..set_to(builder) }),
;

/// `reqwest::ClientBuilder::danger_accept_invalid_certs` sets whether whatever
/// certificate is taken.
pub assume_specification[ reqwest::ClientBuilder::danger_accept_invalid_certs ](
    builder: reqwest::ClientBuilder,
    accept_invalid_certs: bool,
) -> (r: reqwest::ClientBuilder)
    ensures
        set_to(r) == (ClientSettings {
            takes_any_certificate: accept_invalid_certs,
            ..set_to(builder)
        }),
;

/// `reqwest::ClientBuilder::no_proxy` takes out all proxies, those of the system
/// too.
pub assume_specification[ reqwest::ClientBuilder::no_proxy ](
    builder: reqwest::ClientBuilder,
) -> (r: reqwest::ClientBuilder)
    ensures
        set_to(r) == (ClientSettings { uses_proxies: false, ..set_to(builder) }),
;

/// `reqwest::redirect::Policy::none` follows no redirect.
pub assume_specification[ reqwest::redirect::Policy::none ]() -> (r: reqwest::redirect::Policy)
    ensures
        !follows(r),
;

/// `reqwest::ClientBuilder::redirect` sets what is done about redirects.
pub assume_specification[ reqwest::ClientBuilder::redirect ](
    builder: reqwest::ClientBuilder,
    policy: reqwest::redirect::Policy,
) -> (r: reqwest::ClientBuilder)
    ensures
        set_to(r) == (ClientSettings { follows_redirects: follows(policy), ..set_to(builder) }),
;

/// `reqwest::ClientBuilder::build` builds a client with what was set. It fails
/// where the TLS backend cannot be set up.
pub assume_specification[ reqwest::ClientBuilder::build ](
    builder: reqwest::ClientBuilder,
) -> (r: Result<reqwest::Client, reqwest::Error>)
    ensures
        r matches Ok(client) ==> settings_of(client) == set_to(builder),
;

/// The settings for LocalSend peers, which are always reached directly on the
/// local network and have certificates that they signed themselves.
pub open spec fn direct_settings(identity: reqwest::Identity) -> ClientSettings {
    ClientSettings {
        identity: Some(identity),
        takes_any_certificate: true,
        uses_proxies: false,
        follows_redirects: false,
    }
}

/// Builds an HTTP client that presents `identity` to its peers, takes whatever
/// certificate they present, reaches them without a proxy and follows no
/// redirects. It comes to what `reqwest::ClientBuilder::build` comes to with
/// these settings.
pub fn build_client(identity: reqwest::Identity) -> (r: Result<reqwest::Client, reqwest::Error>)
    ensures
        r matches Ok(client) ==> settings_of(client) == direct_settings(identity),
        exists|builder: reqwest::ClientBuilder|
            set_to(builder) == direct_settings(identity) && #[trigger] call_ensures(
                reqwest::ClientBuilder::build,
                (builder,),
                r,
            ),
{
    reqwest::Client::builder()
        .identity(identity)
        .danger_accept_invalid_certs(true)
        .no_proxy()
        .redirect(reqwest::redirect::Policy::none())
        .build()
}

/// A fingerprint gives the digest back: every byte is written as two digits from
/// 0 to 9 or A to F, of which the first counts sixteen times.
pub proof fn law_hexadecimal_gives_the_bytes_back(data: Seq<u8>, i: int)
    requires
        0 <= i < data.len(),
    ensures
        ({
            let text = hex_upper(data);
            let value = |c: char|
                if '0' <= c <= '9' {
                    c as int - '0' as int
                } else {
                    c as int - 'A' as int + 10
                };
            &&& text.len() == 2 * data.len()
            &&& '0' <= text[2 * i] <= '9' || 'A' <= text[2 * i] <= 'F'
            &&& '0' <= text[2 * i + 1] <= '9' || 'A' <= text[2 * i + 1] <= 'F'
            &&& value(text[2 * i]) * 16 + value(text[2 * i + 1]) == data[i]
        }),
{
    let text = hex_upper(data);
    assert((2 * i) / 2 == i && (2 * i) % 2 == 0);
    assert((2 * i + 1) / 2 == i && (2 * i + 1) % 2 == 1);
    assert(text[2 * i] == hex_digit(data[i] as int / 16));
    assert(text[2 * i + 1] == hex_digit(data[i] as int % 16));
}

/// A fingerprint is 64 such digits, and nothing else is one.
pub proof fn law_fingerprints_are_in_the_format(s: Seq<char>, i: int)
    ensures
        is_fingerprint(s) ==> s.len() == 64,
        is_fingerprint(s) && 0 <= i < 64 ==> '0' <= s[i] <= '9' || 'A' <= s[i] <= 'F',
        s.len() == 64 && (forall|j: int|
            0 <= j < 64 ==> '0' <= #[trigger] s[j] <= '9' || 'A' <= s[j] <= 'F')
            ==> is_fingerprint(s),
{
}

/// A peer is reached directly: with the identity of this device, whatever
/// certificate it presents, without a proxy, and nowhere else than at its own
/// address.
pub proof fn law_peers_are_reached_directly(identity: reqwest::Identity)
    ensures
        direct_settings(identity).identity == Some(identity),
        direct_settings(identity).takes_any_certificate,
        !direct_settings(identity).uses_proxies,
        !direct_settings(identity).follows_redirects,
{
}

/// The server offers HTTP/2 first and then HTTP/1.1, by their names.
pub proof fn law_server_offers_both_versions(i: int)
    ensures
        offered_protocols().len() == 2,
        offered_protocols()[0].len() == "h2"@.len(),
        offered_protocols()[1].len() == "http/1.1"@.len(),
        0 <= i < 2 ==> offered_protocols()[0][i] as int == "h2"@[i] as int,
        0 <= i < 8 ==> offered_protocols()[1][i] as int == "http/1.1"@[i] as int,
{
    reveal_strlit("h2");
    reveal_strlit("http/1.1");
    assert(offered_protocols()[0] == seq![0x68u8, 0x32u8]);
    assert(offered_protocols()[1] == seq![
        0x68u8,
        0x74u8,
        0x74u8,
        0x70u8,
        0x2fu8,
        0x31u8,
        0x2eu8,
        0x31u8,
    ]);
}

/// An identity is of one certificate: the server presents it with its key, its
/// fingerprint is the digest of it, and clients are not asked for theirs; where
/// the identity is mutual the clients hold the same certificate and the same key,
/// and nothing else.
pub proof fn law_identities_are_of_one_certificate(
    config: TlsConfig,
    der: Seq<u8>,
    key_der: Seq<u8>,
    pem: Seq<char>,
)
    requires
        is_identity(config, der, key_der, pem),
    ensures
        config.certificate_der@ == der,
        config.fingerprint@ == hex_upper(sha256_of(der)),
        presented_by(*config.server_config).certificate == der,
        presented_by(*config.server_config).key == key_der,
        !presented_by(*config.server_config).asks_for_client_certificate,
        presented_by(*config.server_config).protocols == offered_protocols(),
        pem_identity(pem) == Some(config.client_identity),
        is_mutual(config) <==> held_by(config.client_identity).0 == seq![der] && held_by(
            config.client_identity,
        ).1 == key_der,
{
}

/// The fingerprint of a certificate is its digest in hexadecimal, in the format of
/// LocalSend.
pub proof fn law_fingerprints_are_of_the_certificate(der: &Vec<u8>, r: String)
    requires
        call_ensures(fingerprint_of, (der,), r),
    ensures
        r@ == hex_upper(sha256_of(der@)),
        r@.len() == 64,
{
}

/// An identity is made of the certificate that it is asked for and of the server
/// that was configured; where none was configured there is no identity.
pub proof fn law_identities_need_a_server(
    der: Vec<u8>,
    client_identity: reqwest::Identity,
    configured: Result<rustls::ServerConfig, rustls::Error>,
    r: Result<TlsConfig, TlsError>,
)
    requires
        call_ensures(identity_with, (der, client_identity, configured), r),
    ensures
        r is Ok <==> configured is Ok,
        r is Ok ==> r->Ok_0.certificate_der@ == der@ && r->Ok_0.client_identity == client_identity
            && *r->Ok_0.server_config == configured->Ok_0 && r->Ok_0.fingerprint@ == hex_upper(
            sha256_of(der@),
        ),
{
}

/// A certificate that this device makes for itself is for its alias, unless that
/// may be an address, and for `localhost`; the server presents it and asks for none
/// in return, and the fingerprint is its digest.
pub proof fn law_certificates_are_for_the_alias(alias: &str, r: Result<TlsConfig, TlsError>)
    requires
        call_ensures(generate_self_signed_cert, (alias,), r),
    ensures
        r matches Ok(config) ==> {
            let der = config.certificate_der@;
            &&& certified_names(der).contains("localhost"@)
            &&& may_be_address(alias@) || certified_names(der).contains(alias@)
            &&& config.fingerprint@ == hex_upper(sha256_of(der))
            &&& presented_by(*config.server_config).certificate == der
            &&& presented_by(*config.server_config).protocols == offered_protocols()
            &&& !presented_by(*config.server_config).asks_for_client_certificate
        },
{
}

/// A text may be an address only where it has nothing but digits, the letters of
/// hexadecimal digits, dots and colons.
pub proof fn law_addresses_have_no_other_characters(s: Seq<char>, i: int)
    ensures
        may_be_address(Seq::empty()),
        0 <= i < s.len() && may_be_address(s) ==> '0' <= s[i] <= '9' || 'a' <= s[i] <= 'f' || 'A'
            <= s[i] <= 'F' || s[i] == '.' || s[i] == ':',
        0 <= i < s.len() && (s[i] == '-' || s[i] == ' ' || s[i] == '(') ==> !may_be_address(s),
{
}

/// A client that is built reaches its peers directly, with the identity that it was
/// given.
pub proof fn law_clients_reach_their_peers_directly(
    identity: reqwest::Identity,
    r: Result<reqwest::Client, reqwest::Error>,
)
    requires
        call_ensures(build_client, (identity,), r),
    ensures
        r matches Ok(client) ==> {
            &&& settings_of(client).identity == Some(identity)
            &&& settings_of(client).takes_any_certificate
            &&& !settings_of(client).uses_proxies
            &&& !settings_of(client).follows_redirects
        },
{
}

/// A server that is configured presents what it was given, and asks for nothing.
pub proof fn law_servers_present_what_they_are_given(
    certificate: Vec<u8>,
    key: Vec<u8>,
    protocols: Vec<Vec<u8>>,
    r: Result<rustls::ServerConfig, rustls::Error>,
)
    requires
        call_ensures(server_config, (certificate, key, protocols), r),
    ensures
        r matches Ok(config) ==> {
            &&& presented_by(config).certificate == certificate@
            &&& presented_by(config).key == key@
            &&& presented_by(config).protocols == protocols.deep_view()
            &&& !presented_by(config).asks_for_client_certificate
        },
{
}

}
