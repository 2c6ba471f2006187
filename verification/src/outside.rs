//! The calls whose outcome the library takes as it comes: random identifiers,
//! drawn certificates, configured servers and the host name.
use vstd::prelude::*;

use crate::localsend::ids::is_random_uuid;
use crate::localsend::tls::{
    certified_names, may_be_address, pem_text, presented_by, SelfSigned, ServerSettings,
};

verus! {

/// Calls `uuid::Uuid::new_v4` and writes the result out with its `Display`.
/// Which identifier comes is left to chance; that it is a random UUID in its
/// hyphenated form holds of each.
#[verifier::external_body]
pub fn fresh_id() -> (r: String)
    ensures
        is_random_uuid(r@),
{
    uuid::Uuid::new_v4().to_string()
}

/// Calls `hostname::get`, which asks the system for the host name, and gives it
/// as text; `None` where the call fails. What comes rests on the system alone,
/// so nothing is stated of it.
#[verifier::external_body]
pub fn host_name() -> (r: Option<String>) {
    hostname::get().ok().map(|name| name.to_string_lossy().into_owned())
}

/// Calls `rcgen::generate_simple_self_signed`, which draws a key pair and
/// signs a certificate for `names` with it, and writes out what came with
/// `Certificate::der`, `Certificate::pem`, `KeyPair::serialize_der` and
/// `KeyPair::serialize_pem`. Which key comes is left to chance, and with it
/// the certificate; the PEM forms are those of the DER forms, with the line
/// ends of the system, and every name that cannot be taken for an IP address
/// is one of the DNS names of the certificate. It fails where a name is not
/// ASCII, and may fail otherwise where no key can be drawn.
#[verifier::external_body]
pub fn generate_certificate(names: Vec<String>) -> (r: Result<SelfSigned, rcgen::Error>)
    ensures
        (exists|i: int|
            0 <= i < names@.len() && !vstd::string::string_is_ascii(&#[trigger] names@[i])) ==> r
            is Err,
        r matches Ok(c) ==> exists|crlf: bool|
            c.pem@ == #[trigger] pem_text("CERTIFICATE"@, c.der@, crlf) && c.key_pem@ == pem_text(
                "PRIVATE KEY"@,
                c.key_der@,
                crlf,
            ),
        r matches Ok(c) ==> forall|i: int|
            0 <= i < names@.len() && !may_be_address(#[trigger] names@[i]@) ==> certified_names(
                c.der@,
            ).contains(names@[i]@),
{
    let made = rcgen::generate_simple_self_signed(names)?;
    Ok(
        SelfSigned {
            der: made.cert.der().to_vec(),
            pem: made.cert.pem(),
            key_der: made.signing_key.serialize_der(),
            key_pem: made.signing_key.serialize_pem(),
        },
    )
}

/// Installs the `ring` provider with `CryptoProvider::install_default`, as far as
/// none is, and builds a `rustls::ServerConfig` with `ServerConfig::builder`,
/// `with_no_client_auth` and `with_single_cert`: one that asks for no client
/// certificate, presents `certificate` with the private key `key`, and offers no
/// application protocol. It fails where the key is not one, or not that of the
/// certificate.
#[verifier::external_body]
pub fn server_without_client_auth(certificate: Vec<u8>, key: Vec<u8>) -> (r: Result<
    rustls::ServerConfig,
    rustls::Error,
>)
    ensures
        r matches Ok(config) ==> presented_by(config) == (ServerSettings {
            certificate: certificate@,
            key: key@,
            protocols: Seq::empty(),
            asks_for_client_certificate: false,
        }),
{
    let _ = rustls::crypto::ring::default_provider().install_default();
    let key = rustls::pki_types::PrivatePkcs8KeyDer::from(key);
    rustls::ServerConfig::builder().with_no_client_auth().with_single_cert(
        vec![rustls::pki_types::CertificateDer::from(certificate)],
        rustls::pki_types::PrivateKeyDer::Pkcs8(key),
    )
}

/// Sets `rustls::ServerConfig::alpn_protocols`, the application protocols that
/// are offered.
#[verifier::external_body]
pub fn offering(config: rustls::ServerConfig, protocols: Vec<Vec<u8>>) -> (r: rustls::ServerConfig)
    ensures
        presented_by(r) == (ServerSettings {
            protocols: protocols.deep_view(),
            ..presented_by(config)
        }),
{
    let mut config = config;
    config.alpn_protocols = protocols;
    config
}

}
