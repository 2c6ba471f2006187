use monosend::localsend::tls::{
    build_client, fingerprint_of, generate_self_signed_cert, identity_of, SelfSigned, TlsError,
};
use rustls::pki_types::{CertificateDer, ServerName};
use rustls::RootCertStore;
use std::sync::Arc;
use tokio_rustls::{TlsAcceptor, TlsConnector};

#[test]
fn fingerprint_uses_localsend_uppercase_format() {
    let tls = generate_self_signed_cert("test").unwrap();

    assert_eq!(tls.fingerprint.len(), 64);
    assert!(tls
        .fingerprint
        .chars()
        .all(|character| character.is_ascii_digit() || ('A'..='F').contains(&character)));
}

#[test]
fn clients_go_straight_to_their_peers() {
    let tls = generate_self_signed_cert("client").unwrap();
    let shown = format!("{:?}", build_client(tls.client_identity).unwrap());
    assert!(shown.contains("redirect_policy") && shown.contains("Policy(None)"));
    assert!(!shown.contains("proxies"));
}

#[test]
fn server_presents_the_generated_certificate() {
    let runtime = tokio::runtime::Builder::new_current_thread().build().unwrap();
    runtime.block_on(async {
        let tls = generate_self_signed_cert("server").unwrap();
        let certificate = CertificateDer::from(tls.certificate_der.clone());
        let mut trusted = RootCertStore::empty();
        trusted.add(certificate.clone()).unwrap();
        let mut config = rustls::ClientConfig::builder()
            .with_root_certificates(trusted)
            .with_no_client_auth();
        config.alpn_protocols = vec![b"h2".to_vec()];

        let (near, far) = tokio::io::duplex(65536);
        let server = tokio::spawn(async move {
            TlsAcceptor::from(tls.server_config).accept(far).await.unwrap();
        });
        let name = ServerName::try_from("localhost").unwrap();
        let stream = TlsConnector::from(Arc::new(config)).connect(name, near).await.unwrap();
        let session = stream.get_ref().1;
        assert_eq!(session.peer_certificates(), Some([certificate].as_slice()));
        assert_eq!(session.alpn_protocol(), Some(b"h2".as_slice()));
        server.await.unwrap();
    });
}

#[test]
fn fingerprint_is_the_digest_in_upper_case() {
    assert_eq!(
        fingerprint_of(&vec![]),
        "E3B0C44298FC1C149AFBF4C8996FB92427AE41E4649B934CA495991B7852B855"
    );
    assert_eq!(
        fingerprint_of(&b"abc".to_vec()),
        "BA7816BF8F01CFEA414140DE5DAE2223B00361A396177A9CB410FF61F20015AD"
    );
}

#[test]
fn identities_are_drawn_anew() {
    let one = generate_self_signed_cert("desk").unwrap();
    let other = generate_self_signed_cert("desk").unwrap();
    assert_ne!(one.fingerprint, other.fingerprint);
    assert_eq!(one.fingerprint, fingerprint_of(&one.certificate_der));
    assert_eq!(
        one.server_config.alpn_protocols,
        [b"h2".to_vec(), b"http/1.1".to_vec()]
    );
}

#[test]
fn certificates_name_the_device() {
    let tls = generate_self_signed_cert("monosend (desk)").unwrap();
    let holds = |name: &[u8]| tls.certificate_der.windows(name.len()).any(|part| part == name);
    assert!(holds(b"monosend (desk)"));
    assert!(holds(b"localhost"));
}

#[test]
fn aliases_that_are_not_ascii_are_refused() {
    assert!(matches!(
        generate_self_signed_cert("B\u{fc}ro"),
        Err(TlsError::Certificate(_))
    ));
}

#[test]
fn identities_need_a_key() {
    let made = || {
        let made = rcgen::generate_simple_self_signed(vec!["a".to_string()]).unwrap();
        SelfSigned {
            der: made.cert.der().to_vec(),
            pem: made.cert.pem(),
            key_der: made.signing_key.serialize_der(),
            key_pem: made.signing_key.serialize_pem(),
        }
    };
    let whole = made();
    let fingerprint = fingerprint_of(&whole.der);
    assert_eq!(identity_of(whole).unwrap_or_else(|_| panic!("valid")).fingerprint, fingerprint);
    let without = SelfSigned { pem: String::new(), key_pem: String::new(), ..made() };
    assert!(matches!(identity_of(without), Err(TlsError::Identity(_))));
    let foreign = SelfSigned { key_der: vec![1, 2, 3], ..made() };
    assert!(matches!(identity_of(foreign), Err(TlsError::Server(_))));
}
