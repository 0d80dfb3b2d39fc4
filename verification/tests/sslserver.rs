use validate_pgp_server::config::Config;
use openssl::asn1::Asn1Time;
use openssl::hash::MessageDigest;
use openssl::pkey::{PKey, Private};
use openssl::rsa::Rsa;
use openssl::x509::{X509Builder, X509NameBuilder, X509};
use validate_pgp_server::sslserver::{
    friendly_name, peer_from_der, AuthError, PeerCertificate, Server, SubjectEntry,
};

fn new_key() -> PKey<Private> {
    PKey::from_rsa(Rsa::generate(2048).unwrap()).unwrap()
}

/// A certificate for `cn` holding `key`, signed by `signer`, as DER.
fn make_cert(cn: &str, key: &PKey<Private>, signer: &PKey<Private>) -> Vec<u8> {
    let mut name = X509NameBuilder::new().unwrap();
    name.append_entry_by_text("CN", cn).unwrap();
    let name = name.build();
    let mut b = X509Builder::new().unwrap();
    b.set_version(2).unwrap();
    b.set_subject_name(&name).unwrap();
    b.set_issuer_name(&name).unwrap();
    b.set_pubkey(key).unwrap();
    b.set_not_before(&Asn1Time::days_from_now(0).unwrap()).unwrap();
    b.set_not_after(&Asn1Time::days_from_now(1).unwrap()).unwrap();
    b.sign(signer, MessageDigest::sha256()).unwrap();
    b.build().to_der().unwrap()
}

fn self_signed(cn: &str) -> Vec<u8> {
    let key = new_key();
    make_cert(cn, &key, &key)
}

fn sha1_digest(data: &[u8]) -> Vec<u8> {
    openssl::sha::sha1(data).to_vec()
}

fn upper_hex(bytes: &[u8]) -> String {
    bytes.iter().map(|b| format!("{:02X}", b)).collect()
}

fn config_with(thumbprints: &[&str], by_cert: bool, by_thumbprint: bool) -> Config {
    Config {
        listen_address: "127.0.0.1:8443".to_string(),
        cert_file: String::new(),
        key_file: String::new(),
        allowed_cert_thumbprints: thumbprints.iter().map(|t| t.to_string()).collect(),
        host_by_thumbprint: by_thumbprint,
        host_by_cert: by_cert,
        auth_ssl: true,
        active: true,
        runtime_worker_threads: 1,
        runtime_worker_blocking_threads: 1,
        auth_key: vec![],
        debug: false,
    }
}

fn peer(digest: Result<Vec<u8>, String>, entry: SubjectEntry) -> PeerCertificate {
    PeerCertificate {
        signature_check: Ok(true),
        sha1_digest: digest,
        last_subject_entry: entry,
    }
}

#[test]
fn new_lowercases_and_dedups_thumbprints() {
    let server = Server::new(&config_with(&["AB01FF", "ab01ff", "c0de"], false, true));
    assert_eq!(server.allowed_certs_thumbprints, vec!["ab01ff".to_string(), "c0de".to_string()]);
    assert!(server.host_by_thumbprint);
    assert!(!server.host_by_cert);
}

#[test]
fn no_certificate_is_refused_with_message() {
    let server = Server::new(&config_with(&[], true, true));
    let out = server.authenticate_certificate(&None);
    assert_eq!(out.reply.as_deref(), Some("ERR No certificate was provided\r\n"));
    assert!(matches!(out.authenticated, Ok(false)));
}

#[test]
fn by_cert_uses_signature_check() {
    let server = Server::new(&config_with(&[], true, true));
    let mut p = peer(Ok(vec![1]), SubjectEntry::Missing);
    p.signature_check = Ok(false);
    let out = server.authenticate_certificate(&Some(p));
    assert!(out.reply.is_none());
    assert!(matches!(out.authenticated, Ok(false)));

    let mut p = peer(Ok(vec![1]), SubjectEntry::Missing);
    p.signature_check = Err("bad signature".to_string());
    let out = server.authenticate_certificate(&Some(p));
    match out.authenticated {
        Err(AuthError::PeerVerifyFailed(m)) => assert_eq!(m, "bad signature"),
        other => panic!("unexpected {:?}", other),
    }
}

#[test]
fn thumbprint_match_ignores_configured_case() {
    let server = Server::new(&config_with(&["01AB0FFF"], false, true));
    let out = server.authenticate_certificate(&Some(peer(
        Ok(vec![0x01, 0xab, 0x0f, 0xff]),
        SubjectEntry::Text("client".to_string()),
    )));
    assert!(out.reply.is_none());
    assert!(matches!(out.authenticated, Ok(true)));
}

#[test]
fn unknown_thumbprint_is_refused_with_name_and_hex() {
    let server = Server::new(&config_with(&["00"], false, true));
    let out = server.authenticate_certificate(&Some(peer(
        Ok(vec![0x0a, 0xbc, 0x10]),
        SubjectEntry::Text("alice".to_string()),
    )));
    assert_eq!(
        out.reply.as_deref(),
        Some("ERR certificate (alice) thumbprint '0abc10' is unknown\r\n")
    );
    assert!(matches!(out.authenticated, Ok(false)));

    let out = server.authenticate_certificate(&Some(peer(Ok(vec![]), SubjectEntry::Missing)));
    assert_eq!(
        out.reply.as_deref(),
        Some("ERR certificate (<Unknown>) thumbprint '' is unknown\r\n")
    );
}

#[test]
fn digest_error_is_reported() {
    let server = Server::new(&config_with(&["00"], false, true));
    let out = server.authenticate_certificate(&Some(peer(
        Err("no digest".to_string()),
        SubjectEntry::Missing,
    )));
    assert!(out.reply.is_none());
    match out.authenticated {
        Err(AuthError::DigestFailed(m)) => assert_eq!(m, "no digest"),
        other => panic!("unexpected {:?}", other),
    }
}

#[test]
fn neither_switch_admits_any_certificate() {
    let server = Server::new(&config_with(&[], false, false));
    let out = server.authenticate_certificate(&Some(peer(Err("x".to_string()), SubjectEntry::Missing)));
    assert!(out.reply.is_none());
    assert!(matches!(out.authenticated, Ok(true)));
}

#[test]
fn friendly_names() {
    assert_eq!(friendly_name(&SubjectEntry::Missing), "<Unknown>");
    assert_eq!(friendly_name(&SubjectEntry::Unreadable), "");
    assert_eq!(friendly_name(&SubjectEntry::Text("bob".to_string())), "bob");
}

#[test]
fn sha1_of_known_input() {
    assert_eq!(
        upper_hex(&peer_from_der(b"abc").sha1_digest.unwrap()),
        "A9993E364706816ABA3E25717850C26C9CD0D89D"
    );
}

#[test]
fn peer_read_from_der() {
    let der = self_signed("client-one");
    let p = peer_from_der(&der);
    let digest = X509::from_der(&der).unwrap().digest(MessageDigest::sha1()).unwrap().to_vec();
    assert_eq!(p.sha1_digest.unwrap(), digest);
    assert!(matches!(p.signature_check, Ok(true)));
    assert!(matches!(p.last_subject_entry, SubjectEntry::Text(ref t) if t == "client-one"));
}

#[test]
fn signature_by_another_key_does_not_verify() {
    let key = new_key();
    let other = new_key();
    let der = make_cert("forged", &key, &other);
    assert!(matches!(peer_from_der(&der).signature_check, Ok(false)));
}

#[test]
fn non_certificate_bytes() {
    let p = peer_from_der(b"not a certificate");
    assert!(p.signature_check.is_err());
    assert!(matches!(p.last_subject_entry, SubjectEntry::Missing));
}

#[test]
fn upper_case_configured_thumbprint_admits_presented_certificate() {
    let der = self_signed("client-two");
    let thumbprint = upper_hex(&sha1_digest(&der));
    let server = Server::new(&config_with(&[&thumbprint], false, true));
    let out = server.authenticate_presented(Some(&der));
    assert!(out.reply.is_none());
    assert!(matches!(out.authenticated, Ok(true)));
}

#[test]
fn presented_certificate_with_unknown_thumbprint() {
    let der = self_signed("stranger");
    let server = Server::new(&config_with(&["00"], false, true));
    let out = server.authenticate_presented(Some(&der));
    let tp: String = sha1_digest(&der).iter().map(|b| format!("{:02x}", b)).collect();
    assert_eq!(
        out.reply,
        Some(format!("ERR certificate (stranger) thumbprint '{}' is unknown\r\n", tp))
    );
    assert!(matches!(out.authenticated, Ok(false)));
}

#[test]
fn presented_certificate_checked_by_signature() {
    let server = Server::new(&config_with(&[], true, false));
    let der = self_signed("signed");
    assert!(matches!(server.authenticate_presented(Some(&der)).authenticated, Ok(true)));
    let key = new_key();
    let other = new_key();
    let forged = make_cert("forged", &key, &other);
    assert!(matches!(server.authenticate_presented(Some(&forged)).authenticated, Ok(false)));
    let out = server.authenticate_presented(None);
    assert_eq!(out.reply.as_deref(), Some("ERR No certificate was provided\r\n"));
}

#[test]
fn admission_gate() {
    let server = Server::new(&config_with(&["00"], false, true));
    let out = server.admit_connection(false, None);
    assert!(out.reply.is_none());
    assert!(matches!(out.authenticated, Ok(true)));
    let out = server.admit_connection(true, None);
    assert_eq!(out.reply.as_deref(), Some("ERR No certificate was provided\r\n"));
    assert!(matches!(out.authenticated, Ok(false)));
    let der = self_signed("someone");
    let out = server.admit_connection(true, Some(&der));
    assert!(matches!(out.authenticated, Ok(false)));
}
