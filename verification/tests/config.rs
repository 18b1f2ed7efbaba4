use wormhole_relay::config::{env_flag, security_mode, ConfigError, SecurityMode};
use wormhole_relay::tls::{
    alpn_protocols, generate_relay_certificate, load_ca_cert_from_pem, relay_certificate_from,
    relay_certificate_names,
    CertificateAndKey, TlsError,
};

#[test]
fn env_flag_accepts_one_true_yes_in_any_case() {
    assert!(env_flag(Some("1")));
    assert!(env_flag(Some("TRUE")));
    assert!(env_flag(Some("Yes")));
    assert!(!env_flag(Some("0")));
    assert!(!env_flag(Some("on")));
    assert!(!env_flag(Some("")));
    assert!(!env_flag(None));
}

#[test]
fn ca_certificate_selects_mtls_before_dev_mode() {
    assert_eq!(security_mode(true, Some("1")), Ok(SecurityMode::Mtls));
    assert_eq!(security_mode(false, Some("true")), Ok(SecurityMode::Unsecure));
    assert_eq!(security_mode(false, Some("no")), Err(ConfigError::NoSecurityMode));
    assert_eq!(security_mode(false, None), Err(ConfigError::NoSecurityMode));
}

#[test]
fn ca_pem_yields_its_first_certificate() {
    let a = rcgen::generate_simple_self_signed(vec!["ca-a".to_string()]).unwrap();
    let b = rcgen::generate_simple_self_signed(vec!["ca-b".to_string()]).unwrap();
    let pem = format!("{}{}", a.cert.pem(), b.cert.pem());
    let der = load_ca_cert_from_pem(pem.as_bytes()).unwrap();
    assert_eq!(der, a.cert.der().to_vec());
}

#[test]
fn ca_pem_without_certificates_is_refused() {
    assert_eq!(load_ca_cert_from_pem(b""), Err(TlsError::NoCaCertificate));
    assert_eq!(
        load_ca_cert_from_pem(b"no pem here").unwrap_err().message(),
        "CA PEM contained no certificates"
    );
}

#[test]
fn relay_certificate_names_the_relay() {
    let generated = generate_relay_certificate().unwrap();
    assert!(!generated.key_der.is_empty());
    assert_eq!(generated.subject_alt_names, vec!["wormhole-relay".to_string()]);
    assert_eq!(relay_certificate_names(), vec!["wormhole-relay".to_string()]);
    assert_eq!(
        wormhole_relay::relay::extract_san_from_der(&generated.cert_der),
        Some("wormhole-relay".to_string())
    );
}

#[test]
fn alpn_offers_wormhole_then_h3() {
    assert_eq!(alpn_protocols(), vec![b"wormhole/3".to_vec(), b"h3".to_vec()]);
}

#[test]
fn relay_certificate_keeps_what_generation_gave() {
    let generated = CertificateAndKey {
        cert_der: vec![1, 2, 3],
        key_der: vec![4, 5],
        subject_alt_names: vec!["a.example".to_string()],
    };
    let made = relay_certificate_from(Some(generated)).unwrap();
    assert_eq!(made.cert_der, vec![1, 2, 3]);
    assert_eq!(made.key_der, vec![4, 5]);
    assert_eq!(made.subject_alt_names, vec!["a.example".to_string()]);
    assert!(matches!(relay_certificate_from(None), Err(TlsError::CertificateGeneration)));
}
