//! The relay's TLS material: its self-signed certificate, the CA certificate
//! that client certificates must chain to, and the ALPN protocols it offers.

use vstd::prelude::*;

verus! {

/// The subject alternative name of the relay's self-signed certificate.
pub fn relay_certificate_name() -> (r: String)
    ensures
        r@ == "wormhole-relay"@,
{
    "wormhole-relay".to_owned()
}

/// The subject alternative names the relay's certificate is made for: the
/// one name `wormhole-relay`.
pub fn relay_certificate_names() -> (r: Vec<String>)
    ensures
        r@.len() == 1,
        r@[0]@ == "wormhole-relay"@,
{
    let mut names: Vec<String> = Vec::new();
    names.push(relay_certificate_name());
    names
}

/// A certificate and its private key, both DER-encoded, with the subject
/// alternative names the certificate was made for.
pub struct CertificateAndKey {
    pub cert_der: Vec<u8>,
    pub key_der: Vec<u8>,
    pub subject_alt_names: Vec<String>,
}

/// The characters of each of a list of strings.
pub open spec fn names_chars(names: Seq<String>) -> Seq<Seq<char>> {
    names.map_values(|n: String| n@)
}

/// Why TLS material could not be had.
#[derive(Clone, Copy, PartialEq, Eq, Debug, Structural)]
pub enum TlsError {
    /// The self-signed certificate could not be generated.
    CertificateGeneration,
    /// The CA file is not well-formed PEM.
    InvalidCaPem,
    /// The CA file holds no certificate.
    NoCaCertificate,
}

impl TlsError {
    pub fn message(&self) -> (r: &'static str)
        ensures
            r@ == match self {
                TlsError::CertificateGeneration => "failed to generate self-signed cert"@,
                TlsError::InvalidCaPem => "failed to parse CA PEM"@,
                TlsError::NoCaCertificate => "CA PEM contained no certificates"@,
            },
    {
        match self {
            TlsError::CertificateGeneration => "failed to generate self-signed cert",
            TlsError::InvalidCaPem => "failed to parse CA PEM",
            TlsError::NoCaCertificate => "CA PEM contained no certificates",
        }
    }
}

/// `rcgen::generate_simple_self_signed`: a fresh key pair and a certificate
/// for the subject alternative names `names` signed with it, as DER, returned
/// with those names; none when generation fails.  The key is random, so
/// nothing is stated of the DER.
#[verifier::external_body]
fn generate_simple_self_signed_der(names: Vec<String>) -> (r: Option<CertificateAndKey>)
    ensures
        r matches Some(c) ==> names_chars(c.subject_alt_names@) == names_chars(names@),
{
    match rcgen::generate_simple_self_signed(names.clone()) {
        Ok(certified) => Some(CertificateAndKey {
            cert_der: certified.cert.der().to_vec(),
            key_der: certified.key_pair.serialize_der(),
            subject_alt_names: names,
        }),
        Err(_) => None,
    }
}

/// The relay certificate made of what generation gave: the generated
/// certificate and key as they are, or a generation error when none was made.
pub fn relay_certificate_from(generated: Option<CertificateAndKey>) -> (r: Result<
    CertificateAndKey,
    TlsError,
>)
    ensures
        match generated {
            Some(g) => r matches Ok(c) && c.cert_der@ == g.cert_der@ && c.key_der@ == g.key_der@
                && names_chars(c.subject_alt_names@) == names_chars(g.subject_alt_names@),
            None => r matches Err(e) && e == TlsError::CertificateGeneration,
        },
{
    match generated {
        Some(g) => Ok(g),
        None => Err(TlsError::CertificateGeneration),
    }
}

/// A fresh self-signed certificate for the relay, made for the one subject
/// alternative name `wormhole-relay`.
pub fn generate_relay_certificate() -> (r: Result<CertificateAndKey, TlsError>)
    ensures
        r matches Err(e) ==> e == TlsError::CertificateGeneration,
        r matches Ok(c) ==> names_chars(c.subject_alt_names@) == seq!["wormhole-relay"@],
{
    let names = relay_certificate_names();
    let ghost requested = names_chars(names@);
    assert(requested =~= seq!["wormhole-relay"@]);
    relay_certificate_from(generate_simple_self_signed_der(names))
}

/// What `rustls_pemfile::certs` reads from a PEM file: the DER of its
/// certificates in order, or none when reading an item fails.
pub uninterp spec fn pem_certificates(pem: Seq<u8>) -> Option<Seq<Seq<u8>>>;

/// `rustls_pemfile::certs` over the bytes of a PEM file, collected until the
/// first error.  The result is named `pem_certificates`.
#[verifier::external_body]
fn read_pem_certificates(pem: &[u8]) -> (r: Option<Vec<Vec<u8>>>)
    ensures
        match r {
            Some(certs) => pem_certificates(pem@) == Some(certs@.map_values(|c: Vec<u8>| c@)),
            None => pem_certificates(pem@) is None,
        },
{
    let mut cursor = std::io::Cursor::new(pem);
    rustls_pemfile::certs(&mut cursor).map(|c| c.map(|c| c.to_vec())).collect::<Result<
        Vec<_>,
        _,
    >>().ok()
}

/// The first certificate of a CA PEM file, as DER.
pub fn load_ca_cert_from_pem(pem: &[u8]) -> (r: Result<Vec<u8>, TlsError>)
    ensures
        match pem_certificates(pem@) {
            None => r == Err::<Vec<u8>, TlsError>(TlsError::InvalidCaPem),
            Some(certs) => if certs.len() == 0 {
                r == Err::<Vec<u8>, TlsError>(TlsError::NoCaCertificate)
            } else {
                r matches Ok(der) && der@ == certs[0]
            },
        },
{
    let mut certs = match read_pem_certificates(pem) {
        Some(certs) => certs,
        None => return Err(TlsError::InvalidCaPem),
    };
    if certs.len() == 0 {
        return Err(TlsError::NoCaCertificate);
    }
    let ghost before = certs@;
    let first = certs.swap_remove(0);
    assert(before.map_values(|c: Vec<u8>| c@)[0] == before[0]@);
    Ok(first)
}

/// The ALPN protocols the relay offers: `wormhole/3`, then `h3`.
pub fn alpn_protocols() -> (r: Vec<Vec<u8>>)
    ensures
        r@.len() == 2,
        r@[0]@ == seq![119u8, 111, 114, 109, 104, 111, 108, 101, 47, 51],
        r@[1]@ == seq![104u8, 51],
{
    let wormhole: Vec<u8> = vec![119u8, 111, 114, 109, 104, 111, 108, 101, 47, 51];
    let h3: Vec<u8> = vec![104u8, 51];
    let mut r: Vec<Vec<u8>> = Vec::new();
    r.push(wormhole);
    r.push(h3);
    r
}

} // verus!
