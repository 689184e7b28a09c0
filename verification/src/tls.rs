//! Where the TLS certificate and key live: the configured paths, or
//! `cert.pem` and `key.pem` in the `tls` directory of the configuration
//! directory; and the self-signed certificate made when they are missing.
use vstd::prelude::*;
use rcgen::{Certificate, CertificateParams, DistinguishedName, DnType, KeyPair, SanType};

verus! {

#[verifier::external_type_specification]
#[verifier::external_body]
pub struct ExCertificateParams(CertificateParams);

#[verifier::external_type_specification]
#[verifier::external_body]
pub struct ExKeyPair(KeyPair);

#[verifier::external_type_specification]
#[verifier::external_body]
pub struct ExCertificate(Certificate);

#[verifier::external_type_specification]
#[verifier::external_body]
pub struct ExRcgenError(rcgen::Error);

/// Every character is ASCII (the IA5 alphabet).
pub open spec fn is_ascii_text(s: Seq<char>) -> bool {
    forall|i: int| 0 <= i < s.len() ==> (s[i] as u32) < 128
}

/// PEM armor: the text opens with `-----BEGIN <tag>-----` and closes with
/// `-----END <tag>-----` and a line ending.
pub open spec fn pem_armored(text: Seq<char>, tag: Seq<char>) -> bool {
    &&& ("-----BEGIN "@ + tag + "-----"@).is_prefix_of(text)
    &&& (("-----END "@ + tag + "-----\n"@).is_suffix_of(text) || ("-----END "@ + tag
        + "-----\r\n"@).is_suffix_of(text))
}

/// What a self-signed certificate is made for: its subject (common name and
/// organization), the last day it is valid (year, month, day, at midnight
/// UTC), and the DNS name and IPv4 address it names as alternative names.
#[derive(Debug)]
pub struct CertRequest {
    pub common_name: String,
    pub organization: String,
    pub year: i32,
    pub month: u8,
    pub day: u8,
    pub dns_name: String,
    pub ipv4: [u8; 4],
}

/// A date every calendar holds: months 1 to 12, days 1 to 28, years within
/// ±9999.
pub open spec fn plain_date(year: i32, month: u8, day: u8) -> bool {
    -9999 <= year <= 9999 && 1 <= month <= 12 && 1 <= day <= 28
}

/// The server's own certificate request: `CN=macrdp, O=macrdp`, valid until
/// 2027-03-24, for `localhost` and `127.0.0.1`.
pub open spec fn is_server_request(r: CertRequest) -> bool {
    &&& r.common_name@ == "macrdp"@
    &&& r.organization@ == "macrdp"@
    &&& r.year == 2027
    &&& r.month == 3
    &&& r.day == 24
    &&& r.dns_name@ == "localhost"@
    &&& r.ipv4 == [127u8, 0u8, 0u8, 1u8]
}

/// The server's own certificate request.
pub fn certificate_request() -> (r: CertRequest)
    ensures
        is_server_request(r),
{
    CertRequest {
        common_name: String::from_str("macrdp"),
        organization: String::from_str("macrdp"),
        year: 2027,
        month: 3,
        day: 24,
        dns_name: String::from_str("localhost"),
        ipv4: [127, 0, 0, 1],
    }
}

/// `CertificateParams::default` of rcgen, with its distinguished name
/// replaced by a fresh `DistinguishedName` holding the request's common name
/// and organization, `not_after` set by `date_time_ymd` to midnight UTC of
/// the request's date, and as subject alternative names the request's DNS
/// name and IPv4 address. The DNS name becomes an `Ia5String`, whose
/// `try_from` refuses exactly text with a character outside ASCII.
/// `date_time_ymd` panics on a date that does not exist or lies beyond year
/// 9999, so a date every calendar holds is required. Nothing else of the
/// parameters can be read back.
#[verifier::external_body]
fn certificate_params(request: &CertRequest) -> (r: Result<CertificateParams, rcgen::Error>)
    requires
        plain_date(request.year, request.month, request.day),
    ensures
        r is Ok <==> is_ascii_text(request.dns_name@),
{
    let mut params = CertificateParams::default();
    let mut dn = DistinguishedName::new();
    dn.push(DnType::CommonName, request.common_name.as_str());
    dn.push(DnType::OrganizationName, request.organization.as_str());
    params.distinguished_name = dn;
    params.not_after = rcgen::date_time_ymd(request.year, request.month, request.day);
    let dns = SanType::DnsName(request.dns_name.as_str().try_into()?);
    params.subject_alt_names = vec![dns, SanType::IpAddress(request.ipv4.into())];
    Ok(params)
}

/// `KeyPair::generate` of rcgen: a fresh random ECDSA P-256 key pair. It
/// rests on the system's random source; nothing is stated of the key.
#[verifier::external_body]
fn generate_key_pair() -> (r: Result<KeyPair, rcgen::Error>) {
    KeyPair::generate()
}

/// `CertificateParams::self_signed` of rcgen: the certificate for the
/// parameters, signed with the key. The signature is randomized; nothing is
/// stated of the certificate.
#[verifier::external_body]
fn self_sign(params: &CertificateParams, key: &KeyPair) -> (r: Result<Certificate, rcgen::Error>) {
    params.self_signed(key)
}

/// `Certificate::pem` of rcgen: the DER certificate in PEM armor with the
/// tag `CERTIFICATE`, as the `pem` crate's `encode_config` writes it (begin
/// line, base64 lines, end line, each ending in LF, or CRLF on Windows).
#[verifier::external_body]
fn certificate_pem(cert: &Certificate) -> (s: String)
    ensures
        pem_armored(s@, "CERTIFICATE"@),
{
    cert.pem()
}

/// `KeyPair::serialize_pem` of rcgen: the PKCS#8 private key in PEM armor
/// with the tag `PRIVATE KEY`, written as `Certificate::pem` writes its own.
#[verifier::external_body]
fn private_key_pem(key: &KeyPair) -> (s: String)
    ensures
        pem_armored(s@, "PRIVATE KEY"@),
{
    key.serialize_pem()
}

/// Why a self-signed certificate could not be made.
#[derive(Debug)]
pub enum CertError {
    /// The certificate parameters were refused.
    Params(rcgen::Error),
    /// No key pair could be generated.
    Key(rcgen::Error),
    /// The certificate could not be signed.
    Sign(rcgen::Error),
}

/// A generated certificate and its private key, as PEM text, with the
/// request the certificate was made for.
#[derive(Debug)]
pub struct GeneratedCert {
    pub request: CertRequest,
    pub cert_pem: String,
    pub key_pem: String,
}

/// A self-signed certificate for `request`, with a freshly generated key:
/// the request is handed to rcgen as the certificate's parameters, which
/// are refused exactly when the DNS name is not ASCII; key generation and
/// signing may fail. A certificate comes back with the request it was made
/// for.
pub fn self_signed_cert_pem(request: CertRequest) -> (res: Result<GeneratedCert, CertError>)
    requires
        plain_date(request.year, request.month, request.day),
    ensures
        (res matches Err(CertError::Params(_))) <==> !is_ascii_text(request.dns_name@),
        res matches Ok(g) ==> g.request == request && pem_armored(g.cert_pem@, "CERTIFICATE"@)
            && pem_armored(g.key_pem@, "PRIVATE KEY"@),
{
    let params = match certificate_params(&request) {
        Ok(p) => p,
        Err(e) => return Err(CertError::Params(e)),
    };
    let key = match generate_key_pair() {
        Ok(k) => k,
        Err(e) => return Err(CertError::Key(e)),
    };
    let cert = match self_sign(&params, &key) {
        Ok(c) => c,
        Err(e) => return Err(CertError::Sign(e)),
    };
    Ok(GeneratedCert { request, cert_pem: certificate_pem(&cert), key_pem: private_key_pem(&key) })
}

/// The server's own request is always accepted as certificate parameters.
pub proof fn law_server_request_is_accepted(r: CertRequest)
    requires
        is_server_request(r),
    ensures
        plain_date(r.year, r.month, r.day),
        is_ascii_text(r.dns_name@),
{
    reveal_strlit("localhost");
}

/// Whether the certificate and key must be (re)generated: when either file
/// is missing, both are written anew; when both exist they are kept.
pub fn needs_generation(cert_exists: bool, key_exists: bool) -> (r: bool)
    ensures
        r == (!cert_exists || !key_exists),
{
    !cert_exists || !key_exists
}

/// `name` appended to `base` as the next path component: after a `/`, which
/// is left out when `base` is empty or already ends with one.
pub open spec fn joined(base: Seq<char>, name: Seq<char>) -> Seq<char> {
    if base.len() == 0 || base.last() == '/' {
        base + name
    } else {
        base + seq!['/'] + name
    }
}

/// `Path::join` of std (on Unix), read back as text with
/// `to_string_lossy`: a relative `name` is appended after a `/` separator,
/// which is left out when `base` is empty or already ends with one. Both are
/// UTF-8, so the text comes back unchanged. Only relative names are handed to
/// it: an absolute one would replace `base`.
#[verifier::external_body]
fn join_path(base: &str, name: &str) -> (r: String)
    requires
        name@.len() > 0,
        name@[0] != '/',
    ensures
        r@ == joined(base@, name@),
{
    std::path::Path::new(base).join(name).to_string_lossy().into_owned()
}

/// The TLS certificate and private key files.
#[derive(Debug)]
pub struct TlsFiles {
    pub cert: String,
    pub key: String,
}

/// The default certificate path under a configuration directory.
pub open spec fn default_cert_path(config_dir: Seq<char>) -> Seq<char> {
    joined(joined(config_dir, "tls"@), "cert.pem"@)
}

/// The default key path under a configuration directory.
pub open spec fn default_key_path(config_dir: Seq<char>) -> Seq<char> {
    joined(joined(config_dir, "tls"@), "key.pem"@)
}

/// The TLS files to use: each configured path as given, otherwise
/// `<config_dir>/tls/cert.pem` and `<config_dir>/tls/key.pem`. The caller
/// generates a self-signed pair when either file does not exist.
pub fn ensure_tls_files(config_dir: &str, cert_path: Option<&str>, key_path: Option<&str>) -> (f: TlsFiles)
    ensures
        f.cert@ == match cert_path {
            Some(p) => p@,
            None => default_cert_path(config_dir@),
        },
        f.key@ == match key_path {
            Some(p) => p@,
            None => default_key_path(config_dir@),
        },
{
    proof {
        reveal_strlit("tls");
        reveal_strlit("cert.pem");
        reveal_strlit("key.pem");
    }
    let tls_dir = join_path(config_dir, "tls");
    let cert = match cert_path {
        Some(p) => p.to_owned(),
        None => join_path(tls_dir.as_str(), "cert.pem"),
    };
    let key = match key_path {
        Some(p) => p.to_owned(),
        None => join_path(tls_dir.as_str(), "key.pem"),
    };
    TlsFiles { cert, key }
}

} // verus!
