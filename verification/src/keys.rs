//! The server's certificates and private key, read from PEM text with
//! rustls's `pemfile` readers.

use vstd::prelude::*;
use crate::fields::copy_bytes;

verus! {

/// The DER contents of the `CERTIFICATE` sections of `pem`, in order, as
/// `rustls::internal::pemfile::certs` reads them, or `None` where a section
/// is not valid base64.
pub uninterp spec fn pem_certificates(pem: Seq<u8>) -> Option<Seq<Seq<u8>>>;

/// The DER contents of the `PRIVATE KEY` (PKCS#8) sections of `pem`, in
/// order, as `rustls::internal::pemfile::pkcs8_private_keys` reads them, or
/// `None` where a section is not valid base64.
pub uninterp spec fn pem_pkcs8_keys(pem: Seq<u8>) -> Option<Seq<Seq<u8>>>;

/// The DER contents of the `RSA PRIVATE KEY` sections of `pem`, in order, as
/// `rustls::internal::pemfile::rsa_private_keys` reads them, or `None` where
/// a section is not valid base64.
pub uninterp spec fn pem_rsa_keys(pem: Seq<u8>) -> Option<Seq<Seq<u8>>>;

/// The contents of a list of byte vectors.
pub open spec fn vec_views(v: Seq<Vec<u8>>) -> Seq<Seq<u8>> {
    Seq::new(v.len(), |i: int| v[i]@)
}

/// Reads the certificates of `pem` with `rustls::internal::pemfile::certs`,
/// the bytes given as its reader; each `Certificate` gives its DER bytes.
/// The result is the named one: the reader goes through the text line by line
/// and decodes each section's base64, so it depends on the text alone.
#[verifier::external_body]
fn certificates_in(pem: &[u8]) -> (r: Option<Vec<Vec<u8>>>)
    ensures
        r is Some <==> pem_certificates(pem@) is Some,
        r matches Some(v) ==> vec_views(v@) == pem_certificates(pem@).unwrap(),
{
    let mut reader: &[u8] = pem;
    let certs = rustls::internal::pemfile::certs(&mut reader).ok()?;
    Some(certs.into_iter().map(|c| c.0).collect())
}

/// Reads the PKCS#8 private keys of `pem` with
/// `rustls::internal::pemfile::pkcs8_private_keys`, as [`certificates_in`]
/// reads certificates; each `PrivateKey` gives its DER bytes.
#[verifier::external_body]
fn pkcs8_keys_in(pem: &[u8]) -> (r: Option<Vec<Vec<u8>>>)
    ensures
        r is Some <==> pem_pkcs8_keys(pem@) is Some,
        r matches Some(v) ==> vec_views(v@) == pem_pkcs8_keys(pem@).unwrap(),
{
    let mut reader: &[u8] = pem;
    let keys = rustls::internal::pemfile::pkcs8_private_keys(&mut reader).ok()?;
    Some(keys.into_iter().map(|k| k.0).collect())
}

/// Reads the RSA private keys of `pem` with
/// `rustls::internal::pemfile::rsa_private_keys`, as [`certificates_in`]
/// reads certificates; each `PrivateKey` gives its DER bytes.
#[verifier::external_body]
fn rsa_keys_in(pem: &[u8]) -> (r: Option<Vec<Vec<u8>>>)
    ensures
        r is Some <==> pem_rsa_keys(pem@) is Some,
        r matches Some(v) ==> vec_views(v@) == pem_rsa_keys(pem@).unwrap(),
{
    let mut reader: &[u8] = pem;
    let keys = rustls::internal::pemfile::rsa_private_keys(&mut reader).ok()?;
    Some(keys.into_iter().map(|k| k.0).collect())
}

/// The key chosen among the PKCS#8 keys and the RSA keys: the first PKCS#8
/// key where there is one, else the first RSA key, else none.
pub open spec fn chosen_key(pkcs8: Seq<Seq<u8>>, rsa: Seq<Seq<u8>>) -> Option<Seq<u8>> {
    if pkcs8.len() > 0 {
        Some(pkcs8[0])
    } else if rsa.len() > 0 {
        Some(rsa[0])
    } else {
        None
    }
}

/// The key of a PEM text: the one chosen among its keys where both kinds
/// read; `None` where either does not.
pub open spec fn pem_private_key(pem: Seq<u8>) -> Option<Seq<u8>> {
    match (pem_pkcs8_keys(pem), pem_rsa_keys(pem)) {
        (Some(pkcs8), Some(rsa)) => chosen_key(pkcs8, rsa),
        _ => None,
    }
}

/// Chooses the private key: the first PKCS#8 key where there is one, else the
/// first RSA key; `None` where there is no key at all.
pub fn choose_private_key(pkcs8: Vec<Vec<u8>>, rsa: Vec<Vec<u8>>) -> (r: Option<Vec<u8>>)
    ensures
        r is Some <==> chosen_key(vec_views(pkcs8@), vec_views(rsa@)) is Some,
        r matches Some(k) ==> k@ == chosen_key(vec_views(pkcs8@), vec_views(rsa@)).unwrap(),
{
    if pkcs8.len() > 0 {
        Some(copy_bytes(&pkcs8[0]))
    } else if rsa.len() > 0 {
        Some(copy_bytes(&rsa[0]))
    } else {
        None
    }
}

/// The certificates of a PEM text, in order; `None` where one of them is not
/// valid base64.
pub fn load_certs(pem: &[u8]) -> (r: Option<Vec<Vec<u8>>>)
    ensures
        r is Some <==> pem_certificates(pem@) is Some,
        r matches Some(v) ==> vec_views(v@) == pem_certificates(pem@).unwrap(),
{
    certificates_in(pem)
}

/// The private key of a PEM text: its first PKCS#8 key where it has one, else
/// its first RSA key; `None` where a key section is not valid base64 or there
/// is no key.
pub fn load_private_key(pem: &[u8]) -> (r: Option<Vec<u8>>)
    ensures
        r is Some <==> pem_private_key(pem@) is Some,
        r matches Some(k) ==> k@ == pem_private_key(pem@).unwrap(),
{
    let rsa = match rsa_keys_in(pem) {
        Some(v) => v,
        None => {
            return None;
        },
    };
    let pkcs8 = match pkcs8_keys_in(pem) {
        Some(v) => v,
        None => {
            return None;
        },
    };
    choose_private_key(pkcs8, rsa)
}

} // verus!
