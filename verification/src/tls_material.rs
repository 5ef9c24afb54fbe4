//! Which TLS certificate the bridge serves.
//!
//! A pair of files on disk wins over the pair inside the binary, so that a
//! renewal is "drop two files and restart". The pair inside the binary is the
//! safety net: a truncated download, a half-written file or a swapped pair must
//! never take printing offline, so the files are parsed before they are trusted.

use vstd::prelude::*;

verus! {

/// Resolved TLS material plus where it came from.
#[derive(Debug)]
pub struct TlsMaterial {
    pub cert: Vec<u8>,
    pub key: Vec<u8>,
    /// `"disk"` or `"embedded"`.
    pub source: &'static str,
}

/// How many certificates the PEM sections of a file hold, or `None` where one of
/// its sections cannot be read.
pub uninterp spec fn pem_certificates(pem: Seq<u8>) -> Option<nat>;

/// The PEM sections of a file hold a private key, and those before it can be
/// read.
pub uninterp spec fn pem_private_key(pem: Seq<u8>) -> bool;

/// `rustls_pemfile::certs` over the bytes, collected.
///
/// Claims that the outcome depends on the bytes alone.
#[verifier::external_body]
fn count_certificates(pem: &Vec<u8>) -> (r: Option<usize>)
    ensures
        match r {
            Some(n) => pem_certificates(pem@) == Some(n as nat),
            None => pem_certificates(pem@) is None,
        },
{
    let mut reader = pem.as_slice();
    rustls_pemfile::certs(&mut reader).collect::<Result<Vec<_>, _>>().ok().map(|chain| chain.len())
}

/// `rustls_pemfile::private_key` over the bytes.
///
/// Claims that the outcome depends on the bytes alone.
#[verifier::external_body]
fn has_private_key(pem: &Vec<u8>) -> (r: bool)
    ensures
        r == pem_private_key(pem@),
{
    let mut reader = pem.as_slice();
    matches!(rustls_pemfile::private_key(&mut reader), Ok(Some(_)))
}

/// A chain of at least one certificate, and a private key.
pub open spec fn usable(certificates: Option<nat>, key: bool) -> bool {
    certificates is Some && certificates->Some_0 > 0 && key
}

/// Does this pair parse as a certificate chain and a private key?
///
/// Catches an empty file, an error page saved as a certificate, a swapped pair
/// and a truncated download.
pub fn pem_pair_parses(cert: &Vec<u8>, key: &Vec<u8>) -> (r: bool)
    ensures
        r == usable(pem_certificates(cert@), pem_private_key(key@)),
{
    let chain_ok: bool = match count_certificates(cert) {
        Some(n) => n > 0,
        None => false,
    };
    let key_ok: bool = has_private_key(key);
    chain_ok && key_ok
}

/// The two files of an override, each as far as it could be read.
#[derive(Debug)]
pub struct Override {
    pub cert: Option<Vec<u8>>,
    pub key: Option<Vec<u8>>,
}

/// Both halves of an override could be read, and `parses` says that they are
/// usable.
pub open spec fn override_wins(found: Option<Override>, parses: spec_fn(Seq<u8>, Seq<u8>) -> bool) -> bool {
    match found {
        Some(o) => match (o.cert, o.key) {
            (Some(cert), Some(key)) => parses(cert@, key@),
            _ => false,
        },
        None => false,
    }
}

/// The material to serve, where `wins` says whether the override is used.
pub open spec fn is_material(
    m: TlsMaterial,
    wins: bool,
    found: Option<Override>,
    embedded_cert: Seq<u8>,
    embedded_key: Seq<u8>,
) -> bool {
    if wins {
        &&& m.cert@ == (found->Some_0.cert)->Some_0@
        &&& m.key@ == (found->Some_0.key)->Some_0@
        &&& m.source@ == "disk"@
    } else {
        &&& m.cert@ == embedded_cert
        &&& m.key@ == embedded_key
        &&& m.source@ == "embedded"@
    }
}

fn embedded(embedded_cert: &Vec<u8>, embedded_key: &Vec<u8>) -> (r: TlsMaterial)
    ensures
        r.cert@ == embedded_cert@,
        r.key@ == embedded_key@,
        r.source@ == "embedded"@,
{
    TlsMaterial { cert: embedded_cert.clone(), key: embedded_key.clone(), source: "embedded" }
}

/// The material to serve, once it is known whether a pair on disk is usable.
pub fn select(
    embedded_cert: &Vec<u8>,
    embedded_key: &Vec<u8>,
    found: Option<Override>,
    parses: bool,
) -> (r: TlsMaterial)
    ensures
        is_material(
            r,
            override_wins(found, |c: Seq<u8>, k: Seq<u8>| parses),
            found,
            embedded_cert@,
            embedded_key@,
        ),
{
    match found {
        Some(o) => match (o.cert, o.key) {
            (Some(cert), Some(key)) => {
                if parses {
                    TlsMaterial { cert, key, source: "disk" }
                } else {
                    embedded(embedded_cert, embedded_key)
                }
            },
            _ => embedded(embedded_cert, embedded_key),
        },
        None => embedded(embedded_cert, embedded_key),
    }
}

/// The TLS material to serve: the pair found on disk when both files could be
/// read and parse, otherwise the embedded one. `found` is `None` where there is
/// no folder to look in, or neither file is there.
pub fn resolve(
    embedded_cert: &Vec<u8>,
    embedded_key: &Vec<u8>,
    found: Option<Override>,
) -> (r: TlsMaterial)
    ensures
        is_material(
            r,
            override_wins(
                found,
                |c: Seq<u8>, k: Seq<u8>| usable(pem_certificates(c), pem_private_key(k)),
            ),
            found,
            embedded_cert@,
            embedded_key@,
        ),
{
    let parses: bool = match &found {
        Some(o) => match (&o.cert, &o.key) {
            (Some(cert), Some(key)) => pem_pair_parses(cert, key),
            _ => false,
        },
        None => false,
    };
    select(embedded_cert, embedded_key, found, parses)
}

// ── Laws ────────────────────────────────────────────────────────────────

/// Half a pair is never served: where one of the two files is missing, the
/// material is the embedded one, whatever the other file holds.
pub proof fn law_half_a_pair_is_ignored(
    m: TlsMaterial,
    found: Option<Override>,
    parses: spec_fn(Seq<u8>, Seq<u8>) -> bool,
    embedded_cert: Seq<u8>,
    embedded_key: Seq<u8>,
)
    requires
        is_material(m, override_wins(found, parses), found, embedded_cert, embedded_key),
        found matches Some(o) ==> o.cert is None || o.key is None,
    ensures
        m.source@ == "embedded"@,
        m.cert@ == embedded_cert,
        m.key@ == embedded_key,
{
}

/// The certificate and the key that are served always come from the same place.
pub proof fn law_a_pair_is_never_mixed(
    m: TlsMaterial,
    found: Option<Override>,
    parses: spec_fn(Seq<u8>, Seq<u8>) -> bool,
    embedded_cert: Seq<u8>,
    embedded_key: Seq<u8>,
)
    requires
        is_material(m, override_wins(found, parses), found, embedded_cert, embedded_key),
    ensures
        (m.cert@ == embedded_cert && m.key@ == embedded_key) || (found matches Some(o)
            && o.cert is Some && o.key is Some && m.cert@ == o.cert->Some_0@ && m.key@
            == o.key->Some_0@ && parses(m.cert@, m.key@)),
{
}

/// A pair on disk that can be read and parses is served, the certificate as the
/// certificate and the key as the key; and where it does not parse, or there is
/// none, what is served is the embedded pair.
pub proof fn law_a_usable_pair_is_served(
    m: TlsMaterial,
    found: Option<Override>,
    parses: spec_fn(Seq<u8>, Seq<u8>) -> bool,
    embedded_cert: Seq<u8>,
    embedded_key: Seq<u8>,
)
    requires
        is_material(m, override_wins(found, parses), found, embedded_cert, embedded_key),
    ensures
        found is None ==> m.cert@ == embedded_cert && m.key@ == embedded_key && m.source@
            == "embedded"@,
        found matches Some(o) ==> match (o.cert, o.key) {
            (Some(cert), Some(key)) => if parses(cert@, key@) {
                m.cert@ == cert@ && m.key@ == key@ && m.source@ == "disk"@
            } else {
                m.cert@ == embedded_cert && m.key@ == embedded_key && m.source@ == "embedded"@
            },
            _ => m.cert@ == embedded_cert && m.key@ == embedded_key && m.source@ == "embedded"@,
        },
{
}

/// A pair is usable exactly where it has a certificate and a key.
pub proof fn law_a_usable_pair_has_both(certificates: Option<nat>, key: bool)
    ensures
        usable(certificates, key) ==> key && certificates is Some,
        key && (certificates matches Some(n) && n >= 1) ==> usable(certificates, key),
        !usable(None, key) && !usable(Some(0), key) && !usable(certificates, false),
{
}

} // verus!
