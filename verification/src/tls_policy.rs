//! The peer-certificate acceptance policy.
//!
//! The server demands a client certificate. When ordinary chain validation
//! fails, a self-signed certificate is still accepted, provided its issuer
//! equals its subject, its signature verifies against its own public key, and
//! the current time lies inside its validity window. The decision is a pure
//! predicate over facts read off the certificate, so the TLS layer only has
//! to gather those facts and call [`verify_peer`].

use vstd::prelude::*;

use crate::text::{digit_str, hex_of};

verus! {

/// What the acceptance policy reads off a presented certificate. Each
/// `Option` is `None` when the corresponding datum could not be obtained
/// (a DER encoding failure, or no usable clock for the validity window).
pub struct CertificateInfo {
    /// DER encoding of the issuer distinguished name.
    pub issuer_der: Option<Vec<u8>>,
    /// DER encoding of the subject distinguished name.
    pub subject_der: Option<Vec<u8>>,
    /// Whether the certificate's signature verifies against its own
    /// embedded public key.
    pub self_signature_valid: bool,
    /// Whether the current time falls within the certificate's validity
    /// window; `None` when the current time could not be obtained.
    pub within_validity: Option<bool>,
}

/// The self-signed acceptance condition: issuer and subject names are both
/// available and byte-identical, the self-signature verifies, and the current
/// time is known to lie inside the validity window.
pub open spec fn self_signed_acceptable(c: CertificateInfo) -> bool {
    &&& c.issuer_der is Some
    &&& c.subject_der is Some
    &&& c.issuer_der->0@ == c.subject_der->0@
    &&& c.self_signature_valid
    &&& c.within_validity == Some(true)
}

/// Byte-for-byte equality of two byte vectors.
fn bytes_eq(a: &Vec<u8>, b: &Vec<u8>) -> (r: bool)
    ensures
        r == (a@ == b@),
{
    if a.len() != b.len() {
        return false;
    }
    let n = a.len();
    let mut i: usize = 0;
    while i < n
        invariant
            n == a.len() == b.len(),
            0 <= i <= n,
            forall|j: int| 0 <= j < i ==> a@[j] == b@[j],
        decreases n - i,
    {
        if a[i] != b[i] {
            return false;
        }
        i += 1;
    }
    proof {
        assert(a@ =~= b@);
    }
    true
}

/// The peer-verification decision: a certificate that passed ordinary chain
/// validation is always accepted; otherwise only a self-signed certificate
/// meeting every condition of [`self_signed_acceptable`] is. With no
/// certificate at hand, the handshake is rejected.
pub fn verify_peer(preverify_ok: bool, cert: Option<&CertificateInfo>) -> (r: bool)
    ensures
        r == (preverify_ok || (cert matches Some(c) && self_signed_acceptable(*c))),
{
    if preverify_ok {
        return true;
    }
    let c = match cert {
        Some(c) => c,
        None => {
            return false;
        },
    };
    let issuer = match &c.issuer_der {
        Some(v) => v,
        None => {
            return false;
        },
    };
    let subject = match &c.subject_der {
        Some(v) => v,
        None => {
            return false;
        },
    };
    if !bytes_eq(issuer, subject) {
        return false;
    }
    if !c.self_signature_valid {
        return false;
    }
    match c.within_validity {
        Some(true) => true,
        _ => false,
    }
}

/// The lowercase hexadecimal fingerprint string for a certificate digest,
/// two digits per byte, used to correlate log lines with peers.
pub fn fingerprint_hex(digest: &Vec<u8>) -> (s: String)
    ensures
        s@ == hex_of(digest@),
{
    let mut s = String::new();
    let n = digest.len();
    let mut i: usize = 0;
    while i < n
        invariant
            n == digest.len(),
            0 <= i <= n,
            s@ == hex_of(digest@.take(i as int)),
        decreases n - i,
    {
        let b = digest[i];
        s.append(digit_str(b / 16));
        s.append(digit_str(b % 16));
        proof {
            let t = digest@.take(i + 1);
            assert(t.drop_last() =~= digest@.take(i as int));
            assert(t.last() == digest@[i as int]);
            assert(s@ =~= hex_of(t));
        }
        i += 1;
    }
    proof {
        assert(digest@.take(n as int) =~= digest@);
    }
    s
}

/// Violating any single condition of the self-signed policy causes
/// rejection, and meeting all of them together is exactly acceptance.
pub proof fn lemma_self_signed_single_condition(c: CertificateInfo)
    ensures
        !(c.issuer_der is Some && c.subject_der is Some && c.issuer_der->0@ == c.subject_der->0@)
            ==> !self_signed_acceptable(c),
        !c.self_signature_valid ==> !self_signed_acceptable(c),
        c.within_validity != Some(true) ==> !self_signed_acceptable(c),
        (c.issuer_der is Some && c.subject_der is Some && c.issuer_der->0@ == c.subject_der->0@
            && c.self_signature_valid && c.within_validity == Some(true))
            ==> self_signed_acceptable(c),
{
}

} // verus!
