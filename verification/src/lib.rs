//! Web PKI X.509 certificate validation for TLS servers.
//!
//! Untrusted DER-encoded certificate bytes are parsed into a [`cert::Cert`]
//! whose retained fields are sub-slices of the input.  An
//! [`EndEntityCert`] exposes three operations: verifying that a
//! certificate chains to a trust anchor, that it is valid for a DNS name,
//! and that a signature was made by its key.

use vstd::prelude::*;

pub mod der;
pub mod time;
pub mod cert;
pub mod signed_data;
pub mod name;
pub mod verify_cert;

verus! {

/// An error that occurs during certificate validation or name validation.
#[derive(Clone, Copy, Debug, PartialEq, Eq, Structural)]
pub enum Error {
    /// The encoding of some ASN.1 DER-encoded item is invalid.
    BadDER,
    /// The encoding of an ASN.1 DER-encoded time is invalid.
    BadDERTime,
    /// A CA certificate is being used as an end-entity certificate.
    CAUsedAsEndEntity,
    /// The time of validation is later than the certificate's notAfter time.
    CertExpired,
    /// The certificate is not valid for the name it is being validated for.
    CertNotValidForName,
    /// The time of validation is earlier than the certificate's notBefore time.
    CertNotValidYet,
    /// An end-entity certificate is being used as a CA certificate.
    EndEntityUsedAsCA,
    /// An X.509 extension is invalid.
    ExtensionValueInvalid,
    /// The certificate validity period (notBefore, notAfter) is invalid.
    InvalidCertValidity,
    /// The name that a certificate is being validated for is malformed.
    InvalidReferenceName,
    /// The signature is invalid for the given public key.
    InvalidSignatureForPublicKey,
    /// The certificate violates one or more name constraints.
    NameConstraintViolation,
    /// The certificate violates one or more path length constraints.
    PathLenConstraintViolated,
    /// The algorithm in the TBSCertificate "signature" field of a certificate
    /// does not match the algorithm in the signature of the certificate.
    SignatureAlgorithmMismatch,
    /// The certificate is not valid for the Extended Key Usage for which it
    /// is being validated.
    RequiredEKUNotFound,
    /// A valid issuer for the certificate could not be found.
    UnknownIssuer,
    /// The certificate is not a v3 X.509 certificate.
    UnsupportedCertVersion,
    /// The certificate contains an unsupported critical extension.
    UnsupportedCriticalExtension,
    /// The signature's algorithm does not match the algorithm of the public
    /// key it is being validated for.
    UnsupportedSignatureAlgorithmForPublicKey,
    /// The signature algorithm for a signature is not in the set of
    /// supported signature algorithms given.
    UnsupportedSignatureAlgorithm,
}

/// An end-entity certificate, parsed from caller-owned DER bytes.
///
/// Server certificate processing for a TLS connection consists of
/// several steps, all necessary: verifying that the certificate chains
/// to a trust anchor ([`EndEntityCert::verify_is_valid_tls_server_cert`]),
/// that it is valid for the host being connected to
/// ([`EndEntityCert::verify_is_valid_for_dns_name`]), and that a
/// signature was made by its key ([`EndEntityCert::verify_signature`]).
pub struct EndEntityCert<'a> {
    inner: cert::Cert<'a>,
}

impl<'a> View for EndEntityCert<'a> {
    type V = cert::CertView;

    closed spec fn view(&self) -> cert::CertView {
        self.inner@
    }
}

impl<'a> EndEntityCert<'a> {
    /// The certificate holds its place at the bottom of a chain.
    pub closed spec fn wf(&self) -> bool {
        self.inner.ee_or_ca matches cert::EndEntityOrCA::EndEntity
    }

    /// Parses the ASN.1 DER-encoded X.509 encoding of the certificate
    /// `cert_der`.  The result is exactly [`cert::spec_parse_cert`] of
    /// the input bytes.
    pub fn from(cert_der: &'a [u8]) -> (r: Result<EndEntityCert<'a>, Error>)
        ensures
            match cert::spec_parse_cert(cert_der@) {
                Ok(m) => r matches Ok(c) && c@ == m && c.wf(),
                Err(e) => r matches Err(a) && a == e,
            },
    {
        match cert::parse_cert(cert_der, cert::EndEntityOrCA::EndEntity) {
            Ok(inner) => Ok(EndEntityCert { inner }),
            Err(e) => Err(e),
        }
    }

    /// Verifies that the end-entity certificate is valid for use by a
    /// TLS server: it chains up to one of `trust_anchors` through
    /// `intermediate_certs`, is within its validity period at `time`,
    /// and satisfies the Basic Constraints and serverAuth
    /// extended-key-usage rules at every hop.  The result is exactly
    /// [`verify_cert::spec_build_chain`] of the inputs, started at this
    /// certificate with no sub-CAs accumulated.
    pub fn verify_is_valid_tls_server_cert(
        &self,
        supported_sig_algs: &[signed_data::SignatureAlgorithm],
        trust_anchors: &[TrustAnchor],
        intermediate_certs: &[&'a [u8]],
        time: time::Time,
    ) -> (r: Result<(), Error>)
        requires
            self.wf(),
        ensures
            r matches Ok(u) ==> verify_cert::spec_check_issuer_independent_properties(
                self@,
                time.0 as int,
                false,
                0,
                verify_cert::spec_eku_server_auth(),
            ) matches Ok(u2),
            r matches Ok(u) ==> verify_cert::spec_some_verified_chain(
                supported_sig_algs@,
                verify_cert::anchor_spkis(trust_anchors@),
                seq![self@],
            ),
            r == verify_cert::spec_build_chain(
                verify_cert::spec_eku_server_auth(),
                supported_sig_algs@,
                trust_anchors@,
                verify_cert::ders_view(intermediate_certs@),
                seq![self@],
                false,
                0,
                time.0 as int,
            ),
    {
        let eku = verify_cert::eku_server_auth();
        verify_cert::build_chain(
            &eku,
            supported_sig_algs,
            trust_anchors,
            intermediate_certs,
            &self.inner,
            time,
            0,
        )
    }

    /// Verifies that the certificate is valid for the given DNS host
    /// name, per [`name::spec_verify_cert_dns_name`].  `dns_name` is
    /// assumed to be normalized ASCII (punycode if non-ASCII).
    pub fn verify_is_valid_for_dns_name(&self, dns_name: &[u8]) -> (r: Result<(), Error>)
        ensures
            r == name::spec_verify_cert_dns_name(self@, dns_name@),
    {
        name::verify_cert_dns_name(&self.inner, dns_name)
    }

    /// Verifies the signature `signature` of message `msg` using the
    /// certificate's public key, per
    /// [`signed_data::spec_verify_signature`].
    pub fn verify_signature(
        &self,
        signature_alg: &signed_data::SignatureAlgorithm,
        msg: &[u8],
        signature: &[u8],
    ) -> (r: Result<(), Error>)
        ensures
            r == signed_data::spec_verify_signature(*signature_alg, self@.spki, msg@, signature@),
    {
        signed_data::verify_signature(signature_alg, self.inner.spki, msg, signature)
    }
}

/// A trust anchor (a.k.a. root CA), distilled to the essential elements:
/// the contents of its `subject` field, the contents of its
/// `subjectPublicKeyInfo` field, and optionally the contents of a
/// `NameConstraints` extension to apply.
pub struct TrustAnchor<'a> {
    /// The value of the `subject` field of the trust anchor.
    pub subject: &'a [u8],
    /// The value of the `subjectPublicKeyInfo` field of the trust anchor.
    pub spki: &'a [u8],
    /// The contents of a DER-encoded NameConstraints to apply to the
    /// trust anchor, if any: its permitted and excluded subtree fields
    /// without the enclosing SEQUENCE header.
    pub name_constraints: Option<&'a [u8]>,
}

} // verus!
