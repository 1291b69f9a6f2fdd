//! Checking a signed-data triple against a SubjectPublicKeyInfo, with the
//! cryptographic verification delegated to the `ring` crate.
//!
//! The catalog of signature algorithms pairs a signature
//! AlgorithmIdentifier with the public-key AlgorithmIdentifier it
//! requires.  What the underlying cryptographic check returns is a
//! function of the algorithm and the bytes alone; it is given the name
//! [`spec_signature_verifies`] and nothing more is assumed of it.

use vstd::prelude::*;
use vstd::slice::slice_index_get;
use crate::Error;
use crate::cert::{SignedData, SignedDataView};
use crate::der::{
    Reader, bit_string_with_no_unused_bits, bytes_eq, expect_tag_and_get_value,
    spec_bit_string_with_no_unused_bits, spec_expect_tlv, TAG_SEQUENCE,
};

verus! {

/// A signature algorithm from the supported catalog: ECDSA over P-256 or
/// P-384 with SHA-256 or SHA-384, and RSA PKCS#1 v1.5 with keys of 2048
/// through 8192 bits (3072 minimum for the stricter SHA-384 variant).
#[derive(Clone, Copy, Debug, PartialEq, Eq, Structural)]
pub enum SignatureAlgorithm {
    /// ECDSA over P-256 with SHA-256.
    EcdsaP256Sha256,
    /// ECDSA over P-256 with SHA-384.
    EcdsaP256Sha384,
    /// ECDSA over P-384 with SHA-256.
    EcdsaP384Sha256,
    /// ECDSA over P-384 with SHA-384.
    EcdsaP384Sha384,
    /// RSA PKCS#1 v1.5 with SHA-1 and keys of 2048 through 8192 bits,
    /// for legacy interoperability.
    RsaPkcs1_2048_8192Sha1,
    /// RSA PKCS#1 v1.5 with SHA-256 and keys of 2048 through 8192 bits.
    RsaPkcs1_2048_8192Sha256,
    /// RSA PKCS#1 v1.5 with SHA-384 and keys of 2048 through 8192 bits.
    RsaPkcs1_2048_8192Sha384,
    /// RSA PKCS#1 v1.5 with SHA-512 and keys of 2048 through 8192 bits.
    RsaPkcs1_2048_8192Sha512,
    /// RSA PKCS#1 v1.5 with SHA-384 and keys of 3072 through 8192 bits.
    RsaPkcs1_3072_8192Sha384,
}

/// A distinct code for each catalog entry, so that the result of the
/// cryptographic check can be named over plain values.
pub open spec fn spec_alg_code(alg: SignatureAlgorithm) -> int {
    match alg {
        SignatureAlgorithm::EcdsaP256Sha256 => 0,
        SignatureAlgorithm::EcdsaP256Sha384 => 1,
        SignatureAlgorithm::EcdsaP384Sha256 => 2,
        SignatureAlgorithm::EcdsaP384Sha384 => 3,
        SignatureAlgorithm::RsaPkcs1_2048_8192Sha1 => 4,
        SignatureAlgorithm::RsaPkcs1_2048_8192Sha256 => 5,
        SignatureAlgorithm::RsaPkcs1_2048_8192Sha384 => 6,
        SignatureAlgorithm::RsaPkcs1_2048_8192Sha512 => 7,
        SignatureAlgorithm::RsaPkcs1_3072_8192Sha384 => 8,
    }
}

/// The contents of an ECDSA signature AlgorithmIdentifier: the
/// ecdsa-with-SHA2 OID, whose last arc byte is given.
pub open spec fn spec_ecdsa_sig_alg_id(last: u8) -> Seq<u8> {
    seq![0x06u8, 0x08, 0x2a, 0x86, 0x48, 0xce, 0x3d, 0x04, 0x03, last]
}

/// The contents of an RSA PKCS#1 signature AlgorithmIdentifier: the
/// shaNNNWithRSAEncryption OID, whose last arc byte is given, with the
/// NULL parameter.
pub open spec fn spec_rsa_sig_alg_id(last: u8) -> Seq<u8> {
    seq![0x06u8, 0x09, 0x2a, 0x86, 0x48, 0x86, 0xf7, 0x0d, 0x01, 0x01, last, 0x05, 0x00]
}

/// The contents of the id-ecPublicKey AlgorithmIdentifier with the P-256
/// named curve.
pub open spec fn spec_ec_p256_pk_alg_id() -> Seq<u8> {
    seq![
        0x06u8, 0x07, 0x2a, 0x86, 0x48, 0xce, 0x3d, 0x02, 0x01, 0x06, 0x08, 0x2a, 0x86, 0x48,
        0xce, 0x3d, 0x03, 0x01, 0x07,
    ]
}

/// The contents of the id-ecPublicKey AlgorithmIdentifier with the P-384
/// named curve.
pub open spec fn spec_ec_p384_pk_alg_id() -> Seq<u8> {
    seq![
        0x06u8, 0x07, 0x2a, 0x86, 0x48, 0xce, 0x3d, 0x02, 0x01, 0x06, 0x05, 0x2b, 0x81, 0x04,
        0x00, 0x22,
    ]
}

/// The contents of the rsaEncryption AlgorithmIdentifier with the NULL
/// parameter.
pub open spec fn spec_rsa_pk_alg_id() -> Seq<u8> {
    seq![0x06u8, 0x09, 0x2a, 0x86, 0x48, 0x86, 0xf7, 0x0d, 0x01, 0x01, 0x01, 0x05, 0x00]
}

/// The signature AlgorithmIdentifier contents that certificates using
/// `alg` must carry.
pub open spec fn spec_signature_alg_id(alg: SignatureAlgorithm) -> Seq<u8> {
    match alg {
        SignatureAlgorithm::EcdsaP256Sha256 => spec_ecdsa_sig_alg_id(0x02),
        SignatureAlgorithm::EcdsaP256Sha384 => spec_ecdsa_sig_alg_id(0x03),
        SignatureAlgorithm::EcdsaP384Sha256 => spec_ecdsa_sig_alg_id(0x02),
        SignatureAlgorithm::EcdsaP384Sha384 => spec_ecdsa_sig_alg_id(0x03),
        SignatureAlgorithm::RsaPkcs1_2048_8192Sha1 => spec_rsa_sig_alg_id(0x05),
        SignatureAlgorithm::RsaPkcs1_2048_8192Sha256 => spec_rsa_sig_alg_id(0x0b),
        SignatureAlgorithm::RsaPkcs1_2048_8192Sha384 => spec_rsa_sig_alg_id(0x0c),
        SignatureAlgorithm::RsaPkcs1_2048_8192Sha512 => spec_rsa_sig_alg_id(0x0d),
        SignatureAlgorithm::RsaPkcs1_3072_8192Sha384 => spec_rsa_sig_alg_id(0x0c),
    }
}

/// The public-key AlgorithmIdentifier contents that an SPKI must carry
/// for keys usable with `alg`.
pub open spec fn spec_public_key_alg_id(alg: SignatureAlgorithm) -> Seq<u8> {
    match alg {
        SignatureAlgorithm::EcdsaP256Sha256 => spec_ec_p256_pk_alg_id(),
        SignatureAlgorithm::EcdsaP256Sha384 => spec_ec_p256_pk_alg_id(),
        SignatureAlgorithm::EcdsaP384Sha256 => spec_ec_p384_pk_alg_id(),
        SignatureAlgorithm::EcdsaP384Sha384 => spec_ec_p384_pk_alg_id(),
        SignatureAlgorithm::RsaPkcs1_2048_8192Sha1 => spec_rsa_pk_alg_id(),
        SignatureAlgorithm::RsaPkcs1_2048_8192Sha256 => spec_rsa_pk_alg_id(),
        SignatureAlgorithm::RsaPkcs1_2048_8192Sha384 => spec_rsa_pk_alg_id(),
        SignatureAlgorithm::RsaPkcs1_2048_8192Sha512 => spec_rsa_pk_alg_id(),
        SignatureAlgorithm::RsaPkcs1_3072_8192Sha384 => spec_rsa_pk_alg_id(),
    }
}

fn ecdsa_sig_alg_id(last: u8) -> (r: Vec<u8>)
    ensures
        r@ == spec_ecdsa_sig_alg_id(last),
{
    let mut v: Vec<u8> = Vec::new();
    v.push(0x06);
    v.push(0x08);
    v.push(0x2a);
    v.push(0x86);
    v.push(0x48);
    v.push(0xce);
    v.push(0x3d);
    v.push(0x04);
    v.push(0x03);
    v.push(last);
    proof {
        assert(v@ =~= spec_ecdsa_sig_alg_id(last));
    }
    v
}

fn rsa_sig_alg_id(last: u8) -> (r: Vec<u8>)
    ensures
        r@ == spec_rsa_sig_alg_id(last),
{
    let mut v: Vec<u8> = Vec::new();
    v.push(0x06);
    v.push(0x09);
    v.push(0x2a);
    v.push(0x86);
    v.push(0x48);
    v.push(0x86);
    v.push(0xf7);
    v.push(0x0d);
    v.push(0x01);
    v.push(0x01);
    v.push(last);
    v.push(0x05);
    v.push(0x00);
    proof {
        assert(v@ =~= spec_rsa_sig_alg_id(last));
    }
    v
}

fn ec_pk_alg_id(p384: bool) -> (r: Vec<u8>)
    ensures
        !p384 ==> r@ == spec_ec_p256_pk_alg_id(),
        p384 ==> r@ == spec_ec_p384_pk_alg_id(),
{
    let mut v: Vec<u8> = Vec::new();
    v.push(0x06);
    v.push(0x07);
    v.push(0x2a);
    v.push(0x86);
    v.push(0x48);
    v.push(0xce);
    v.push(0x3d);
    v.push(0x02);
    v.push(0x01);
    v.push(0x06);
    if p384 {
        v.push(0x05);
        v.push(0x2b);
        v.push(0x81);
        v.push(0x04);
        v.push(0x00);
        v.push(0x22);
        proof {
            assert(v@ =~= spec_ec_p384_pk_alg_id());
        }
    } else {
        v.push(0x08);
        v.push(0x2a);
        v.push(0x86);
        v.push(0x48);
        v.push(0xce);
        v.push(0x3d);
        v.push(0x03);
        v.push(0x01);
        v.push(0x07);
        proof {
            assert(v@ =~= spec_ec_p256_pk_alg_id());
        }
    }
    v
}

fn rsa_pk_alg_id() -> (r: Vec<u8>)
    ensures
        r@ == spec_rsa_pk_alg_id(),
{
    let mut v: Vec<u8> = Vec::new();
    v.push(0x06);
    v.push(0x09);
    v.push(0x2a);
    v.push(0x86);
    v.push(0x48);
    v.push(0x86);
    v.push(0xf7);
    v.push(0x0d);
    v.push(0x01);
    v.push(0x01);
    v.push(0x01);
    v.push(0x05);
    v.push(0x00);
    proof {
        assert(v@ =~= spec_rsa_pk_alg_id());
    }
    v
}

/// Whether `bytes` is the signature AlgorithmIdentifier of `alg`.
fn signature_alg_id_matches(alg: SignatureAlgorithm, bytes: &[u8]) -> (r: bool)
    ensures
        r == (bytes@ == spec_signature_alg_id(alg)),
{
    let id: Vec<u8> = match alg {
        SignatureAlgorithm::EcdsaP256Sha256 => ecdsa_sig_alg_id(0x02),
        SignatureAlgorithm::EcdsaP256Sha384 => ecdsa_sig_alg_id(0x03),
        SignatureAlgorithm::EcdsaP384Sha256 => ecdsa_sig_alg_id(0x02),
        SignatureAlgorithm::EcdsaP384Sha384 => ecdsa_sig_alg_id(0x03),
        SignatureAlgorithm::RsaPkcs1_2048_8192Sha1 => rsa_sig_alg_id(0x05),
        SignatureAlgorithm::RsaPkcs1_2048_8192Sha256 => rsa_sig_alg_id(0x0b),
        SignatureAlgorithm::RsaPkcs1_2048_8192Sha384 => rsa_sig_alg_id(0x0c),
        SignatureAlgorithm::RsaPkcs1_2048_8192Sha512 => rsa_sig_alg_id(0x0d),
        SignatureAlgorithm::RsaPkcs1_3072_8192Sha384 => rsa_sig_alg_id(0x0c),
    };
    bytes_eq(bytes, id.as_slice())
}

/// Whether `bytes` is the public-key AlgorithmIdentifier of `alg`.
fn public_key_alg_id_matches(alg: SignatureAlgorithm, bytes: &[u8]) -> (r: bool)
    ensures
        r == (bytes@ == spec_public_key_alg_id(alg)),
{
    let id: Vec<u8> = match alg {
        SignatureAlgorithm::EcdsaP256Sha256 => ec_pk_alg_id(false),
        SignatureAlgorithm::EcdsaP256Sha384 => ec_pk_alg_id(false),
        SignatureAlgorithm::EcdsaP384Sha256 => ec_pk_alg_id(true),
        SignatureAlgorithm::EcdsaP384Sha384 => ec_pk_alg_id(true),
        SignatureAlgorithm::RsaPkcs1_2048_8192Sha1 => rsa_pk_alg_id(),
        SignatureAlgorithm::RsaPkcs1_2048_8192Sha256 => rsa_pk_alg_id(),
        SignatureAlgorithm::RsaPkcs1_2048_8192Sha384 => rsa_pk_alg_id(),
        SignatureAlgorithm::RsaPkcs1_2048_8192Sha512 => rsa_pk_alg_id(),
        SignatureAlgorithm::RsaPkcs1_3072_8192Sha384 => rsa_pk_alg_id(),
    };
    bytes_eq(bytes, id.as_slice())
}

/// Whether the cryptographic check of `ring` accepts `signature` as a
/// signature of `message` under the key `spk` with the algorithm whose
/// [`spec_alg_code`] is `alg_code`.  The result depends on these values
/// alone.
pub uninterp spec fn spec_signature_verifies(
    alg_code: int,
    spk: Seq<u8>,
    message: Seq<u8>,
    signature: Seq<u8>,
) -> bool;

/// Relies on `ring::signature::UnparsedPublicKey::verify`: whether the
/// signature checks is a deterministic function of the algorithm, the
/// public key bytes, the message, and the signature.
#[verifier::external_body]
fn ring_verify(alg: SignatureAlgorithm, spk: &[u8], message: &[u8], signature: &[u8]) -> (r: bool)
    ensures
        r == spec_signature_verifies(spec_alg_code(alg), spk@, message@, signature@),
{
    let valg: &'static dyn ring::signature::VerificationAlgorithm = match alg {
        SignatureAlgorithm::EcdsaP256Sha256 => &ring::signature::ECDSA_P256_SHA256_ASN1,
        SignatureAlgorithm::EcdsaP256Sha384 => &ring::signature::ECDSA_P256_SHA384_ASN1,
        SignatureAlgorithm::EcdsaP384Sha256 => &ring::signature::ECDSA_P384_SHA256_ASN1,
        SignatureAlgorithm::EcdsaP384Sha384 => &ring::signature::ECDSA_P384_SHA384_ASN1,
        SignatureAlgorithm::RsaPkcs1_2048_8192Sha1 => &ring::signature::RSA_PKCS1_2048_8192_SHA1_FOR_LEGACY_USE_ONLY,
        SignatureAlgorithm::RsaPkcs1_2048_8192Sha256 => &ring::signature::RSA_PKCS1_2048_8192_SHA256,
        SignatureAlgorithm::RsaPkcs1_2048_8192Sha384 => &ring::signature::RSA_PKCS1_2048_8192_SHA384,
        SignatureAlgorithm::RsaPkcs1_2048_8192Sha512 => &ring::signature::RSA_PKCS1_2048_8192_SHA512,
        SignatureAlgorithm::RsaPkcs1_3072_8192Sha384 => &ring::signature::RSA_PKCS1_3072_8192_SHA384,
    };
    ring::signature::UnparsedPublicKey::new(valg, spk).verify(message, signature).is_ok()
}

/// The algorithm and key of the SubjectPublicKeyInfo contents `v`: the
/// AlgorithmIdentifier contents and the subjectPublicKey bits, which
/// must fill `v` exactly.
pub open spec fn spec_parse_spki(v: Seq<u8>) -> Result<(Seq<u8>, Seq<u8>), Error> {
    match spec_expect_tlv(v, 0, TAG_SEQUENCE) {
        None => Err(Error::BadDER),
        Some((als, ale)) => match spec_bit_string_with_no_unused_bits(v, ale) {
            Err(e) => Err(e),
            Ok(((bs, be), np)) => if np != v.len() {
                Err(Error::BadDER)
            } else {
                Ok((v.subrange(als, ale), v.subrange(bs, be)))
            },
        },
    }
}

fn parse_spki_value<'a>(v: &'a [u8]) -> (r: Result<(&'a [u8], &'a [u8]), Error>)
    ensures
        match spec_parse_spki(v@) {
            Ok(m) => {
                &&& r matches Ok(p)
                &&& p.0@ == m.0
                &&& p.1@ == m.1
            },
            Err(e) => r matches Err(a) && a == e,
        },
{
    let mut rd = Reader::new(v);
    let algorithm = match expect_tag_and_get_value(&mut rd, TAG_SEQUENCE) {
        Ok(val) => val,
        Err(e) => { return Err(e); },
    };
    let key = match bit_string_with_no_unused_bits(&mut rd) {
        Ok(val) => val,
        Err(e) => { return Err(e); },
    };
    if !rd.at_end() {
        return Err(Error::BadDER);
    }
    Ok((algorithm, key))
}

/// The outcome of trying the supported algorithms from index `i` on: the
/// first entry whose signature AlgorithmIdentifier matches decides
/// whether the SPKI parses; the first entry that also matches the SPKI's
/// algorithm is handed to the cryptographic check; running out of
/// entries is `UnsupportedSignatureAlgorithmForPublicKey` when some
/// entry matched the signature algorithm and
/// `UnsupportedSignatureAlgorithm` otherwise.
pub open spec fn spec_vsd_loop(
    supported: Seq<SignatureAlgorithm>,
    i: int,
    found_sig: bool,
    spki: Seq<u8>,
    sd: SignedDataView,
) -> Result<(), Error>
    decreases supported.len() - i,
{
    if i < 0 || i >= supported.len() {
        if found_sig {
            Err(Error::UnsupportedSignatureAlgorithmForPublicKey)
        } else {
            Err(Error::UnsupportedSignatureAlgorithm)
        }
    } else {
        let alg = supported[i];
        if sd.algorithm == spec_signature_alg_id(alg) {
            match spec_parse_spki(spki) {
                Err(e) => Err(e),
                Ok((spki_alg, key)) => if spki_alg == spec_public_key_alg_id(alg) {
                    if spec_signature_verifies(spec_alg_code(alg), key, sd.data, sd.signature) {
                        Ok(())
                    } else {
                        Err(Error::InvalidSignatureForPublicKey)
                    }
                } else {
                    spec_vsd_loop(supported, i + 1, true, spki, sd)
                },
            }
        } else {
            spec_vsd_loop(supported, i + 1, found_sig, spki, sd)
        }
    }
}

/// The outcome of checking the signed-data triple `sd` under the
/// SubjectPublicKeyInfo contents `spki` with the supported algorithms.
pub open spec fn spec_verify_signed_data(
    supported: Seq<SignatureAlgorithm>,
    spki: Seq<u8>,
    sd: SignedDataView,
) -> Result<(), Error> {
    spec_vsd_loop(supported, 0, false, spki, sd)
}

/// Verifies the signature of a signed-data triple under the given
/// SubjectPublicKeyInfo contents, per [`spec_verify_signed_data`].
pub fn verify_signed_data(
    supported_sig_algs: &[SignatureAlgorithm],
    spki_value: &[u8],
    signed_data: &SignedData,
) -> (r: Result<(), Error>)
    ensures
        r == spec_verify_signed_data(supported_sig_algs@, spki_value@, signed_data@),
{
    let spki_parse = parse_spki_value(spki_value);
    let n: usize = supported_sig_algs.len();
    let mut i: usize = 0;
    let mut found_sig: bool = false;
    while i < n
        invariant
            0 <= i <= n,
            n == supported_sig_algs@.len(),
            spec_vsd_loop(supported_sig_algs@, 0, false, spki_value@, signed_data@)
                == spec_vsd_loop(supported_sig_algs@, i as int, found_sig, spki_value@, signed_data@),
            match spec_parse_spki(spki_value@) {
                Ok(m) => {
                    &&& spki_parse matches Ok(p)
                    &&& p.0@ == m.0
                    &&& p.1@ == m.1
                },
                Err(e) => spki_parse matches Err(a) && a == e,
            },
        decreases n - i,
    {
        let alg: SignatureAlgorithm = *slice_index_get(supported_sig_algs, i);
        if signature_alg_id_matches(alg, signed_data.algorithm) {
            match &spki_parse {
                Err(e) => { return Err(*e); },
                Ok((spki_alg, key)) => {
                    if public_key_alg_id_matches(alg, spki_alg) {
                        if ring_verify(alg, key, signed_data.data, signed_data.signature) {
                            return Ok(());
                        } else {
                            return Err(Error::InvalidSignatureForPublicKey);
                        }
                    } else {
                        found_sig = true;
                    }
                },
            }
        }
        i = i + 1;
    }
    if found_sig {
        Err(Error::UnsupportedSignatureAlgorithmForPublicKey)
    } else {
        Err(Error::UnsupportedSignatureAlgorithm)
    }
}

/// The outcome of checking `signature` over `msg` with `alg` under the
/// SubjectPublicKeyInfo contents `spki`: the SPKI's algorithm must be
/// the one `alg` requires, and the cryptographic check must accept.
pub open spec fn spec_verify_signature(
    alg: SignatureAlgorithm,
    spki: Seq<u8>,
    msg: Seq<u8>,
    signature: Seq<u8>,
) -> Result<(), Error> {
    match spec_parse_spki(spki) {
        Err(e) => Err(e),
        Ok((spki_alg, key)) => if spki_alg != spec_public_key_alg_id(alg) {
            Err(Error::UnsupportedSignatureAlgorithmForPublicKey)
        } else {
            if spec_signature_verifies(spec_alg_code(alg), key, msg, signature) {
                Ok(())
            } else {
                Err(Error::InvalidSignatureForPublicKey)
            }
        },
    }
}

/// Verifies a raw signature over a message under the given
/// SubjectPublicKeyInfo contents, per [`spec_verify_signature`].
pub fn verify_signature(
    signature_alg: &SignatureAlgorithm,
    spki_value: &[u8],
    msg: &[u8],
    signature: &[u8],
) -> (r: Result<(), Error>)
    ensures
        r == spec_verify_signature(*signature_alg, spki_value@, msg@, signature@),
{
    let (spki_alg, key) = match parse_spki_value(spki_value) {
        Ok(p) => p,
        Err(e) => { return Err(e); },
    };
    if !public_key_alg_id_matches(*signature_alg, spki_alg) {
        return Err(Error::UnsupportedSignatureAlgorithmForPublicKey);
    }
    if ring_verify(*signature_alg, key, msg, signature) {
        Ok(())
    } else {
        Err(Error::InvalidSignatureForPublicKey)
    }
}

} // verus!
