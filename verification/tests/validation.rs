use ring::rand::SystemRandom;
use ring::signature::{EcdsaKeyPair, KeyPair, ECDSA_P256_SHA256_ASN1_SIGNING};

use webpki::{EndEntityCert, Error, TrustAnchor};
use webpki::cert::{parse_cert, EndEntityOrCA};
use webpki::name::check_name_constraints;
use webpki::signed_data::{verify_signed_data, SignatureAlgorithm};
use webpki::time::{time_from_ymdhms_utc, Time};
use webpki::verify_cert::{
    build_chain, check_basic_constraints, eku_ocsp_signing, loop_while_non_fatal_error,
    used_as_ca, UsedAsCA,
};

// ---- DER building helpers ----

fn tlv(tag: u8, content: &[u8]) -> Vec<u8> {
    let mut v = vec![tag];
    let n = content.len();
    if n < 128 {
        v.push(n as u8);
    } else if n < 256 {
        v.push(0x81);
        v.push(n as u8);
    } else {
        v.push(0x82);
        v.push((n >> 8) as u8);
        v.push((n & 0xff) as u8);
    }
    v.extend_from_slice(content);
    v
}

fn der_seq(content: &[u8]) -> Vec<u8> {
    tlv(0x30, content)
}

fn concat(parts: &[&[u8]]) -> Vec<u8> {
    let mut v = Vec::new();
    for p in parts {
        v.extend_from_slice(p);
    }
    v
}

/// The contents of a Name holding one common-name attribute.
fn name_contents(cn: &[u8]) -> Vec<u8> {
    let attr = der_seq(&concat(&[&tlv(0x06, &[0x55, 0x04, 0x03]), &tlv(0x13, cn)]));
    tlv(0x31, &attr)
}

fn name_el(cn: &[u8]) -> Vec<u8> {
    der_seq(&name_contents(cn))
}

fn utc(s: &str) -> Vec<u8> {
    tlv(0x17, s.as_bytes())
}

fn validity_el(nb: &str, na: &str) -> Vec<u8> {
    der_seq(&concat(&[&utc(nb), &utc(na)]))
}

const EC_P256_ALG_ID: &[u8] = &[
    0x06, 0x07, 0x2a, 0x86, 0x48, 0xce, 0x3d, 0x02, 0x01, 0x06, 0x08, 0x2a, 0x86, 0x48, 0xce,
    0x3d, 0x03, 0x01, 0x07,
];
const ECDSA_SHA256_SIG_ALG: &[u8] = &[0x06, 0x08, 0x2a, 0x86, 0x48, 0xce, 0x3d, 0x04, 0x03, 0x02];
const ECDSA_SHA384_SIG_ALG: &[u8] = &[0x06, 0x08, 0x2a, 0x86, 0x48, 0xce, 0x3d, 0x04, 0x03, 0x03];
const OID_SERVER_AUTH: &[u8] = &[0x2b, 0x06, 0x01, 0x05, 0x05, 0x07, 0x03, 0x01];
const OID_CLIENT_AUTH: &[u8] = &[0x2b, 0x06, 0x01, 0x05, 0x05, 0x07, 0x03, 0x02];
const OID_STEP_UP: &[u8] = &[0x60, 0x86, 0x48, 0x01, 0x86, 0xf8, 0x42, 0x04, 0x01];

fn spki_contents(pk: &[u8]) -> Vec<u8> {
    concat(&[&der_seq(EC_P256_ALG_ID), &tlv(0x03, &concat(&[&[0u8], pk]))])
}

fn spki_el(pk: &[u8]) -> Vec<u8> {
    der_seq(&spki_contents(pk))
}

fn ext(oid_last: u8, critical: Option<bool>, wrapped: &[u8]) -> Vec<u8> {
    let mut c = tlv(0x06, &[0x55, 0x1d, oid_last]);
    if let Some(b) = critical {
        c.extend_from_slice(&tlv(0x01, &[if b { 0xff } else { 0x00 }]));
    }
    c.extend_from_slice(&tlv(0x04, wrapped));
    der_seq(&c)
}

fn bc_ext(is_ca: bool, path_len: Option<u8>) -> Vec<u8> {
    let mut inner = Vec::new();
    if is_ca {
        inner.extend_from_slice(&tlv(0x01, &[0xff]));
    }
    if let Some(l) = path_len {
        inner.extend_from_slice(&tlv(0x02, &[l]));
    }
    ext(19, Some(true), &der_seq(&inner))
}

fn san_ext(dns: &[&[u8]]) -> Vec<u8> {
    let mut inner = Vec::new();
    for d in dns {
        inner.extend_from_slice(&tlv(0x82, d));
    }
    ext(17, None, &der_seq(&inner))
}

fn eku_ext(oids: &[&[u8]]) -> Vec<u8> {
    let mut inner = Vec::new();
    for o in oids {
        inner.extend_from_slice(&tlv(0x06, o));
    }
    ext(37, None, &der_seq(&inner))
}

fn tbs_el(
    sig_alg_contents: &[u8],
    issuer_cn: &[u8],
    nb: &str,
    na: &str,
    subject_cn: &[u8],
    pk: &[u8],
    exts: &[Vec<u8>],
) -> Vec<u8> {
    let mut c = Vec::new();
    c.extend_from_slice(&tlv(0xa0, &tlv(0x02, &[2])));
    c.extend_from_slice(&tlv(0x02, &[1]));
    c.extend_from_slice(&der_seq(sig_alg_contents));
    c.extend_from_slice(&name_el(issuer_cn));
    c.extend_from_slice(&validity_el(nb, na));
    c.extend_from_slice(&name_el(subject_cn));
    c.extend_from_slice(&spki_el(pk));
    if !exts.is_empty() {
        let mut l = Vec::new();
        for e in exts {
            l.extend_from_slice(e);
        }
        c.extend_from_slice(&tlv(0xa3, &der_seq(&l)));
    }
    der_seq(&c)
}

struct Key {
    kp: EcdsaKeyPair,
    pk: Vec<u8>,
}

fn gen_key() -> Key {
    let rng = SystemRandom::new();
    let pkcs8 = EcdsaKeyPair::generate_pkcs8(&ECDSA_P256_SHA256_ASN1_SIGNING, &rng).unwrap();
    let kp =
        EcdsaKeyPair::from_pkcs8(&ECDSA_P256_SHA256_ASN1_SIGNING, pkcs8.as_ref(), &rng).unwrap();
    let pk = kp.public_key().as_ref().to_vec();
    Key { kp, pk }
}

fn sign_tbs(signer: &Key, tbs: &[u8]) -> Vec<u8> {
    let rng = SystemRandom::new();
    let sig = signer.kp.sign(&rng, tbs).unwrap();
    der_seq(&concat(&[
        tbs,
        &der_seq(ECDSA_SHA256_SIG_ALG),
        &tlv(0x03, &concat(&[&[0u8], sig.as_ref()])),
    ]))
}

/// An end-entity certificate for `subject_cn`, issued and signed by
/// `issuer`, with the given SAN entries and extra extensions.
fn make_ee(
    issuer_cn: &[u8],
    issuer: &Key,
    subject_cn: &[u8],
    own: &Key,
    nb: &str,
    na: &str,
    dns: &[&[u8]],
    extra: &[Vec<u8>],
) -> Vec<u8> {
    let mut exts: Vec<Vec<u8>> = Vec::new();
    if !dns.is_empty() {
        exts.push(san_ext(dns));
    }
    for e in extra {
        exts.push(e.clone());
    }
    let tbs = tbs_el(ECDSA_SHA256_SIG_ALG, issuer_cn, nb, na, subject_cn, &own.pk, &exts);
    sign_tbs(issuer, &tbs)
}

/// A CA certificate for `subject_cn`, issued and signed by `issuer`.
fn make_ca(
    issuer_cn: &[u8],
    issuer: &Key,
    subject_cn: &[u8],
    own: &Key,
    path_len: Option<u8>,
    extra: &[Vec<u8>],
) -> Vec<u8> {
    let mut exts: Vec<Vec<u8>> = vec![bc_ext(true, path_len)];
    for e in extra {
        exts.push(e.clone());
    }
    let tbs = tbs_el(
        ECDSA_SHA256_SIG_ALG,
        issuer_cn,
        "160101000000Z",
        "170101000000Z",
        subject_cn,
        &own.pk,
        &exts,
    );
    sign_tbs(issuer, &tbs)
}

fn mid_2016() -> Time {
    time_from_ymdhms_utc(2016, 6, 1, 0, 0, 0).unwrap()
}

const ALGS: &[SignatureAlgorithm] = &[SignatureAlgorithm::EcdsaP256Sha256];

// ---- parsing ----

#[test]
fn parse_retains_expected_subslices() {
    let root = gen_key();
    let ee_key = gen_key();
    let der = make_ee(
        b"Root",
        &root,
        b"EE",
        &ee_key,
        "160101000000Z",
        "170101000000Z",
        &[b"example.com"],
        &[],
    );
    let cert = parse_cert(&der, EndEntityOrCA::EndEntity).unwrap();
    assert_eq!(cert.issuer, name_contents(b"Root").as_slice());
    assert_eq!(cert.subject, name_contents(b"EE").as_slice());
    assert_eq!(cert.spki, spki_contents(&ee_key.pk).as_slice());
    assert_eq!(
        cert.validity,
        concat(&[&utc("160101000000Z"), &utc("170101000000Z")]).as_slice()
    );
    assert!(cert.subject_alt_name.is_some());
    assert!(cert.basic_constraints.is_none());
    assert!(cert.eku.is_none());
    assert!(cert.name_constraints.is_none());
}

#[test]
fn parse_twice_yields_identical_subslices() {
    let root = gen_key();
    let ee_key = gen_key();
    let der = make_ee(
        b"Root",
        &root,
        b"EE",
        &ee_key,
        "160101000000Z",
        "170101000000Z",
        &[b"example.com"],
        &[],
    );
    let a = parse_cert(&der, EndEntityOrCA::EndEntity).unwrap();
    let b = parse_cert(&der, EndEntityOrCA::EndEntity).unwrap();
    assert_eq!(a.issuer, b.issuer);
    assert_eq!(a.subject, b.subject);
    assert_eq!(a.spki, b.spki);
    assert_eq!(a.validity, b.validity);
    assert_eq!(a.signed_data.data, b.signed_data.data);
    assert_eq!(a.signed_data.algorithm, b.signed_data.algorithm);
    assert_eq!(a.signed_data.signature, b.signed_data.signature);
    assert_eq!(a.subject_alt_name, b.subject_alt_name);
    assert_eq!(a.basic_constraints, b.basic_constraints);
}

#[test]
fn parse_rejects_garbage() {
    assert_eq!(EndEntityCert::from(&[0x00, 0x01, 0x02]).err(), Some(Error::BadDER));
    assert_eq!(EndEntityCert::from(&[]).err(), Some(Error::BadDER));
}

#[test]
fn parse_rejects_v1_certificate() {
    let root = gen_key();
    let ee_key = gen_key();
    // A TBS without the [0] explicit version field.
    let mut c = Vec::new();
    c.extend_from_slice(&tlv(0x02, &[1]));
    c.extend_from_slice(&der_seq(ECDSA_SHA256_SIG_ALG));
    c.extend_from_slice(&name_el(b"Root"));
    c.extend_from_slice(&validity_el("160101000000Z", "170101000000Z"));
    c.extend_from_slice(&name_el(b"EE"));
    c.extend_from_slice(&spki_el(&ee_key.pk));
    let tbs = der_seq(&c);
    let der = sign_tbs(&root, &tbs);
    assert_eq!(EndEntityCert::from(&der).err(), Some(Error::UnsupportedCertVersion));
}

#[test]
fn parse_rejects_algorithm_mismatch() {
    let root = gen_key();
    let ee_key = gen_key();
    // The TBS names ecdsa-with-SHA384 while the outer signature names
    // ecdsa-with-SHA256: one differing byte.
    let tbs = tbs_el(
        ECDSA_SHA384_SIG_ALG,
        b"Root",
        "160101000000Z",
        "170101000000Z",
        b"EE",
        &ee_key.pk,
        &[],
    );
    let der = sign_tbs(&root, &tbs);
    assert_eq!(EndEntityCert::from(&der).err(), Some(Error::SignatureAlgorithmMismatch));
}

#[test]
fn parse_rejects_unknown_critical_extension() {
    let root = gen_key();
    let ee_key = gen_key();
    let strange = ext(99, Some(true), &der_seq(&[]));
    let der = make_ee(
        b"Root",
        &root,
        b"EE",
        &ee_key,
        "160101000000Z",
        "170101000000Z",
        &[],
        &[strange],
    );
    assert_eq!(EndEntityCert::from(&der).err(), Some(Error::UnsupportedCriticalExtension));
}

#[test]
fn parse_ignores_unknown_noncritical_extension() {
    let root = gen_key();
    let ee_key = gen_key();
    let strange = ext(99, None, &der_seq(&[]));
    let der = make_ee(
        b"Root",
        &root,
        b"EE",
        &ee_key,
        "160101000000Z",
        "170101000000Z",
        &[b"example.com"],
        &[strange],
    );
    assert!(EndEntityCert::from(&der).is_ok());
}

#[test]
fn parse_rejects_duplicate_recognized_extension() {
    let root = gen_key();
    let ee_key = gen_key();
    let san = san_ext(&[b"example.com"]);
    let der = make_ee(
        b"Root",
        &root,
        b"EE",
        &ee_key,
        "160101000000Z",
        "170101000000Z",
        &[b"example.com"],
        &[san],
    );
    assert_eq!(EndEntityCert::from(&der).err(), Some(Error::ExtensionValueInvalid));
}

#[test]
fn parse_accepts_explicit_false_ca_boolean() {
    // The nonconformant explicit cA=false is tolerated for real-world
    // compatibility.
    let root = gen_key();
    let ee_key = gen_key();
    let bc = ext(19, None, &der_seq(&tlv(0x01, &[0x00])));
    let der = make_ee(
        b"Root",
        &root,
        b"EE",
        &ee_key,
        "160101000000Z",
        "170101000000Z",
        &[b"example.com"],
        &[bc],
    );
    let cert = EndEntityCert::from(&der).unwrap();
    let subj = name_contents(b"Root");
    let spki = spki_contents(&root.pk);
    let anchors = [TrustAnchor { subject: &subj, spki: &spki, name_constraints: None }];
    assert_eq!(cert.verify_is_valid_tls_server_cert(ALGS, &anchors, &[], mid_2016()), Ok(()));
}

// ---- chain validation ----

#[test]
fn ee_directly_under_anchor_succeeds() {
    let root = gen_key();
    let ee_key = gen_key();
    let der = make_ee(
        b"Root",
        &root,
        b"EE",
        &ee_key,
        "160101000000Z",
        "170101000000Z",
        &[b"example.com"],
        &[],
    );
    let cert = EndEntityCert::from(&der).unwrap();
    let subj = name_contents(b"Root");
    let spki = spki_contents(&root.pk);
    let anchors = [TrustAnchor { subject: &subj, spki: &spki, name_constraints: None }];
    assert_eq!(cert.verify_is_valid_tls_server_cert(ALGS, &anchors, &[], mid_2016()), Ok(()));
}

#[test]
fn expired_and_not_yet_valid() {
    let root = gen_key();
    let ee_key = gen_key();
    let der = make_ee(
        b"Root",
        &root,
        b"EE",
        &ee_key,
        "160101000000Z",
        "170101000000Z",
        &[b"example.com"],
        &[],
    );
    let cert = EndEntityCert::from(&der).unwrap();
    let subj = name_contents(b"Root");
    let spki = spki_contents(&root.pk);
    let anchors = [TrustAnchor { subject: &subj, spki: &spki, name_constraints: None }];
    let in_2018 = time_from_ymdhms_utc(2018, 1, 1, 0, 0, 0).unwrap();
    assert_eq!(
        cert.verify_is_valid_tls_server_cert(ALGS, &anchors, &[], in_2018),
        Err(Error::CertExpired)
    );
    let in_2015 = time_from_ymdhms_utc(2015, 1, 1, 0, 0, 0).unwrap();
    assert_eq!(
        cert.verify_is_valid_tls_server_cert(ALGS, &anchors, &[], in_2015),
        Err(Error::CertNotValidYet)
    );
}

#[test]
fn reversed_validity_window() {
    let root = gen_key();
    let ee_key = gen_key();
    let der = make_ee(
        b"Root",
        &root,
        b"EE",
        &ee_key,
        "170101000000Z",
        "160101000000Z",
        &[b"example.com"],
        &[],
    );
    let cert = EndEntityCert::from(&der).unwrap();
    let subj = name_contents(b"Root");
    let spki = spki_contents(&root.pk);
    let anchors = [TrustAnchor { subject: &subj, spki: &spki, name_constraints: None }];
    assert_eq!(
        cert.verify_is_valid_tls_server_cert(ALGS, &anchors, &[], mid_2016()),
        Err(Error::InvalidCertValidity)
    );
}

/// Builds the chain EE -> I1 -> ... -> In -> root and returns
/// (ee_der, intermediate ders bottom-up, root key).
fn chain_of(n: usize) -> (Vec<u8>, Vec<Vec<u8>>, Key) {
    let root = gen_key();
    let mut keys: Vec<Key> = Vec::new();
    for _ in 0..n {
        keys.push(gen_key());
    }
    let cn = |i: usize| format!("I{}", i + 1).into_bytes();
    let mut inters: Vec<Vec<u8>> = Vec::new();
    for i in 0..n {
        let (issuer_cn, issuer_key): (Vec<u8>, &Key) = if i + 1 < n {
            (cn(i + 1), &keys[i + 1])
        } else {
            (b"Root".to_vec(), &root)
        };
        inters.push(make_ca(&issuer_cn, issuer_key, &cn(i), &keys[i], None, &[]));
    }
    let ee_key = gen_key();
    let issuer_of_ee: (Vec<u8>, &Key) = if n > 0 {
        (cn(0), &keys[0])
    } else {
        (b"Root".to_vec(), &root)
    };
    let ee = make_ee(
        &issuer_of_ee.0,
        issuer_of_ee.1,
        b"EE",
        &ee_key,
        "160101000000Z",
        "170101000000Z",
        &[b"example.com"],
        &[],
    );
    (ee, inters, root)
}

#[test]
fn six_sub_cas_succeed_seven_fail() {
    let (ee, inters, root) = chain_of(6);
    let cert = EndEntityCert::from(&ee).unwrap();
    let subj = name_contents(b"Root");
    let spki = spki_contents(&root.pk);
    let anchors = [TrustAnchor { subject: &subj, spki: &spki, name_constraints: None }];
    let refs: Vec<&[u8]> = inters.iter().map(|v| v.as_slice()).collect();
    assert_eq!(cert.verify_is_valid_tls_server_cert(ALGS, &anchors, &refs, mid_2016()), Ok(()));

    let (ee7, inters7, root7) = chain_of(7);
    let cert7 = EndEntityCert::from(&ee7).unwrap();
    let subj7 = name_contents(b"Root");
    let spki7 = spki_contents(&root7.pk);
    let anchors7 = [TrustAnchor { subject: &subj7, spki: &spki7, name_constraints: None }];
    let refs7: Vec<&[u8]> = inters7.iter().map(|v| v.as_slice()).collect();
    assert_eq!(
        cert7.verify_is_valid_tls_server_cert(ALGS, &anchors7, &refs7, mid_2016()),
        Err(Error::UnknownIssuer)
    );
}

#[test]
fn path_len_zero_directly_over_ee_is_fine() {
    let root = gen_key();
    let i1 = gen_key();
    let i1_der = make_ca(b"Root", &root, b"I1", &i1, Some(0), &[]);
    let ee_key = gen_key();
    let ee = make_ee(
        b"I1",
        &i1,
        b"EE",
        &ee_key,
        "160101000000Z",
        "170101000000Z",
        &[b"example.com"],
        &[],
    );
    let cert = EndEntityCert::from(&ee).unwrap();
    let subj = name_contents(b"Root");
    let spki = spki_contents(&root.pk);
    let anchors = [TrustAnchor { subject: &subj, spki: &spki, name_constraints: None }];
    let refs: Vec<&[u8]> = vec![&i1_der];
    assert_eq!(cert.verify_is_valid_tls_server_cert(ALGS, &anchors, &refs, mid_2016()), Ok(()));
}

#[test]
fn path_len_constraint_violated() {
    // The certificate carrying pathLenConstraint=0 has one CA below it.
    let bc_contents = concat(&[&tlv(0x01, &[0xff]), &tlv(0x02, &[0])]);
    assert_eq!(
        check_basic_constraints(Some(&bc_contents), UsedAsCA::Yes, 1),
        Err(Error::PathLenConstraintViolated)
    );
    // In a full walk the violation makes the candidate fail and the
    // search exhausts with UnknownIssuer.
    let root = gen_key();
    let i2 = gen_key();
    let i2_der = make_ca(b"Root", &root, b"I2", &i2, Some(0), &[]);
    let i1 = gen_key();
    let i1_der = make_ca(b"I2", &i2, b"I1", &i1, None, &[]);
    let ee_key = gen_key();
    let ee = make_ee(
        b"I1",
        &i1,
        b"EE",
        &ee_key,
        "160101000000Z",
        "170101000000Z",
        &[b"example.com"],
        &[],
    );
    let cert = EndEntityCert::from(&ee).unwrap();
    let subj = name_contents(b"Root");
    let spki = spki_contents(&root.pk);
    let anchors = [TrustAnchor { subject: &subj, spki: &spki, name_constraints: None }];
    let refs: Vec<&[u8]> = vec![&i1_der, &i2_der];
    assert_eq!(
        cert.verify_is_valid_tls_server_cert(ALGS, &anchors, &refs, mid_2016()),
        Err(Error::UnknownIssuer)
    );
}

#[test]
fn eku_client_auth_only_fails_server_auth() {
    let root = gen_key();
    let ee_key = gen_key();
    let der = make_ee(
        b"Root",
        &root,
        b"EE",
        &ee_key,
        "160101000000Z",
        "170101000000Z",
        &[b"example.com"],
        &[eku_ext(&[OID_CLIENT_AUTH])],
    );
    let cert = EndEntityCert::from(&der).unwrap();
    let subj = name_contents(b"Root");
    let spki = spki_contents(&root.pk);
    let anchors = [TrustAnchor { subject: &subj, spki: &spki, name_constraints: None }];
    assert_eq!(
        cert.verify_is_valid_tls_server_cert(ALGS, &anchors, &[], mid_2016()),
        Err(Error::RequiredEKUNotFound)
    );
}

#[test]
fn eku_absent_but_ocsp_signing_required() {
    let root = gen_key();
    let ee_key = gen_key();
    let der = make_ee(
        b"Root",
        &root,
        b"EE",
        &ee_key,
        "160101000000Z",
        "170101000000Z",
        &[b"example.com"],
        &[],
    );
    let cert = parse_cert(&der, EndEntityOrCA::EndEntity).unwrap();
    let subj = name_contents(b"Root");
    let spki = spki_contents(&root.pk);
    let anchors = [TrustAnchor { subject: &subj, spki: &spki, name_constraints: None }];
    let required = eku_ocsp_signing();
    assert_eq!(
        build_chain(&required, ALGS, &anchors, &[], &cert, mid_2016(), 0),
        Err(Error::RequiredEKUNotFound)
    );
}

#[test]
fn eku_step_up_satisfies_server_auth_on_ca() {
    let root = gen_key();
    let i1 = gen_key();
    let i1_der = make_ca(b"Root", &root, b"I1", &i1, None, &[eku_ext(&[OID_STEP_UP])]);
    let ee_key = gen_key();
    let ee = make_ee(
        b"I1",
        &i1,
        b"EE",
        &ee_key,
        "160101000000Z",
        "170101000000Z",
        &[b"example.com"],
        &[eku_ext(&[OID_SERVER_AUTH])],
    );
    let cert = EndEntityCert::from(&ee).unwrap();
    let subj = name_contents(b"Root");
    let spki = spki_contents(&root.pk);
    let anchors = [TrustAnchor { subject: &subj, spki: &spki, name_constraints: None }];
    let refs: Vec<&[u8]> = vec![&i1_der];
    assert_eq!(cert.verify_is_valid_tls_server_cert(ALGS, &anchors, &refs, mid_2016()), Ok(()));
}

#[test]
fn no_anchor_means_unknown_issuer() {
    let root = gen_key();
    let other = gen_key();
    let ee_key = gen_key();
    let der = make_ee(
        b"Root",
        &root,
        b"EE",
        &ee_key,
        "160101000000Z",
        "170101000000Z",
        &[b"example.com"],
        &[],
    );
    let cert = EndEntityCert::from(&der).unwrap();
    let subj = name_contents(b"Other");
    let spki = spki_contents(&other.pk);
    let anchors = [TrustAnchor { subject: &subj, spki: &spki, name_constraints: None }];
    assert_eq!(
        cert.verify_is_valid_tls_server_cert(ALGS, &anchors, &[], mid_2016()),
        Err(Error::UnknownIssuer)
    );
}

#[test]
fn loops_of_intermediates_terminate() {
    // A self-issued intermediate and a mutual-issuer pair, none of which
    // leads to an anchor: the walk must terminate with UnknownIssuer.
    let x = gen_key();
    let y = gen_key();
    let self_signed = make_ca(b"X", &x, b"X", &x, None, &[]);
    let b_der = make_ca(b"Y", &y, b"X", &x, None, &[]);
    let c_der = make_ca(b"X", &x, b"Y", &y, None, &[]);
    let ee_key = gen_key();
    let ee = make_ee(
        b"X",
        &x,
        b"EE",
        &ee_key,
        "160101000000Z",
        "170101000000Z",
        &[b"example.com"],
        &[],
    );
    let cert = EndEntityCert::from(&ee).unwrap();
    let anchors: [TrustAnchor; 0] = [];
    let refs: Vec<&[u8]> = vec![&self_signed, &b_der, &c_der];
    assert_eq!(
        cert.verify_is_valid_tls_server_cert(ALGS, &anchors, &refs, mid_2016()),
        Err(Error::UnknownIssuer)
    );
}

#[test]
fn ca_as_end_entity_is_rejected() {
    let root = gen_key();
    let ee_key = gen_key();
    let der = make_ee(
        b"Root",
        &root,
        b"EE",
        &ee_key,
        "160101000000Z",
        "170101000000Z",
        &[b"example.com"],
        &[bc_ext(true, None)],
    );
    let cert = EndEntityCert::from(&der).unwrap();
    let subj = name_contents(b"Root");
    let spki = spki_contents(&root.pk);
    let anchors = [TrustAnchor { subject: &subj, spki: &spki, name_constraints: None }];
    assert_eq!(
        cert.verify_is_valid_tls_server_cert(ALGS, &anchors, &[], mid_2016()),
        Err(Error::CAUsedAsEndEntity)
    );
}

#[test]
fn validation_succeeds_throughout_window() {
    // Success at one instant extends to other instants inside the
    // window of every certificate of the chain.
    let root = gen_key();
    let ee_key = gen_key();
    let der = make_ee(
        b"Root",
        &root,
        b"EE",
        &ee_key,
        "160101000000Z",
        "170101000000Z",
        &[b"example.com"],
        &[],
    );
    let cert = EndEntityCert::from(&der).unwrap();
    let subj = name_contents(b"Root");
    let spki = spki_contents(&root.pk);
    let anchors = [TrustAnchor { subject: &subj, spki: &spki, name_constraints: None }];
    for t in [
        time_from_ymdhms_utc(2016, 1, 1, 0, 0, 0).unwrap(),
        time_from_ymdhms_utc(2016, 3, 15, 12, 30, 45).unwrap(),
        time_from_ymdhms_utc(2016, 12, 31, 23, 59, 59).unwrap(),
        time_from_ymdhms_utc(2017, 1, 1, 0, 0, 0).unwrap(),
    ] {
        assert_eq!(cert.verify_is_valid_tls_server_cert(ALGS, &anchors, &[], t), Ok(()));
    }
}

// ---- name constraints and DNS names ----

#[test]
fn excluded_subtree_violation() {
    let root = gen_key();
    let ee_key = gen_key();
    let der = make_ee(
        b"Root",
        &root,
        b"EE",
        &ee_key,
        "160101000000Z",
        "170101000000Z",
        &[b"foo.example.com"],
        &[],
    );
    let cert = parse_cert(&der, EndEntityOrCA::EndEntity).unwrap();
    // excludedSubtrees holding the dNSName constraint ".example.com".
    let subtree = der_seq(&tlv(0x82, b".example.com"));
    let nc = tlv(0xa1, &subtree);
    assert_eq!(check_name_constraints(Some(&nc), &cert), Err(Error::NameConstraintViolation));

    // An anchor carrying those constraints cannot vouch for the
    // certificate; the search then exhausts with UnknownIssuer.
    let subj = name_contents(b"Root");
    let spki = spki_contents(&root.pk);
    let anchors = [TrustAnchor { subject: &subj, spki: &spki, name_constraints: Some(&nc) }];
    let cert2 = EndEntityCert::from(&der).unwrap();
    assert_eq!(
        cert2.verify_is_valid_tls_server_cert(ALGS, &anchors, &[], mid_2016()),
        Err(Error::UnknownIssuer)
    );
}

#[test]
fn excluded_subtree_elsewhere_is_fine() {
    let root = gen_key();
    let ee_key = gen_key();
    let der = make_ee(
        b"Root",
        &root,
        b"EE",
        &ee_key,
        "160101000000Z",
        "170101000000Z",
        &[b"foo.example.org"],
        &[],
    );
    let cert = parse_cert(&der, EndEntityOrCA::EndEntity).unwrap();
    let subtree = der_seq(&tlv(0x82, b".example.com"));
    let nc = tlv(0xa1, &subtree);
    assert_eq!(check_name_constraints(Some(&nc), &cert), Ok(()));
    assert_eq!(check_name_constraints(None, &cert), Ok(()));
}

#[test]
fn permitted_subtrees_must_cover_all_dns_names() {
    let root = gen_key();
    let ee_key = gen_key();
    let der = make_ee(
        b"Root",
        &root,
        b"EE",
        &ee_key,
        "160101000000Z",
        "170101000000Z",
        &[b"foo.example.com", b"bar.other.net"],
        &[],
    );
    let cert = parse_cert(&der, EndEntityOrCA::EndEntity).unwrap();
    let allow_example = tlv(0xa0, &der_seq(&tlv(0x82, b".example.com")));
    assert_eq!(
        check_name_constraints(Some(&allow_example), &cert),
        Err(Error::NameConstraintViolation)
    );
    let allow_both = tlv(
        0xa0,
        &concat(&[
            &der_seq(&tlv(0x82, b".example.com")),
            &der_seq(&tlv(0x82, b".other.net")),
        ]),
    );
    assert_eq!(check_name_constraints(Some(&allow_both), &cert), Ok(()));
}

#[test]
fn directory_name_constraints_match_by_rdn_prefix() {
    // A subject with two RDNs: O=Widgets, then CN=EE.
    let o_rdn = tlv(
        0x31,
        &der_seq(&concat(&[&tlv(0x06, &[0x55, 0x04, 0x0a]), &tlv(0x13, b"Widgets")])),
    );
    let cn_rdn = tlv(
        0x31,
        &der_seq(&concat(&[&tlv(0x06, &[0x55, 0x04, 0x03]), &tlv(0x13, b"EE")])),
    );
    let subject_contents = concat(&[&o_rdn, &cn_rdn]);

    let root = gen_key();
    let ee_key = gen_key();
    // Build the EE with that two-RDN subject by hand.
    let mut c = Vec::new();
    c.extend_from_slice(&tlv(0xa0, &tlv(0x02, &[2])));
    c.extend_from_slice(&tlv(0x02, &[1]));
    c.extend_from_slice(&der_seq(ECDSA_SHA256_SIG_ALG));
    c.extend_from_slice(&name_el(b"Root"));
    c.extend_from_slice(&validity_el("160101000000Z", "170101000000Z"));
    c.extend_from_slice(&der_seq(&subject_contents));
    c.extend_from_slice(&spki_el(&ee_key.pk));
    let tbs = der_seq(&c);
    let der = sign_tbs(&root, &tbs);
    let cert = parse_cert(&der, EndEntityOrCA::EndEntity).unwrap();

    // An excluded directoryName naming only the organization catches
    // every subject within it.
    let org_only = der_seq(&o_rdn);
    let nc_org = tlv(0xa1, &der_seq(&tlv(0xa4, &org_only)));
    assert_eq!(check_name_constraints(Some(&nc_org), &cert), Err(Error::NameConstraintViolation));

    // The whole subject matches itself.
    let whole = der_seq(&subject_contents);
    let nc_whole = tlv(0xa1, &der_seq(&tlv(0xa4, &whole)));
    assert_eq!(
        check_name_constraints(Some(&nc_whole), &cert),
        Err(Error::NameConstraintViolation)
    );

    // A different organization does not catch it.
    let other_rdn = tlv(
        0x31,
        &der_seq(&concat(&[&tlv(0x06, &[0x55, 0x04, 0x0a]), &tlv(0x13, b"Others")])),
    );
    let nc_other = tlv(0xa1, &der_seq(&tlv(0xa4, &der_seq(&other_rdn))));
    assert_eq!(check_name_constraints(Some(&nc_other), &cert), Ok(()));

    // A permitted directoryName of the organization admits the member.
    let perm_org = tlv(0xa0, &der_seq(&tlv(0xa4, &org_only)));
    assert_eq!(check_name_constraints(Some(&perm_org), &cert), Ok(()));
    // A permitted directoryName of a different organization does not.
    let perm_other = tlv(0xa0, &der_seq(&tlv(0xa4, &der_seq(&other_rdn))));
    assert_eq!(
        check_name_constraints(Some(&perm_other), &cert),
        Err(Error::NameConstraintViolation)
    );
}

#[test]
fn dns_name_matching() {
    let root = gen_key();
    let ee_key = gen_key();
    let der = make_ee(
        b"Root",
        &root,
        b"EE",
        &ee_key,
        "160101000000Z",
        "170101000000Z",
        &[b"Example.COM", b"*.wild.net"],
        &[],
    );
    let cert = EndEntityCert::from(&der).unwrap();
    // Case-insensitive exact match.
    assert_eq!(cert.verify_is_valid_for_dns_name(b"example.com"), Ok(()));
    // Wildcards cover exactly one left-most label.
    assert_eq!(cert.verify_is_valid_for_dns_name(b"foo.wild.net"), Ok(()));
    assert_eq!(
        cert.verify_is_valid_for_dns_name(b"wild.net"),
        Err(Error::CertNotValidForName)
    );
    assert_eq!(
        cert.verify_is_valid_for_dns_name(b"a.b.wild.net"),
        Err(Error::CertNotValidForName)
    );
    assert_eq!(
        cert.verify_is_valid_for_dns_name(b"other.com"),
        Err(Error::CertNotValidForName)
    );
    // Malformed reference names.
    assert_eq!(cert.verify_is_valid_for_dns_name(b""), Err(Error::InvalidReferenceName));
    assert_eq!(
        cert.verify_is_valid_for_dns_name(b"a..example.com"),
        Err(Error::InvalidReferenceName)
    );
    assert_eq!(
        cert.verify_is_valid_for_dns_name(b".example.com"),
        Err(Error::InvalidReferenceName)
    );
}

#[test]
fn dns_name_needs_san() {
    let root = gen_key();
    let ee_key = gen_key();
    let der = make_ee(
        b"Root",
        &root,
        b"EE",
        &ee_key,
        "160101000000Z",
        "170101000000Z",
        &[],
        &[],
    );
    let cert = EndEntityCert::from(&der).unwrap();
    assert_eq!(
        cert.verify_is_valid_for_dns_name(b"example.com"),
        Err(Error::CertNotValidForName)
    );
}

// ---- signatures ----

#[test]
fn verify_signature_roundtrip() {
    let root = gen_key();
    let ee_key = gen_key();
    let der = make_ee(
        b"Root",
        &root,
        b"EE",
        &ee_key,
        "160101000000Z",
        "170101000000Z",
        &[b"example.com"],
        &[],
    );
    let cert = EndEntityCert::from(&der).unwrap();
    let msg = b"server key exchange bytes";
    let rng = SystemRandom::new();
    let sig = ee_key.kp.sign(&rng, msg).unwrap();
    assert_eq!(
        cert.verify_signature(&SignatureAlgorithm::EcdsaP256Sha256, msg, sig.as_ref()),
        Ok(())
    );
    // A corrupted signature must not check.
    let mut bad = sig.as_ref().to_vec();
    let last = bad.len() - 1;
    bad[last] ^= 0x01;
    assert_eq!(
        cert.verify_signature(&SignatureAlgorithm::EcdsaP256Sha256, msg, &bad),
        Err(Error::InvalidSignatureForPublicKey)
    );
    // A mismatched key family is reported as such.
    assert_eq!(
        cert.verify_signature(&SignatureAlgorithm::EcdsaP384Sha256, msg, sig.as_ref()),
        Err(Error::UnsupportedSignatureAlgorithmForPublicKey)
    );
}

#[test]
fn signed_data_algorithm_selection() {
    let root = gen_key();
    let ee_key = gen_key();
    let der = make_ee(
        b"Root",
        &root,
        b"EE",
        &ee_key,
        "160101000000Z",
        "170101000000Z",
        &[b"example.com"],
        &[],
    );
    let cert = parse_cert(&der, EndEntityOrCA::EndEntity).unwrap();
    let spki = spki_contents(&root.pk);
    // No supported algorithms at all.
    assert_eq!(
        verify_signed_data(&[], &spki, &cert.signed_data),
        Err(Error::UnsupportedSignatureAlgorithm)
    );
    // An algorithm set whose only match wants a different key family.
    assert_eq!(
        verify_signed_data(&[SignatureAlgorithm::EcdsaP384Sha256], &spki, &cert.signed_data),
        Err(Error::UnsupportedSignatureAlgorithmForPublicKey)
    );
    // The matching entry is found even after non-matching ones.
    assert_eq!(
        verify_signed_data(
            &[
                SignatureAlgorithm::RsaPkcs1_2048_8192Sha256,
                SignatureAlgorithm::EcdsaP384Sha256,
                SignatureAlgorithm::EcdsaP256Sha256,
            ],
            &spki,
            &cert.signed_data,
        ),
        Ok(())
    );
    // A wrong key rejects the signature.
    let other = gen_key();
    let wrong_spki = spki_contents(&other.pk);
    assert_eq!(
        verify_signed_data(ALGS, &wrong_spki, &cert.signed_data),
        Err(Error::InvalidSignatureForPublicKey)
    );
}

// ---- small public helpers ----

#[test]
fn used_as_ca_follows_the_marker() {
    assert_eq!(used_as_ca(&EndEntityOrCA::EndEntity), UsedAsCA::No);
    assert_eq!(used_as_ca(&EndEntityOrCA::CA), UsedAsCA::Yes);
}

#[test]
fn loop_while_non_fatal_error_semantics() {
    let hit = |i: usize| if i == 2 { Ok(()) } else { Err(Error::BadDER) };
    assert_eq!(loop_while_non_fatal_error(5, hit), Ok(()));
    let never = |_i: usize| Err(Error::BadDER);
    assert_eq!(loop_while_non_fatal_error(5, never), Err(Error::UnknownIssuer));
    let any = |_i: usize| Ok(());
    assert_eq!(loop_while_non_fatal_error(0, any), Err(Error::UnknownIssuer));
}
