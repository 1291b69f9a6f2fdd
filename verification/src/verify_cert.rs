//! The chain builder: a depth-first search from the end-entity
//! certificate through the caller's intermediates up to a trust anchor,
//! enforcing the issuer-independent rules at every hop and verifying
//! signatures end-to-end along the accepted path.
//!
//! The chain under construction is an explicit stack of parsed
//! certificates, the end-entity first; its length is bounded by the
//! fixed sub-CA ceiling, so the search always terminates.

use vstd::prelude::*;
use vstd::slice::slice_index_get;
use crate::{Error, TrustAnchor};
use crate::cert::{Cert, CertView, EndEntityOrCA, parse_cert, spec_parse_cert};
use crate::der::{
    Reader, bytes_eq, expect_tag_and_get_value, spec_expect_tlv, spec_optional_boolean,
    spec_small_nonnegative_integer, spec_time_choice, optional_boolean,
    small_nonnegative_integer, time_choice, TAG_OID,
};
use crate::name::check_name_constraints;
use crate::signed_data::{SignatureAlgorithm, spec_verify_signed_data, verify_signed_data};
use crate::time::Time;

verus! {

/// The fixed ceiling on intermediate CAs in a chain, independent of any
/// per-certificate path length constraint.
pub const MAX_SUB_CA_COUNT: usize = 6;

/// Whether a certificate is being used as a CA in the current walk.
#[derive(Clone, Copy, Debug, PartialEq, Eq, Structural)]
pub enum UsedAsCA {
    /// The certificate has a child in the chain.
    Yes,
    /// The certificate is the end-entity.
    No,
}

/// How the certificate is used, from its place in the chain: a
/// certificate with a child is used as a CA.
pub fn used_as_ca(ee_or_ca: &EndEntityOrCA) -> (r: UsedAsCA)
    ensures
        (r matches UsedAsCA::Yes) <==> (ee_or_ca matches EndEntityOrCA::CA),
{
    match ee_or_ca {
        EndEntityOrCA::EndEntity => UsedAsCA::No,
        EndEntityOrCA::CA => UsedAsCA::Yes,
    }
}

/// Whether `f` can have failed on `i`: some error is a permitted
/// outcome of `f` at that index.
pub open spec fn spec_failed_index<F: Fn(usize) -> Result<(), Error>>(f: F, i: usize) -> bool {
    exists|err: Error| call_ensures(f, (i,), Err::<(), Error>(err))
}

/// Tries `f` on each index below `n` in turn, treating every error as
/// non-fatal: the first success wins, and only when every candidate has
/// failed does the search surface `UnknownIssuer`.
pub fn loop_while_non_fatal_error<F: Fn(usize) -> Result<(), Error>>(n: usize, f: F) -> (r: Result<
    (),
    Error,
>)
    requires
        forall|i: usize| i < n ==> call_requires(f, (i,)),
    ensures
        r matches Ok(u) ==> exists|i: usize| i < n && call_ensures(f, (i,), r),
        r matches Err(e) ==> e == Error::UnknownIssuer,
        r matches Err(e) ==> forall|i: usize| i < n ==> #[trigger] spec_failed_index(f, i),
{
    let mut i: usize = 0;
    while i < n
        invariant
            0 <= i <= n,
            forall|k: usize| k < n ==> call_requires(f, (k,)),
            forall|k: usize| k < i ==> #[trigger] spec_failed_index(f, k),
        decreases n - i,
    {
        let outcome = f(i);
        match outcome {
            Ok(u) => {
                proof {
                    assert(exists|k: usize| k < n && call_ensures(f, (k,), outcome)) by {
                        assert(i < n && call_ensures(f, (i,), outcome));
                    };
                }
                return outcome;
            },
            Err(e0) => {
                proof {
                    assert(spec_failed_index(f, i)) by {
                        assert(call_ensures(f, (i,), Err::<(), Error>(e0)));
                    };
                }
            },
        }
        i = i + 1;
    }
    Err(Error::UnknownIssuer)
}

/// A required extended key usage, as the DER value of its OID.
pub struct KeyPurposeId {
    /// The DER encoding of the OID value.
    pub oid_value: Vec<u8>,
}

impl View for KeyPurposeId {
    type V = Seq<u8>;

    open spec fn view(&self) -> Seq<u8> {
        self.oid_value@
    }
}

/// The id-kp-serverAuth OID value, 1.3.6.1.5.5.7.3.1.
pub open spec fn spec_eku_server_auth() -> Seq<u8> {
    seq![0x2bu8, 0x06, 0x01, 0x05, 0x05, 0x07, 0x03, 0x01]
}

/// The id-kp-OCSPSigning OID value, 1.3.6.1.5.5.7.3.9.
pub open spec fn spec_eku_ocsp_signing() -> Seq<u8> {
    seq![0x2bu8, 0x06, 0x01, 0x05, 0x05, 0x07, 0x03, 0x09]
}

/// The id-Netscape-stepUp OID value, 2.16.840.1.113730.4.1.
pub open spec fn spec_eku_netscape_server_step_up() -> Seq<u8> {
    seq![0x60u8, 0x86, 0x48, 0x01, 0x86, 0xf8, 0x42, 0x04, 0x01]
}

fn push_kp(last: u8) -> (r: Vec<u8>)
    ensures
        r@ == seq![0x2bu8, 0x06, 0x01, 0x05, 0x05, 0x07, 0x03, last],
{
    let mut v: Vec<u8> = Vec::new();
    v.push(0x2b);
    v.push(0x06);
    v.push(0x01);
    v.push(0x05);
    v.push(0x05);
    v.push(0x07);
    v.push(0x03);
    v.push(last);
    proof {
        assert(v@ =~= seq![0x2bu8, 0x06, 0x01, 0x05, 0x05, 0x07, 0x03, last]);
    }
    v
}

/// The serverAuth key purpose, required of TLS server certificates.
pub fn eku_server_auth() -> (r: KeyPurposeId)
    ensures
        r@ == spec_eku_server_auth(),
{
    KeyPurposeId { oid_value: push_kp(0x01) }
}

/// The OCSPSigning key purpose, which must always be explicit.
pub fn eku_ocsp_signing() -> (r: KeyPurposeId)
    ensures
        r@ == spec_eku_ocsp_signing(),
{
    KeyPurposeId { oid_value: push_kp(0x09) }
}

fn eku_netscape_server_step_up_bytes() -> (r: Vec<u8>)
    ensures
        r@ == spec_eku_netscape_server_step_up(),
{
    let mut v: Vec<u8> = Vec::new();
    v.push(0x60);
    v.push(0x86);
    v.push(0x48);
    v.push(0x01);
    v.push(0x86);
    v.push(0xf8);
    v.push(0x42);
    v.push(0x04);
    v.push(0x01);
    proof {
        assert(v@ =~= spec_eku_netscape_server_step_up());
    }
    v
}

/// The outcome of holding the validity value `v` (notBefore then
/// notAfter) against the instant `t`: `InvalidCertValidity` for a
/// reversed window, `CertNotValidYet` before it, `CertExpired` after
/// it.
pub open spec fn spec_check_validity(v: Seq<u8>, t: int) -> Result<(), Error> {
    match spec_time_choice(v, 0) {
        Err(e) => Err(e),
        Ok((not_before, p1)) => match spec_time_choice(v, p1) {
            Err(e) => Err(e),
            Ok((not_after, p2)) => if not_before > not_after {
                Err(Error::InvalidCertValidity)
            } else if t < not_before {
                Err(Error::CertNotValidYet)
            } else if t > not_after {
                Err(Error::CertExpired)
            } else if p2 != v.len() {
                Err(Error::BadDER)
            } else {
                Ok(())
            },
        },
    }
}

/// Holds the validity value `v` against `time`, per
/// [`spec_check_validity`].
pub fn check_validity(v: &[u8], time: Time) -> (r: Result<(), Error>)
    ensures
        r == spec_check_validity(v@, time.0 as int),
{
    let mut rd = Reader::new(v);
    let not_before = match time_choice(&mut rd) {
        Ok(t) => t,
        Err(e) => { return Err(e); },
    };
    let not_after = match time_choice(&mut rd) {
        Ok(t) => t,
        Err(e) => { return Err(e); },
    };
    if not_before.0 > not_after.0 {
        return Err(Error::InvalidCertValidity);
    }
    if time.0 < not_before.0 {
        return Err(Error::CertNotValidYet);
    }
    if time.0 > not_after.0 {
        return Err(Error::CertExpired);
    }
    if !rd.at_end() {
        return Err(Error::BadDER);
    }
    Ok(())
}

/// If validation of a validity window succeeds at one instant, it
/// succeeds at every instant of the window.
pub proof fn lemma_validity_time_monotonic(v: Seq<u8>, t1: int, t2: int)
    requires
        spec_check_validity(v, t1) matches Ok(u),
        spec_time_choice(v, 0) matches Ok(nb) ==> match spec_time_choice(v, nb.1) {
            Ok(na) => nb.0 <= t2 <= na.0,
            Err(_) => true,
        },
    ensures
        spec_check_validity(v, t2) matches Ok(u),
{
}

/// The outcome of holding the BasicConstraints contents against the
/// certificate's use: an absent extension means no CA bit and no path
/// length; a CA used as an end-entity, an end-entity used as a CA, and
/// an exceeded path length constraint are each errors.  A non-CA
/// certificate carrying a path length constraint is tolerated.
pub open spec fn spec_check_basic_constraints(
    bc: Option<Seq<u8>>,
    used_as_ca: bool,
    sub_ca_count: int,
) -> Result<(), Error> {
    match bc {
        None => {
            if used_as_ca {
                Err(Error::EndEntityUsedAsCA)
            } else {
                Ok(())
            }
        },
        Some(v) => match spec_optional_boolean(v, 0) {
            Err(e) => Err(e),
            Ok((is_ca, p1)) => {
                let plen: Result<(Option<u8>, int), Error> = if p1 != v.len() {
                    match spec_small_nonnegative_integer(v, p1) {
                        Err(e) => Err(e),
                        Ok((l, p2)) => Ok((Some(l), p2)),
                    }
                } else {
                    Ok((None, p1))
                };
                match plen {
                    Err(e) => Err(e),
                    Ok((path_len, p2)) => if !used_as_ca && is_ca {
                        Err(Error::CAUsedAsEndEntity)
                    } else if used_as_ca && !is_ca {
                        Err(Error::EndEntityUsedAsCA)
                    } else if used_as_ca && is_ca && (path_len matches Some(l)
                        && sub_ca_count > l) {
                        Err(Error::PathLenConstraintViolated)
                    } else if p2 != v.len() {
                        Err(Error::BadDER)
                    } else {
                        Ok(())
                    },
                }
            },
        },
    }
}

/// Holds the BasicConstraints contents against the certificate's use,
/// per [`spec_check_basic_constraints`].
pub fn check_basic_constraints(bc: Option<&[u8]>, used_as_ca: UsedAsCA, sub_ca_count: usize) -> (r:
    Result<(), Error>)
    ensures
        r == spec_check_basic_constraints(
            crate::cert::view_opt(bc),
            used_as_ca matches UsedAsCA::Yes,
            sub_ca_count as int,
        ),
{
    let ca = matches!(used_as_ca, UsedAsCA::Yes);
    let v: &[u8] = match bc {
        None => {
            if ca {
                return Err(Error::EndEntityUsedAsCA);
            } else {
                return Ok(());
            }
        },
        Some(v) => v,
    };
    let mut rd = Reader::new(v);
    let is_ca = match optional_boolean(&mut rd) {
        Ok(b) => b,
        Err(e) => { return Err(e); },
    };
    let path_len: Option<u8> = if !rd.at_end() {
        match small_nonnegative_integer(&mut rd) {
            Ok(l) => Some(l),
            Err(e) => { return Err(e); },
        }
    } else {
        None
    };
    if !ca && is_ca {
        return Err(Error::CAUsedAsEndEntity);
    }
    if ca && !is_ca {
        return Err(Error::EndEntityUsedAsCA);
    }
    if ca && is_ca {
        match path_len {
            Some(l) => {
                if sub_ca_count > l as usize {
                    return Err(Error::PathLenConstraintViolated);
                }
            },
            None => {},
        }
    }
    if !rd.at_end() {
        return Err(Error::BadDER);
    }
    Ok(())
}

/// The outcome of scanning the ExtendedKeyUsage OIDs of `v` from `pos`
/// for the required purpose: the scan stops at the first hit; running
/// out of OIDs is `RequiredEKUNotFound`.  When `match_step_up` is set,
/// the Netscape Server-Step-Up OID also satisfies the requirement.
pub open spec fn spec_check_eku_list(
    v: Seq<u8>,
    pos: int,
    match_step_up: bool,
    required: Seq<u8>,
) -> Result<(), Error>
    decreases v.len() - pos,
{
    match spec_expect_tlv(v, pos, TAG_OID) {
        None => Err(Error::BadDER),
        Some((os, oe)) => if v.subrange(os, oe) == required || (match_step_up && v.subrange(os, oe)
            == spec_eku_netscape_server_step_up()) {
            Ok(())
        } else if oe >= v.len() {
            Err(Error::RequiredEKUNotFound)
        } else if oe <= pos {
            Err(Error::BadDER)
        } else {
            spec_check_eku_list(v, oe, match_step_up, required)
        },
    }
}

/// The outcome of holding the ExtendedKeyUsage contents against the
/// required purpose.  A present extension must list the required OID
/// (or, for a CA checked for serverAuth, the Netscape Server-Step-Up
/// OID).  An absent extension is accepted for every purpose except
/// OCSPSigning, which must be explicit.
pub open spec fn spec_check_eku(
    eku: Option<Seq<u8>>,
    used_as_ca: bool,
    required: Seq<u8>,
) -> Result<(), Error> {
    let match_step_up = used_as_ca && required == spec_eku_server_auth();
    match eku {
        Some(v) => spec_check_eku_list(v, 0, match_step_up, required),
        None => if required == spec_eku_ocsp_signing() {
            Err(Error::RequiredEKUNotFound)
        } else {
            Ok(())
        },
    }
}

fn check_eku_list(rd: &mut Reader, match_step_up: bool, required: &KeyPurposeId, step_up: &Vec<u8>)
    -> (r: Result<(), Error>)
    requires
        old(rd).wf(),
        step_up@ == spec_eku_netscape_server_step_up(),
    ensures
        final(rd).wf(),
        r == spec_check_eku_list(old(rd).input@, old(rd).pos as int, match_step_up, required@),
    decreases rd.input@.len() - rd.pos,
{
    let ghost s0 = rd.input@;
    let ghost p0 = rd.pos as int;
    let value = match expect_tag_and_get_value(rd, TAG_OID) {
        Ok(v) => v,
        Err(e) => { return Err(e); },
    };
    if bytes_eq(value, required.oid_value.as_slice()) || (match_step_up && bytes_eq(
        value,
        step_up.as_slice(),
    )) {
        return Ok(());
    }
    if rd.at_end() {
        return Err(Error::RequiredEKUNotFound);
    }
    proof {
        crate::der::lemma_read_tlv_bounds(s0, p0);
    }
    check_eku_list(rd, match_step_up, required, step_up)
}

/// Holds the ExtendedKeyUsage contents against the required purpose,
/// per [`spec_check_eku`].
pub fn check_eku(eku: Option<&[u8]>, used_as_ca: UsedAsCA, required: &KeyPurposeId) -> (r: Result<
    (),
    Error,
>)
    ensures
        r == spec_check_eku(
            crate::cert::view_opt(eku),
            used_as_ca matches UsedAsCA::Yes,
            required@,
        ),
{
    let server_auth = eku_server_auth();
    let match_step_up = matches!(used_as_ca, UsedAsCA::Yes) && bytes_eq(
        required.oid_value.as_slice(),
        server_auth.oid_value.as_slice(),
    );
    match eku {
        Some(v) => {
            let step_up = eku_netscape_server_step_up_bytes();
            let mut rd = Reader::new(v);
            check_eku_list(&mut rd, match_step_up, required, &step_up)
        },
        None => {
            let ocsp = eku_ocsp_signing();
            if bytes_eq(required.oid_value.as_slice(), ocsp.oid_value.as_slice()) {
                Err(Error::RequiredEKUNotFound)
            } else {
                Ok(())
            }
        },
    }
}

/// The issuer-independent checks on one certificate: its validity window
/// contains the instant, its BasicConstraints are consistent with its
/// use, and its ExtendedKeyUsage permits the required purpose.
pub open spec fn spec_check_issuer_independent_properties(
    cert: CertView,
    t: int,
    used_as_ca: bool,
    sub_ca_count: int,
    required: Seq<u8>,
) -> Result<(), Error> {
    match spec_check_validity(cert.validity, t) {
        Err(e) => Err(e),
        Ok(u) => match spec_check_basic_constraints(
            cert.basic_constraints,
            used_as_ca,
            sub_ca_count,
        ) {
            Err(e) => Err(e),
            Ok(u2) => spec_check_eku(cert.eku, used_as_ca, required),
        },
    }
}

fn check_issuer_independent_properties(
    cert: &Cert,
    time: Time,
    used_as_ca: UsedAsCA,
    sub_ca_count: usize,
    required_eku_if_present: &KeyPurposeId,
) -> (r: Result<(), Error>)
    ensures
        r == spec_check_issuer_independent_properties(
            cert@,
            time.0 as int,
            used_as_ca matches UsedAsCA::Yes,
            sub_ca_count as int,
            required_eku_if_present@,
        ),
{
    match check_validity(cert.validity, time) {
        Ok(u) => u,
        Err(e) => { return Err(e); },
    };
    match check_basic_constraints(cert.basic_constraints, used_as_ca, sub_ca_count) {
        Ok(u) => u,
        Err(e) => { return Err(e); },
    };
    check_eku(cert.eku, used_as_ca, required_eku_if_present)
}

/// The spec-level image of a chain of parsed certificates.
pub open spec fn certs_view(s: Seq<Cert>) -> Seq<CertView> {
    s.map_values(|c: Cert| c@)
}

/// The outcome of verifying the signatures of the chain entries `0..=i`
/// from the top down: entry `i` under `spki`, and each entry below
/// under the SubjectPublicKeyInfo of the entry above it.
pub open spec fn spec_check_signatures(
    supported: Seq<SignatureAlgorithm>,
    chain: Seq<CertView>,
    spki: Seq<u8>,
    i: int,
) -> Result<(), Error>
    decreases i + 1,
{
    if i < 0 {
        Ok(())
    } else {
        match spec_verify_signed_data(supported, spki, chain[i].signed_data) {
            Err(e) => Err(e),
            Ok(u) => spec_check_signatures(supported, chain, chain[i].spki, i - 1),
        }
    }
}

fn check_signatures(
    supported_sig_algs: &[SignatureAlgorithm],
    chain: &Vec<Cert>,
    trust_anchor_key: &[u8],
) -> (r: Result<(), Error>)
    requires
        chain@.len() >= 1,
    ensures
        r == spec_check_signatures(
            supported_sig_algs@,
            certs_view(chain@),
            trust_anchor_key@,
            chain@.len() - 1,
        ),
{
    let mut i: usize = chain.len();
    let mut res: Result<(), Error> = Ok(());
    while i > 0
        invariant
            0 <= i <= chain@.len(),
            res matches Ok(u),
            i == chain@.len() ==> spec_check_signatures(
                supported_sig_algs@,
                certs_view(chain@),
                trust_anchor_key@,
                chain@.len() - 1,
            ) == spec_check_signatures(
                supported_sig_algs@,
                certs_view(chain@),
                trust_anchor_key@,
                i - 1,
            ),
            i < chain@.len() ==> spec_check_signatures(
                supported_sig_algs@,
                certs_view(chain@),
                trust_anchor_key@,
                chain@.len() - 1,
            ) == spec_check_signatures(
                supported_sig_algs@,
                certs_view(chain@),
                chain@[i as int].spki@,
                i - 1,
            ),
        decreases i,
    {
        let idx: usize = i - 1;
        let cert: &Cert = &chain[idx];
        proof {
            assert(certs_view(chain@)[idx as int] == chain@[idx as int]@);
        }
        let spki_value: &[u8] = if idx + 1 == chain.len() {
            trust_anchor_key
        } else {
            chain[idx + 1].spki
        };
        match verify_signed_data(supported_sig_algs, spki_value, &cert.signed_data) {
            Ok(u) => u,
            Err(e) => { return Err(e); },
        };
        i = idx;
    }
    res
}

/// Whether the certificate's place in the chain makes it a CA.
pub open spec fn spec_used_as_ca(c: Cert) -> bool {
    c.ee_or_ca matches EndEntityOrCA::CA
}

/// The SubjectPublicKeyInfo values of the trust anchors.
pub open spec fn anchor_spkis<'a>(s: Seq<TrustAnchor<'a>>) -> Seq<Seq<u8>> {
    s.map_values(|t: TrustAnchor<'a>| t.spki@)
}

/// Whether `prefix` extends to a chain whose signatures all verify,
/// from some trust anchor's key at the top down to `prefix[0]`.
pub open spec fn spec_some_verified_chain(
    supported: Seq<SignatureAlgorithm>,
    anchor_keys: Seq<Seq<u8>>,
    prefix: Seq<CertView>,
) -> bool {
    exists|tail: Seq<CertView>, a: int|
        0 <= a < anchor_keys.len() && spec_check_signatures(
            supported,
            prefix + tail,
            anchor_keys[a],
            prefix.len() + tail.len() - 1,
        ) is Ok
}

proof fn lemma_chain_direct<'a>(
    supported: Seq<SignatureAlgorithm>,
    anchors: Seq<TrustAnchor<'a>>,
    prefix: Seq<CertView>,
    a: int,
)
    requires
        0 <= a < anchors.len(),
        spec_check_signatures(supported, prefix, anchors[a].spki@, prefix.len() - 1) is Ok,
    ensures
        spec_some_verified_chain(supported, anchor_spkis(anchors), prefix),
{
    assert(prefix + Seq::<CertView>::empty() =~= prefix);
    assert(anchor_spkis(anchors)[a] == anchors[a].spki@);
    assert(exists|tail: Seq<CertView>, aa: int|
        0 <= aa < anchor_spkis(anchors).len() && spec_check_signatures(
            supported,
            prefix + tail,
            anchor_spkis(anchors)[aa],
            prefix.len() + tail.len() - 1,
        ) is Ok) by {
        assert(0 <= a < anchor_spkis(anchors).len() && spec_check_signatures(
            supported,
            prefix + Seq::<CertView>::empty(),
            anchor_spkis(anchors)[a],
            prefix.len() + Seq::<CertView>::empty().len() - 1,
        ) is Ok);
    };
}

proof fn lemma_chain_extend(
    supported: Seq<SignatureAlgorithm>,
    anchor_keys: Seq<Seq<u8>>,
    prefix: Seq<CertView>,
    p: CertView,
)
    requires
        spec_some_verified_chain(supported, anchor_keys, prefix.push(p)),
    ensures
        spec_some_verified_chain(supported, anchor_keys, prefix),
{
    let (tail0, a0): (Seq<CertView>, int) = choose|tail: Seq<CertView>, a: int|
        0 <= a < anchor_keys.len() && spec_check_signatures(
            supported,
            prefix.push(p) + tail,
            anchor_keys[a],
            prefix.push(p).len() + tail.len() - 1,
        ) is Ok;
    assert(prefix.push(p) + tail0 =~= prefix + (seq![p] + tail0));
    assert(exists|tail: Seq<CertView>, a: int|
        0 <= a < anchor_keys.len() && spec_check_signatures(
            supported,
            prefix + tail,
            anchor_keys[a],
            prefix.len() + tail.len() - 1,
        ) is Ok) by {
        assert(0 <= a0 < anchor_keys.len() && spec_check_signatures(
            supported,
            prefix + (seq![p] + tail0),
            anchor_keys[a0],
            prefix.len() + (seq![p] + tail0).len() - 1,
        ) is Ok);
    };
}

/// The byte views of the caller's intermediate certificates.
pub open spec fn ders_view(s: Seq<&[u8]>) -> Seq<Seq<u8>> {
    s.map_values(|d: &[u8]| d@)
}

/// Whether trust anchor `a` vouches for the chain as it stands: its
/// subject equals the current certificate's issuer byte-for-byte, its
/// name constraints (if any) accept that certificate, and every
/// signature of the chain verifies, the topmost under the anchor's key.
pub open spec fn spec_anchor_accepts<'a>(
    supported: Seq<SignatureAlgorithm>,
    anchors: Seq<TrustAnchor<'a>>,
    chain: Seq<CertView>,
    a: int,
) -> bool {
    &&& chain.last().issuer == anchors[a].subject@
    &&& crate::name::spec_check_name_constraints(
        crate::cert::view_opt(anchors[a].name_constraints),
        chain.last(),
    ) is Ok
    &&& spec_check_signatures(supported, chain, anchors[a].spki@, chain.len() - 1) is Ok
}

/// Whether some trust anchor vouches for the chain as it stands.
pub open spec fn spec_some_anchor_accepts<'a>(
    supported: Seq<SignatureAlgorithm>,
    anchors: Seq<TrustAnchor<'a>>,
    chain: Seq<CertView>,
) -> bool {
    exists|a: int|
        0 <= a < anchors.len() && #[trigger] spec_anchor_accepts(supported, anchors, chain, a)
}

/// Whether a certificate with `m`'s subject and key already stands in
/// the chain: the loop-prevention rule.
pub open spec fn spec_in_chain(chain: Seq<CertView>, m: CertView) -> bool {
    exists|k: int|
        0 <= k < chain.len() && (#[trigger] chain[k]).spki == m.spki && chain[k].subject
            == m.subject
}

/// The walk's termination measure: how many more certificates can be
/// stacked before the sub-CA ceiling is reached.
pub open spec fn spec_chain_measure(used_as_ca: bool, count: int) -> int {
    if !used_as_ca {
        8
    } else if count < 0 {
        7
    } else if count > 6 {
        0
    } else {
        7 - count
    }
}

/// The outcome of the chain walk with the stack `chain` (the end-entity
/// first), whose last certificate is used as `used_as_ca` says with
/// `count` sub-CAs accumulated below it: the issuer-independent checks
/// run first; a used-as-CA hop at the ceiling fails with
/// `UnknownIssuer`; then the trust anchors are tried, then each
/// intermediate in turn, and only when every candidate fails does
/// `UnknownIssuer` surface.  This is a function of the inputs alone:
/// the walk's outcome is deterministic.
pub open spec fn spec_build_chain<'a>(
    required: Seq<u8>,
    supported: Seq<SignatureAlgorithm>,
    anchors: Seq<TrustAnchor<'a>>,
    inters: Seq<Seq<u8>>,
    chain: Seq<CertView>,
    used_as_ca: bool,
    count: int,
    t: int,
) -> Result<(), Error>
    decreases spec_chain_measure(used_as_ca, count), 2int, 0int,
{
    match spec_check_issuer_independent_properties(chain.last(), t, used_as_ca, count, required) {
        Err(e) => Err(e),
        Ok(u) => if used_as_ca && count >= MAX_SUB_CA_COUNT as int {
            Err(Error::UnknownIssuer)
        } else if spec_some_anchor_accepts(supported, anchors, chain) {
            Ok(())
        } else {
            spec_try_intermediates(required, supported, anchors, inters, chain, used_as_ca, count, t, 0)
        },
    }
}

/// The outcome of trying the intermediates from index `j` on: the first
/// whole candidate that succeeds wins; exhaustion is `UnknownIssuer`.
pub open spec fn spec_try_intermediates<'a>(
    required: Seq<u8>,
    supported: Seq<SignatureAlgorithm>,
    anchors: Seq<TrustAnchor<'a>>,
    inters: Seq<Seq<u8>>,
    chain: Seq<CertView>,
    used_as_ca: bool,
    count: int,
    t: int,
    j: int,
) -> Result<(), Error>
    decreases spec_chain_measure(used_as_ca, count), 1int, inters.len() - j,
{
    if j < 0 || j >= inters.len() {
        Err(Error::UnknownIssuer)
    } else if spec_candidate_ok(
        required,
        supported,
        anchors,
        inters,
        chain,
        used_as_ca,
        count,
        t,
        inters[j],
    ) {
        Ok(())
    } else {
        spec_try_intermediates(
            required,
            supported,
            anchors,
            inters,
            chain,
            used_as_ca,
            count,
            t,
            j + 1,
        )
    }
}

/// Whether the candidate DER `cand` leads the walk to success: it
/// parses, its subject equals the current certificate's issuer, it is
/// not already an ancestor by (subject, SPKI), its name constraints (if
/// any) accept the current certificate, and the walk continued with it
/// on the stack succeeds.
pub open spec fn spec_candidate_ok<'a>(
    required: Seq<u8>,
    supported: Seq<SignatureAlgorithm>,
    anchors: Seq<TrustAnchor<'a>>,
    inters: Seq<Seq<u8>>,
    chain: Seq<CertView>,
    used_as_ca: bool,
    count: int,
    t: int,
    cand: Seq<u8>,
) -> bool
    decreases spec_chain_measure(used_as_ca, count), 0int, 0int,
{
    match spec_parse_cert(cand) {
        Err(e) => false,
        Ok(m) => {
            let next_count = if used_as_ca {
                count + 1
            } else {
                count
            };
            if m.subject == chain.last().issuer && !spec_in_chain(chain, m)
                && crate::name::spec_check_name_constraints(m.name_constraints, chain.last()) is Ok
                && 0 <= count && next_count <= MAX_SUB_CA_COUNT as int {
                spec_build_chain(
                    required,
                    supported,
                    anchors,
                    inters,
                    chain.push(m),
                    true,
                    next_count,
                    t,
                ) is Ok
            } else {
                false
            }
        },
    }
}

/// Whether the two instants agree on the candidate's validity window:
/// either it does not parse, or its validity check has the same outcome
/// at both.
pub open spec fn spec_candidate_time_agnostic(cand: Seq<u8>, t1: int, t2: int) -> bool {
    match spec_parse_cert(cand) {
        Ok(m) => spec_check_validity(m.validity, t1) == spec_check_validity(m.validity, t2),
        Err(e) => true,
    }
}

/// Time enters the chain walk only through the per-certificate validity
/// windows: at two instants on which the current certificate's and
/// every parseable intermediate's validity checks agree, the walk's
/// outcome is identical.  In particular, success at one instant extends
/// to every instant inside the windows of all certificates involved.
pub proof fn lemma_build_chain_time_consistent<'a>(
    required: Seq<u8>,
    supported: Seq<SignatureAlgorithm>,
    anchors: Seq<TrustAnchor<'a>>,
    inters: Seq<Seq<u8>>,
    chain: Seq<CertView>,
    used_as_ca: bool,
    count: int,
    t1: int,
    t2: int,
)
    requires
        spec_check_validity(chain.last().validity, t1) == spec_check_validity(
            chain.last().validity,
            t2,
        ),
        forall|j: int|
            0 <= j < inters.len() ==> #[trigger] spec_candidate_time_agnostic(inters[j], t1, t2),
    ensures
        spec_build_chain(required, supported, anchors, inters, chain, used_as_ca, count, t1)
            == spec_build_chain(required, supported, anchors, inters, chain, used_as_ca, count, t2),
    decreases spec_chain_measure(used_as_ca, count), 2int, 0int,
{
    assert(spec_check_issuer_independent_properties(chain.last(), t1, used_as_ca, count, required)
        == spec_check_issuer_independent_properties(
        chain.last(),
        t2,
        used_as_ca,
        count,
        required,
    ));
    lemma_try_intermediates_time_consistent(
        required,
        supported,
        anchors,
        inters,
        chain,
        used_as_ca,
        count,
        t1,
        t2,
        0,
    );
}

proof fn lemma_try_intermediates_time_consistent<'a>(
    required: Seq<u8>,
    supported: Seq<SignatureAlgorithm>,
    anchors: Seq<TrustAnchor<'a>>,
    inters: Seq<Seq<u8>>,
    chain: Seq<CertView>,
    used_as_ca: bool,
    count: int,
    t1: int,
    t2: int,
    j: int,
)
    requires
        forall|k: int|
            0 <= k < inters.len() ==> #[trigger] spec_candidate_time_agnostic(inters[k], t1, t2),
    ensures
        spec_try_intermediates(required, supported, anchors, inters, chain, used_as_ca, count, t1, j)
            == spec_try_intermediates(
            required,
            supported,
            anchors,
            inters,
            chain,
            used_as_ca,
            count,
            t2,
            j,
        ),
    decreases spec_chain_measure(used_as_ca, count), 1int, inters.len() - j,
{
    if 0 <= j < inters.len() {
        lemma_candidate_time_consistent(
            required,
            supported,
            anchors,
            inters,
            chain,
            used_as_ca,
            count,
            t1,
            t2,
            inters[j],
        );
        lemma_try_intermediates_time_consistent(
            required,
            supported,
            anchors,
            inters,
            chain,
            used_as_ca,
            count,
            t1,
            t2,
            j + 1,
        );
    }
}

proof fn lemma_candidate_time_consistent<'a>(
    required: Seq<u8>,
    supported: Seq<SignatureAlgorithm>,
    anchors: Seq<TrustAnchor<'a>>,
    inters: Seq<Seq<u8>>,
    chain: Seq<CertView>,
    used_as_ca: bool,
    count: int,
    t1: int,
    t2: int,
    cand: Seq<u8>,
)
    requires
        spec_candidate_time_agnostic(cand, t1, t2),
        forall|k: int|
            0 <= k < inters.len() ==> #[trigger] spec_candidate_time_agnostic(inters[k], t1, t2),
    ensures
        spec_candidate_ok(required, supported, anchors, inters, chain, used_as_ca, count, t1, cand)
            == spec_candidate_ok(
            required,
            supported,
            anchors,
            inters,
            chain,
            used_as_ca,
            count,
            t2,
            cand,
        ),
    decreases spec_chain_measure(used_as_ca, count), 0int, 0int,
{
    match spec_parse_cert(cand) {
        Err(e) => {},
        Ok(m) => {
            let next_count = if used_as_ca {
                count + 1
            } else {
                count
            };
            if m.subject == chain.last().issuer && !spec_in_chain(chain, m)
                && crate::name::spec_check_name_constraints(m.name_constraints, chain.last()) is Ok
                && 0 <= count && next_count <= MAX_SUB_CA_COUNT as int {
                assert(chain.push(m).last() == m);
                lemma_build_chain_time_consistent(
                    required,
                    supported,
                    anchors,
                    inters,
                    chain.push(m),
                    true,
                    next_count,
                    t1,
                    t2,
                );
            }
        },
    }
}

#[verifier::rlimit(100)]
fn build_chain_step<'a>(
    required_eku_if_present: &KeyPurposeId,
    supported_sig_algs: &[SignatureAlgorithm],
    trust_anchors: &[TrustAnchor],
    intermediate_certs: &[&'a [u8]],
    chain: &mut Vec<Cert<'a>>,
    time: Time,
    sub_ca_count: usize,
) -> (r: Result<(), Error>)
    requires
        old(chain)@.len() >= 1,
        !spec_used_as_ca(old(chain)@.last()) ==> sub_ca_count == 0,
    ensures
        final(chain)@ == old(chain)@,
        r == spec_build_chain(
            required_eku_if_present@,
            supported_sig_algs@,
            trust_anchors@,
            ders_view(intermediate_certs@),
            certs_view(old(chain)@),
            spec_used_as_ca(old(chain)@.last()),
            sub_ca_count as int,
            time.0 as int,
        ),
        r matches Ok(u4) ==> spec_some_verified_chain(
            supported_sig_algs@,
            anchor_spkis(trust_anchors@),
            certs_view(old(chain)@),
        ),
    decreases spec_chain_measure(spec_used_as_ca(chain@.last()), sub_ca_count as int), 1int,
{
    let cert_idx: usize = chain.len() - 1;
    let cert: Cert<'a> = chain[cert_idx];
    proof {
        assert(cert == old(chain)@.last());
        assert(certs_view(old(chain)@).last() == cert@);
    }
    let used_as_ca_v = used_as_ca(&cert.ee_or_ca);
    match check_issuer_independent_properties(
        &cert,
        time,
        used_as_ca_v,
        sub_ca_count,
        required_eku_if_present,
    ) {
        Ok(u) => u,
        Err(e) => { return Err(e); },
    };
    match used_as_ca_v {
        UsedAsCA::Yes => {
            if sub_ca_count >= MAX_SUB_CA_COUNT {
                return Err(Error::UnknownIssuer);
            }
        },
        UsedAsCA::No => {},
    }
    // Try the trust anchors first.
    let na: usize = trust_anchors.len();
    let mut ai: usize = 0;
    while ai < na
        invariant
            0 <= ai <= na,
            na == trust_anchors@.len(),
            chain@ == old(chain)@,
            chain@.len() >= 1,
            cert == old(chain)@.last(),
            certs_view(old(chain)@).last() == cert@,
            spec_check_issuer_independent_properties(
                cert@,
                time.0 as int,
                spec_used_as_ca(cert),
                sub_ca_count as int,
                required_eku_if_present@,
            ) matches Ok(u),
            !(spec_used_as_ca(cert) && sub_ca_count >= MAX_SUB_CA_COUNT),
            forall|a: int|
                0 <= a < ai ==> !spec_anchor_accepts(
                    supported_sig_algs@,
                    trust_anchors@,
                    certs_view(old(chain)@),
                    a,
                ),
        decreases na - ai,
    {
        let anchor: &TrustAnchor = slice_index_get(trust_anchors, ai);
        let mut accepted: bool = bytes_eq(cert.issuer, anchor.subject);
        if accepted {
            accepted = check_name_constraints(anchor.name_constraints, &cert).is_ok();
        }
        if accepted {
            accepted = check_signatures(supported_sig_algs, chain, anchor.spki).is_ok();
        }
        if accepted {
            proof {
                lemma_chain_direct(
                    supported_sig_algs@,
                    trust_anchors@,
                    certs_view(old(chain)@),
                    ai as int,
                );
                assert(spec_anchor_accepts(
                    supported_sig_algs@,
                    trust_anchors@,
                    certs_view(old(chain)@),
                    ai as int,
                ));
                assert(spec_some_anchor_accepts(
                    supported_sig_algs@,
                    trust_anchors@,
                    certs_view(old(chain)@),
                )) by {
                    assert(0 <= (ai as int) < trust_anchors@.len() && spec_anchor_accepts(
                        supported_sig_algs@,
                        trust_anchors@,
                        certs_view(old(chain)@),
                        ai as int,
                    ));
                };
            }
            return Ok(());
        }
        proof {
            assert(!spec_anchor_accepts(
                supported_sig_algs@,
                trust_anchors@,
                certs_view(old(chain)@),
                ai as int,
            ));
        }
        ai = ai + 1;
    }
    proof {
        assert(!spec_some_anchor_accepts(
            supported_sig_algs@,
            trust_anchors@,
            certs_view(old(chain)@),
        ));
    }
    // Otherwise try the intermediates, recursing on each candidate whose
    // subject matches and which is not already an ancestor.
    let ni: usize = intermediate_certs.len();
    let mut ii: usize = 0;
    while ii < ni
        invariant
            0 <= ii <= ni,
            ni == intermediate_certs@.len(),
            chain@ == old(chain)@,
            chain@.len() >= 1,
            cert == old(chain)@.last(),
            certs_view(old(chain)@).last() == cert@,
            (used_as_ca_v matches UsedAsCA::Yes) <==> spec_used_as_ca(cert),
            !spec_used_as_ca(cert) ==> sub_ca_count == 0,
            spec_check_issuer_independent_properties(
                cert@,
                time.0 as int,
                spec_used_as_ca(cert),
                sub_ca_count as int,
                required_eku_if_present@,
            ) matches Ok(u),
            !(spec_used_as_ca(cert) && sub_ca_count >= MAX_SUB_CA_COUNT),
            !spec_some_anchor_accepts(
                supported_sig_algs@,
                trust_anchors@,
                certs_view(old(chain)@),
            ),
            spec_try_intermediates(
                required_eku_if_present@,
                supported_sig_algs@,
                trust_anchors@,
                ders_view(intermediate_certs@),
                certs_view(old(chain)@),
                spec_used_as_ca(cert),
                sub_ca_count as int,
                time.0 as int,
                0,
            ) == spec_try_intermediates(
                required_eku_if_present@,
                supported_sig_algs@,
                trust_anchors@,
                ders_view(intermediate_certs@),
                certs_view(old(chain)@),
                spec_used_as_ca(cert),
                sub_ca_count as int,
                time.0 as int,
                ii as int,
            ),
        decreases ni - ii,
    {
        let der: &'a [u8] = *slice_index_get(intermediate_certs, ii);
        proof {
            assert(ders_view(intermediate_certs@)[ii as int] == der@);
        }
        let hit = try_intermediate(
            required_eku_if_present,
            supported_sig_algs,
            trust_anchors,
            intermediate_certs,
            chain,
            time,
            sub_ca_count,
            der,
        );
        if hit {
            return Ok(());
        }
        ii = ii + 1;
    }
    Err(Error::UnknownIssuer)
}

/// Tries one intermediate candidate for the top of the chain: parses
/// it, requires its subject to equal the current certificate's issuer,
/// rejects it when already an ancestor by (subject, SPKI), applies its
/// name constraints, and recurses with it on the stack.  Returns
/// whether the whole walk through this candidate succeeded.
fn try_intermediate<'a>(
    required_eku_if_present: &KeyPurposeId,
    supported_sig_algs: &[SignatureAlgorithm],
    trust_anchors: &[TrustAnchor],
    intermediate_certs: &[&'a [u8]],
    chain: &mut Vec<Cert<'a>>,
    time: Time,
    sub_ca_count: usize,
    cand: &'a [u8],
) -> (r: bool)
    requires
        old(chain)@.len() >= 1,
        !spec_used_as_ca(old(chain)@.last()) ==> sub_ca_count == 0,
        spec_used_as_ca(old(chain)@.last()) ==> sub_ca_count < MAX_SUB_CA_COUNT,
    ensures
        final(chain)@ == old(chain)@,
        r == spec_candidate_ok(
            required_eku_if_present@,
            supported_sig_algs@,
            trust_anchors@,
            ders_view(intermediate_certs@),
            certs_view(old(chain)@),
            spec_used_as_ca(old(chain)@.last()),
            sub_ca_count as int,
            time.0 as int,
            cand@,
        ),
        r ==> spec_some_verified_chain(
            supported_sig_algs@,
            anchor_spkis(trust_anchors@),
            certs_view(old(chain)@),
        ),
    decreases spec_chain_measure(spec_used_as_ca(chain@.last()), sub_ca_count as int), 0int,
{
    let potential_issuer: Cert<'a> = match parse_cert(cand, EndEntityOrCA::CA) {
        Err(_) => { return false; },
        Ok(c) => c,
    };
    let cert_idx: usize = chain.len() - 1;
    let cert: Cert<'a> = chain[cert_idx];
    proof {
        assert(cert == old(chain)@.last());
        assert(certs_view(old(chain)@).last() == cert@);
    }
    if !bytes_eq(potential_issuer.subject, cert.issuer) {
        return false;
    }
    // Prevent loops: reject a candidate already in the chain by its
    // (subject, SPKI) pair.
    let nk: usize = chain.len();
    let mut k: usize = 0;
    let mut already: bool = false;
    while k < nk
        invariant
            0 <= k <= nk,
            nk == chain@.len(),
            chain@ == old(chain)@,
            !already ==> (forall|t2: int|
                0 <= t2 < k ==> !((#[trigger] certs_view(chain@)[t2]).spki
                    == potential_issuer@.spki && certs_view(chain@)[t2].subject
                    == potential_issuer@.subject)),
            already ==> spec_in_chain(certs_view(chain@), potential_issuer@),
        decreases nk - k,
    {
        let prev: Cert = chain[k];
        proof {
            assert(certs_view(chain@)[k as int] == prev@);
        }
        if bytes_eq(potential_issuer.spki, prev.spki) && bytes_eq(
            potential_issuer.subject,
            prev.subject,
        ) {
            already = true;
            proof {
                assert(spec_in_chain(certs_view(chain@), potential_issuer@)) by {
                    assert(0 <= (k as int) < certs_view(chain@).len() && (certs_view(
                        chain@,
                    )[k as int]).spki == potential_issuer@.spki && certs_view(chain@)[k as int].subject
                        == potential_issuer@.subject);
                };
            }
        }
        k = k + 1;
    }
    if already {
        return false;
    }
    proof {
        assert(!spec_in_chain(certs_view(old(chain)@), potential_issuer@));
    }
    let nc_ok = check_name_constraints(potential_issuer.name_constraints, &cert);
    if !nc_ok.is_ok() {
        return false;
    }
    let next_sub_ca_count: usize = match used_as_ca(&cert.ee_or_ca) {
        UsedAsCA::No => sub_ca_count,
        UsedAsCA::Yes => sub_ca_count + 1,
    };
    chain.push(potential_issuer);
    let res = build_chain_step(
        required_eku_if_present,
        supported_sig_algs,
        trust_anchors,
        intermediate_certs,
        chain,
        time,
        next_sub_ca_count,
    );
    let _popped = chain.pop();
    proof {
        assert(chain@ =~= old(chain)@);
        assert(certs_view(old(chain)@.push(potential_issuer)) =~= certs_view(old(chain)@).push(
            potential_issuer@,
        ));
    }
    if res.is_ok() {
        proof {
            lemma_chain_extend(
                supported_sig_algs@,
                anchor_spkis(trust_anchors@),
                certs_view(old(chain)@),
                potential_issuer@,
            );
        }
        true
    } else {
        false
    }
}

/// Builds and verifies a chain from `cert` up to one of the trust
/// anchors, walking the caller's intermediates depth-first, enforcing
/// the issuer-independent rules and the fixed sub-CA ceiling at every
/// hop, and verifying signatures end-to-end on the accepted path.  Every
/// per-candidate failure is non-fatal; only when every candidate is
/// exhausted does the search surface `UnknownIssuer`.  The result is
/// exactly [`spec_build_chain`] of the inputs: success is owed whenever
/// the walk the spec describes succeeds, and the walk is deterministic.
pub fn build_chain<'a>(
    required_eku_if_present: &KeyPurposeId,
    supported_sig_algs: &[SignatureAlgorithm],
    trust_anchors: &[TrustAnchor],
    intermediate_certs: &[&'a [u8]],
    cert: &Cert<'a>,
    time: Time,
    sub_ca_count: usize,
) -> (r: Result<(), Error>)
    requires
        !spec_used_as_ca(*cert) ==> sub_ca_count == 0,
    ensures
        r matches Ok(u) ==> spec_check_issuer_independent_properties(
            cert@,
            time.0 as int,
            spec_used_as_ca(*cert),
            sub_ca_count as int,
            required_eku_if_present@,
        ) matches Ok(u2),
        (spec_used_as_ca(*cert) && sub_ca_count >= MAX_SUB_CA_COUNT) ==> r matches Err(e2),
        (spec_used_as_ca(*cert) && sub_ca_count >= MAX_SUB_CA_COUNT
            && spec_check_issuer_independent_properties(
            cert@,
            time.0 as int,
            true,
            sub_ca_count as int,
            required_eku_if_present@,
        ) matches Ok(u3)) ==> r == Err::<(), Error>(Error::UnknownIssuer),
        r matches Ok(u4) ==> spec_some_verified_chain(
            supported_sig_algs@,
            anchor_spkis(trust_anchors@),
            seq![cert@],
        ),
        r == spec_build_chain(
            required_eku_if_present@,
            supported_sig_algs@,
            trust_anchors@,
            ders_view(intermediate_certs@),
            seq![cert@],
            spec_used_as_ca(*cert),
            sub_ca_count as int,
            time.0 as int,
        ),
{
    let mut chain: Vec<Cert<'a>> = Vec::new();
    chain.push(*cert);
    let r = build_chain_step(
        required_eku_if_present,
        supported_sig_algs,
        trust_anchors,
        intermediate_certs,
        &mut chain,
        time,
        sub_ca_count,
    );
    proof {
        assert(certs_view(chain@) =~= seq![cert@]);
    }
    r
}

} // verus!
