//! Parsing of a DER-encoded X.509 v3 certificate into the sub-slices that
//! validation needs.
//!
//! Every retained field of a [`Cert`] is a sub-slice of the input, and the
//! whole parse is specified by [`spec_parse_cert`], a function of the input
//! bytes alone.

use vstd::prelude::*;
use vstd::slice::slice_subrange;
use crate::Error;
use crate::der::{
    Reader, bit_string_with_no_unused_bits, bytes_eq, expect_tag_and_get_value, optional_boolean,
    positive_integer, read_tag_and_get_value, small_nonnegative_integer, spec_bit_string_with_no_unused_bits,
    spec_expect_tlv, spec_optional_boolean, spec_positive_integer, spec_read_tlv,
    spec_small_nonnegative_integer, TAG_CONTEXT_CONSTRUCTED_0, TAG_CONTEXT_CONSTRUCTED_3,
    TAG_OCTET_STRING, TAG_OID, TAG_SEQUENCE,
};

verus! {

/// How a certificate is being used in the chain under construction:
/// as the end-entity at the bottom, or as a CA issuing the certificate
/// below it.
#[derive(Clone, Copy, Debug, PartialEq, Eq, Structural)]
pub enum EndEntityOrCA {
    /// The certificate at the bottom of the chain.
    EndEntity,
    /// A certificate being used to issue the one below it in the chain.
    CA,
}

/// The three parts needed to verify a certificate's own signature under
/// its issuer's public key.
#[derive(Clone, Copy)]
pub struct SignedData<'a> {
    /// The complete TBSCertificate element, the bytes that were signed.
    pub data: &'a [u8],
    /// The contents of the outer signature AlgorithmIdentifier.
    pub algorithm: &'a [u8],
    /// The signature bits, with no unused bits.
    pub signature: &'a [u8],
}

/// The spec-level image of a [`SignedData`].
pub struct SignedDataView {
    /// The complete TBSCertificate element.
    pub data: Seq<u8>,
    /// The contents of the outer signature AlgorithmIdentifier.
    pub algorithm: Seq<u8>,
    /// The signature bits.
    pub signature: Seq<u8>,
}

impl<'a> View for SignedData<'a> {
    type V = SignedDataView;

    open spec fn view(&self) -> SignedDataView {
        SignedDataView { data: self.data@, algorithm: self.algorithm@, signature: self.signature@ }
    }
}

/// A parsed certificate: the sub-slices of the input that validation
/// reads later.  Immutable once built.
#[derive(Clone, Copy)]
pub struct Cert<'a> {
    /// How this certificate is used in the chain being built.
    pub ee_or_ca: EndEntityOrCA,
    /// What is needed to verify this certificate's signature.
    pub signed_data: SignedData<'a>,
    /// The contents of the issuer Name.
    pub issuer: &'a [u8],
    /// The contents of the subject Name.
    pub subject: &'a [u8],
    /// The contents of the SubjectPublicKeyInfo.
    pub spki: &'a [u8],
    /// The contents of the validity SEQUENCE: notBefore then notAfter.
    pub validity: &'a [u8],
    /// The contents of the BasicConstraints extension, if present.
    pub basic_constraints: Option<&'a [u8]>,
    /// The contents of the ExtendedKeyUsage extension, if present.
    pub eku: Option<&'a [u8]>,
    /// The contents of the NameConstraints extension, if present.
    pub name_constraints: Option<&'a [u8]>,
    /// The contents of the SubjectAltName extension, if present.
    pub subject_alt_name: Option<&'a [u8]>,
}

/// The spec-level image of a [`Cert`], without the usage marker.
pub struct CertView {
    /// What is needed to verify this certificate's signature.
    pub signed_data: SignedDataView,
    /// The contents of the issuer Name.
    pub issuer: Seq<u8>,
    /// The contents of the subject Name.
    pub subject: Seq<u8>,
    /// The contents of the SubjectPublicKeyInfo.
    pub spki: Seq<u8>,
    /// The contents of the validity SEQUENCE.
    pub validity: Seq<u8>,
    /// The contents of the BasicConstraints extension, if present.
    pub basic_constraints: Option<Seq<u8>>,
    /// The contents of the ExtendedKeyUsage extension, if present.
    pub eku: Option<Seq<u8>>,
    /// The contents of the NameConstraints extension, if present.
    pub name_constraints: Option<Seq<u8>>,
    /// The contents of the SubjectAltName extension, if present.
    pub subject_alt_name: Option<Seq<u8>>,
}

/// The spec-level image of an `Option` of a sub-slice.
pub open spec fn view_opt(o: Option<&[u8]>) -> Option<Seq<u8>> {
    match o {
        Some(v) => Some(v@),
        None => None,
    }
}

impl<'a> View for Cert<'a> {
    type V = CertView;

    open spec fn view(&self) -> CertView {
        CertView {
            signed_data: self.signed_data@,
            issuer: self.issuer@,
            subject: self.subject@,
            spki: self.spki@,
            validity: self.validity@,
            basic_constraints: view_opt(self.basic_constraints),
            eku: view_opt(self.eku),
            name_constraints: view_opt(self.name_constraints),
            subject_alt_name: view_opt(self.subject_alt_name),
        }
    }
}

/// The signed-data triple of the certificate body `c`: the TBS element,
/// the outer algorithm, and the signature bits, together with the TBS
/// value for further parsing.  The three elements must fill `c` exactly.
pub open spec fn spec_parse_signed_data(c: Seq<u8>) -> Result<(Seq<u8>, SignedDataView), Error> {
    match spec_expect_tlv(c, 0, TAG_SEQUENCE) {
        None => Err(Error::BadDER),
        Some((ts, te)) => match spec_expect_tlv(c, te, TAG_SEQUENCE) {
            None => Err(Error::BadDER),
            Some((als, ale)) => match spec_bit_string_with_no_unused_bits(c, ale) {
                Err(e) => Err(e),
                Ok(((bs, be), np)) => if np != c.len() {
                    Err(Error::BadDER)
                } else {
                    Ok(
                        (
                            c.subrange(ts, te),
                            SignedDataView {
                                data: c.subrange(0, te),
                                algorithm: c.subrange(als, ale),
                                signature: c.subrange(bs, be),
                            },
                        ),
                    )
                },
            },
        },
    }
}

fn parse_signed_data<'a>(c: &'a [u8]) -> (r: Result<(&'a [u8], SignedData<'a>), Error>)
    ensures
        match spec_parse_signed_data(c@) {
            Ok(m) => {
                &&& r matches Ok(p)
                &&& p.0@ == m.0
                &&& p.1@ == m.1
            },
            Err(e) => r matches Err(a) && a == e,
        },
{
    let mut der = Reader::new(c);
    let tbs = match expect_tag_and_get_value(&mut der, TAG_SEQUENCE) {
        Ok(v) => v,
        Err(e) => { return Err(e); },
    };
    let data: &'a [u8] = slice_subrange(c, 0, der.pos);
    let algorithm = match expect_tag_and_get_value(&mut der, TAG_SEQUENCE) {
        Ok(v) => v,
        Err(e) => { return Err(e); },
    };
    let signature = match bit_string_with_no_unused_bits(&mut der) {
        Ok(v) => v,
        Err(e) => { return Err(e); },
    };
    if !der.at_end() {
        return Err(Error::BadDER);
    }
    Ok((tbs, SignedData { data, algorithm, signature }))
}

/// The position after the `[0]` explicit version field of `t`, which must
/// hold the integer 2 (X.509 v3); anything else, including an absent
/// field, is `UnsupportedCertVersion`.
pub open spec fn spec_version3(t: Seq<u8>) -> Result<int, Error> {
    match spec_expect_tlv(t, 0, TAG_CONTEXT_CONSTRUCTED_0) {
        None => Err(Error::UnsupportedCertVersion),
        Some((vs, ve)) => {
            let w = t.subrange(vs, ve);
            match spec_small_nonnegative_integer(w, 0) {
                Err(e) => Err(e),
                Ok((ver, np)) => if ver != 2 {
                    Err(Error::UnsupportedCertVersion)
                } else if np != w.len() {
                    Err(Error::UnsupportedCertVersion)
                } else {
                    Ok(ve)
                },
            }
        },
    }
}

fn version3(input: &mut Reader) -> (r: Result<(), Error>)
    requires
        old(input).pos == 0,
        old(input).wf(),
    ensures
        final(input).wf(),
        final(input).input@ == old(input).input@,
        match spec_version3(old(input).input@) {
            Ok(p) => r matches Ok(u) && final(input).pos == p,
            Err(e) => r matches Err(a) && a == e,
        },
{
    let value = match expect_tag_and_get_value(input, TAG_CONTEXT_CONSTRUCTED_0) {
        Ok(v) => v,
        Err(_) => { return Err(Error::UnsupportedCertVersion); },
    };
    let mut inner = Reader::new(value);
    let version = match small_nonnegative_integer(&mut inner) {
        Ok(v) => v,
        Err(e) => { return Err(e); },
    };
    if version != 2 {
        return Err(Error::UnsupportedCertVersion);
    }
    if !inner.at_end() {
        return Err(Error::UnsupportedCertVersion);
    }
    Ok(())
}

/// The position after an optional TLV bearing `tag` at `pos`: unchanged
/// where the next byte is not `tag`.
pub open spec fn spec_skip_optional_tag(t: Seq<u8>, pos: int, tag: u8) -> Result<int, Error> {
    if 0 <= pos < t.len() && t[pos] == tag {
        match spec_read_tlv(t, pos) {
            Some(x) => Ok(x.2),
            None => Err(Error::BadDER),
        }
    } else {
        Ok(pos)
    }
}

fn skip_optional_tag(input: &mut Reader, tag: u8) -> (r: Result<(), Error>)
    requires
        old(input).wf(),
    ensures
        final(input).wf(),
        final(input).input@ == old(input).input@,
        final(input).pos >= old(input).pos,
        match spec_skip_optional_tag(old(input).input@, old(input).pos as int, tag) {
            Ok(p) => r matches Ok(u) && final(input).pos == p,
            Err(e) => r matches Err(a) && a == e,
        },
{
    if input.peek(tag) {
        match read_tag_and_get_value(input) {
            Ok(_) => Ok(()),
            Err(e) => Err(e),
        }
    } else {
        Ok(())
    }
}

/// The recognized extensions gathered while walking the extensions list:
/// whether a KeyUsage was seen (its value is ignored by design), and the
/// unwrapped contents of the four retained extensions.
pub struct ExtAcc {
    /// Whether a KeyUsage extension has been seen.
    pub key_usage: bool,
    /// BasicConstraints contents, inside its SEQUENCE.
    pub basic_constraints: Option<Seq<u8>>,
    /// ExtendedKeyUsage contents, inside its SEQUENCE.
    pub eku: Option<Seq<u8>>,
    /// NameConstraints contents, inside its SEQUENCE.
    pub name_constraints: Option<Seq<u8>>,
    /// SubjectAltName contents, inside its SEQUENCE.
    pub subject_alt_name: Option<Seq<u8>>,
}

/// The empty accumulator: nothing seen yet.
pub open spec fn spec_ext_acc_empty() -> ExtAcc {
    ExtAcc {
        key_usage: false,
        basic_constraints: None,
        eku: None,
        name_constraints: None,
        subject_alt_name: None,
    }
}

struct ExtSlots<'a> {
    key_usage: bool,
    basic_constraints: Option<&'a [u8]>,
    eku: Option<&'a [u8]>,
    name_constraints: Option<&'a [u8]>,
    subject_alt_name: Option<&'a [u8]>,
}

impl<'a> View for ExtSlots<'a> {
    type V = ExtAcc;

    closed spec fn view(&self) -> ExtAcc {
        ExtAcc {
            key_usage: self.key_usage,
            basic_constraints: view_opt(self.basic_constraints),
            eku: view_opt(self.eku),
            name_constraints: view_opt(self.name_constraints),
            subject_alt_name: view_opt(self.subject_alt_name),
        }
    }
}

/// The contents of the extension value `value`, which must be exactly one
/// SEQUENCE: all the retained extensions are wrapped in one.
pub open spec fn spec_unwrap_seq(value: Seq<u8>) -> Result<Seq<u8>, Error> {
    match spec_expect_tlv(value, 0, TAG_SEQUENCE) {
        None => Err(Error::BadDER),
        Some((a, b)) => if b != value.len() {
            Err(Error::BadDER)
        } else {
            Ok(value.subrange(a, b))
        },
    }
}

fn unwrap_seq<'a>(value: &'a [u8]) -> (r: Result<&'a [u8], Error>)
    ensures
        match spec_unwrap_seq(value@) {
            Ok(m) => r matches Ok(v) && v@ == m,
            Err(e) => r matches Err(a) && a == e,
        },
{
    let mut inner = Reader::new(value);
    let v = match expect_tag_and_get_value(&mut inner, TAG_SEQUENCE) {
        Ok(v) => v,
        Err(e) => { return Err(e); },
    };
    if !inner.at_end() {
        return Err(Error::BadDER);
    }
    Ok(v)
}

/// The accumulator after one extension with the given OID, criticality,
/// and value.  A second occurrence of a recognized extension is
/// `ExtensionValueInvalid`; an unrecognized critical extension is
/// `UnsupportedCriticalExtension`; an unrecognized non-critical one is
/// ignored.
pub open spec fn spec_remember_extension(
    oid: Seq<u8>,
    critical: bool,
    value: Seq<u8>,
    acc: ExtAcc,
) -> Result<ExtAcc, Error> {
    if oid.len() == 3 && oid[0] == 0x55 && oid[1] == 0x1d {
        if oid[2] == 15 {
            // KeyUsage: recognized, value ignored by design.
            if acc.key_usage {
                Err(Error::ExtensionValueInvalid)
            } else {
                Ok(ExtAcc { key_usage: true, ..acc })
            }
        } else if oid[2] == 17 {
            if acc.subject_alt_name is Some {
                Err(Error::ExtensionValueInvalid)
            } else {
                match spec_unwrap_seq(value) {
                    Err(e) => Err(e),
                    Ok(inner) => Ok(ExtAcc { subject_alt_name: Some(inner), ..acc }),
                }
            }
        } else if oid[2] == 19 {
            if acc.basic_constraints is Some {
                Err(Error::ExtensionValueInvalid)
            } else {
                match spec_unwrap_seq(value) {
                    Err(e) => Err(e),
                    Ok(inner) => Ok(ExtAcc { basic_constraints: Some(inner), ..acc }),
                }
            }
        } else if oid[2] == 30 {
            if acc.name_constraints is Some {
                Err(Error::ExtensionValueInvalid)
            } else {
                match spec_unwrap_seq(value) {
                    Err(e) => Err(e),
                    Ok(inner) => Ok(ExtAcc { name_constraints: Some(inner), ..acc }),
                }
            }
        } else if oid[2] == 37 {
            if acc.eku is Some {
                Err(Error::ExtensionValueInvalid)
            } else {
                match spec_unwrap_seq(value) {
                    Err(e) => Err(e),
                    Ok(inner) => Ok(ExtAcc { eku: Some(inner), ..acc }),
                }
            }
        } else {
            if critical {
                Err(Error::UnsupportedCriticalExtension)
            } else {
                Ok(acc)
            }
        }
    } else {
        if critical {
            Err(Error::UnsupportedCriticalExtension)
        } else {
            Ok(acc)
        }
    }
}

fn remember_extension<'a>(oid: &'a [u8], critical: bool, value: &'a [u8], slots: ExtSlots<'a>)
    -> (r: Result<ExtSlots<'a>, Error>)
    ensures
        match spec_remember_extension(oid@, critical, value@, slots@) {
            Ok(m) => r matches Ok(s) && s@ == m,
            Err(e) => r matches Err(a) && a == e,
        },
{
    if oid.len() == 3 && *vstd::slice::slice_index_get(oid, 0) == 0x55
        && *vstd::slice::slice_index_get(oid, 1) == 0x1d {
        let last: u8 = *vstd::slice::slice_index_get(oid, 2);
        if last == 15 {
            if slots.key_usage {
                Err(Error::ExtensionValueInvalid)
            } else {
                Ok(ExtSlots { key_usage: true, ..slots })
            }
        } else if last == 17 {
            if slots.subject_alt_name.is_some() {
                Err(Error::ExtensionValueInvalid)
            } else {
                match unwrap_seq(value) {
                    Err(e) => Err(e),
                    Ok(inner) => Ok(ExtSlots { subject_alt_name: Some(inner), ..slots }),
                }
            }
        } else if last == 19 {
            if slots.basic_constraints.is_some() {
                Err(Error::ExtensionValueInvalid)
            } else {
                match unwrap_seq(value) {
                    Err(e) => Err(e),
                    Ok(inner) => Ok(ExtSlots { basic_constraints: Some(inner), ..slots }),
                }
            }
        } else if last == 30 {
            if slots.name_constraints.is_some() {
                Err(Error::ExtensionValueInvalid)
            } else {
                match unwrap_seq(value) {
                    Err(e) => Err(e),
                    Ok(inner) => Ok(ExtSlots { name_constraints: Some(inner), ..slots }),
                }
            }
        } else if last == 37 {
            if slots.eku.is_some() {
                Err(Error::ExtensionValueInvalid)
            } else {
                match unwrap_seq(value) {
                    Err(e) => Err(e),
                    Ok(inner) => Ok(ExtSlots { eku: Some(inner), ..slots }),
                }
            }
        } else {
            if critical {
                Err(Error::UnsupportedCriticalExtension)
            } else {
                Ok(slots)
            }
        }
    } else {
        if critical {
            Err(Error::UnsupportedCriticalExtension)
        } else {
            Ok(slots)
        }
    }
}

/// The accumulator after the one extension whose whole element value is
/// `x`: OID, optional critical boolean defaulting to false, and an OCTET
/// STRING that must end the element.
pub open spec fn spec_ext_body(x: Seq<u8>, acc: ExtAcc) -> Result<ExtAcc, Error> {
    match spec_expect_tlv(x, 0, TAG_OID) {
        None => Err(Error::BadDER),
        Some((os, oe)) => match spec_optional_boolean(x, oe) {
            Err(e) => Err(e),
            Ok((critical, p)) => match spec_expect_tlv(x, p, TAG_OCTET_STRING) {
                None => Err(Error::BadDER),
                Some((vs, ve)) => if ve != x.len() {
                    Err(Error::BadDER)
                } else {
                    spec_remember_extension(
                        x.subrange(os, oe),
                        critical,
                        x.subrange(vs, ve),
                        acc,
                    )
                },
            },
        },
    }
}

fn parse_one_ext<'a>(x: &'a [u8], slots: ExtSlots<'a>) -> (r: Result<ExtSlots<'a>, Error>)
    ensures
        match spec_ext_body(x@, slots@) {
            Ok(m) => r matches Ok(s) && s@ == m,
            Err(e) => r matches Err(a) && a == e,
        },
{
    let mut rd = Reader::new(x);
    let oid = match expect_tag_and_get_value(&mut rd, TAG_OID) {
        Ok(v) => v,
        Err(e) => { return Err(e); },
    };
    let critical = match optional_boolean(&mut rd) {
        Ok(v) => v,
        Err(e) => { return Err(e); },
    };
    let value = match expect_tag_and_get_value(&mut rd, TAG_OCTET_STRING) {
        Ok(v) => v,
        Err(e) => { return Err(e); },
    };
    if !rd.at_end() {
        return Err(Error::BadDER);
    }
    remember_extension(oid, critical, value, slots)
}

/// The accumulator after the whole extensions list `v`, a nonempty run of
/// extension SEQUENCEs filling `v` exactly.
pub open spec fn spec_ext_loop(v: Seq<u8>, pos: int, acc: ExtAcc) -> Result<ExtAcc, Error>
    decreases v.len() - pos,
{
    match spec_expect_tlv(v, pos, TAG_SEQUENCE) {
        None => Err(Error::BadDER),
        Some((xs, xe)) => match spec_ext_body(v.subrange(xs, xe), acc) {
            Err(e) => Err(e),
            Ok(acc2) => if xe == v.len() {
                Ok(acc2)
            } else if xe <= pos {
                Err(Error::BadDER)
            } else {
                spec_ext_loop(v, xe, acc2)
            },
        },
    }
}

fn parse_ext_loop<'a>(v: &mut Reader<'a>, slots: ExtSlots<'a>) -> (r: Result<ExtSlots<'a>, Error>)
    requires
        old(v).wf(),
    ensures
        final(v).wf(),
        final(v).input@ == old(v).input@,
        match spec_ext_loop(old(v).input@, old(v).pos as int, slots@) {
            Ok(m) => r matches Ok(s) && s@ == m,
            Err(e) => r matches Err(a) && a == e,
        },
    decreases v.input@.len() - v.pos,
{
    let x = match expect_tag_and_get_value(v, TAG_SEQUENCE) {
        Ok(val) => val,
        Err(e) => { return Err(e); },
    };
    let slots2 = match parse_one_ext(x, slots) {
        Ok(s) => s,
        Err(e) => { return Err(e); },
    };
    if v.at_end() {
        Ok(slots2)
    } else {
        proof {
            crate::der::lemma_read_tlv_bounds(old(v).input@, old(v).pos as int);
        }
        parse_ext_loop(v, slots2)
    }
}

/// The recognized extensions of the `[3]` explicit extensions field at
/// `pos` in `t`, and the position after it.  The field must hold exactly
/// one SEQUENCE of at least one extension.
pub open spec fn spec_parse_extensions(t: Seq<u8>, pos: int) -> Result<(ExtAcc, int), Error> {
    match spec_expect_tlv(t, pos, TAG_CONTEXT_CONSTRUCTED_3) {
        None => Err(Error::BadDER),
        Some((e3s, e3e)) => {
            let w = t.subrange(e3s, e3e);
            match spec_expect_tlv(w, 0, TAG_SEQUENCE) {
                None => Err(Error::BadDER),
                Some((ls, le)) => if le != w.len() {
                    match spec_ext_loop(w.subrange(ls, le), 0, spec_ext_acc_empty()) {
                        Err(e) => Err(e),
                        Ok(_) => Err(Error::BadDER),
                    }
                } else {
                    match spec_ext_loop(w.subrange(ls, le), 0, spec_ext_acc_empty()) {
                        Err(e) => Err(e),
                        Ok(acc) => Ok((acc, e3e)),
                    }
                },
            }
        },
    }
}

fn parse_extensions<'a>(input: &mut Reader<'a>) -> (r: Result<ExtSlots<'a>, Error>)
    requires
        old(input).wf(),
    ensures
        final(input).wf(),
        final(input).input@ == old(input).input@,
        match spec_parse_extensions(old(input).input@, old(input).pos as int) {
            Ok(m) => r matches Ok(s) && s@ == m.0 && final(input).pos == m.1,
            Err(e) => r matches Err(a) && a == e,
        },
{
    let tagged = match expect_tag_and_get_value(input, TAG_CONTEXT_CONSTRUCTED_3) {
        Ok(val) => val,
        Err(e) => { return Err(e); },
    };
    let mut w = Reader::new(tagged);
    let list = match expect_tag_and_get_value(&mut w, TAG_SEQUENCE) {
        Ok(val) => val,
        Err(e) => { return Err(e); },
    };
    let mut lr = Reader::new(list);
    let slots = ExtSlots {
        key_usage: false,
        basic_constraints: None,
        eku: None,
        name_constraints: None,
        subject_alt_name: None,
    };
    let slots = match parse_ext_loop(&mut lr, slots) {
        Ok(s) => s,
        Err(e) => { return Err(e); },
    };
    if !w.at_end() {
        return Err(Error::BadDER);
    }
    Ok(slots)
}

/// The parse of the TBSCertificate value `t`, given the signed-data
/// triple `sd` of the enclosing certificate: version (must be v3),
/// serial, signature algorithm (must be byte-identical to the outer
/// algorithm, else `SignatureAlgorithmMismatch`), issuer, validity,
/// subject, SubjectPublicKeyInfo, skipped unique identifiers, and
/// optional extensions; nothing may follow.
pub open spec fn spec_parse_tbs(t: Seq<u8>, sd: SignedDataView) -> Result<CertView, Error> {
    match spec_version3(t) {
        Err(e) => Err(e),
        Ok(p1) => match spec_positive_integer(t, p1) {
            Err(e) => Err(e),
            Ok((_serial, p2)) => match spec_expect_tlv(t, p2, TAG_SEQUENCE) {
                None => Err(Error::BadDER),
                Some((ss, se)) => if t.subrange(ss, se) != sd.algorithm {
                    Err(Error::SignatureAlgorithmMismatch)
                } else {
                    match spec_expect_tlv(t, se, TAG_SEQUENCE) {
                        None => Err(Error::BadDER),
                        Some((is_, ie)) => match spec_expect_tlv(t, ie, TAG_SEQUENCE) {
                            None => Err(Error::BadDER),
                            Some((vls, vle)) => match spec_expect_tlv(t, vle, TAG_SEQUENCE) {
                                None => Err(Error::BadDER),
                                Some((sjs, sje)) => match spec_expect_tlv(t, sje, TAG_SEQUENCE) {
                                    None => Err(Error::BadDER),
                                    Some((ks, ke)) => match spec_skip_optional_tag(t, ke, 0x81) {
                                        Err(e) => Err(e),
                                        Ok(p3) => match spec_skip_optional_tag(t, p3, 0x82) {
                                            Err(e) => Err(e),
                                            Ok(p4) => if p4 == t.len() {
                                                Ok(
                                                    CertView {
                                                        signed_data: sd,
                                                        issuer: t.subrange(is_, ie),
                                                        subject: t.subrange(sjs, sje),
                                                        spki: t.subrange(ks, ke),
                                                        validity: t.subrange(vls, vle),
                                                        basic_constraints: None,
                                                        eku: None,
                                                        name_constraints: None,
                                                        subject_alt_name: None,
                                                    },
                                                )
                                            } else {
                                                match spec_parse_extensions(t, p4) {
                                                    Err(e) => Err(e),
                                                    Ok((acc, pe)) => if pe != t.len() {
                                                        Err(Error::BadDER)
                                                    } else {
                                                        Ok(
                                                            CertView {
                                                                signed_data: sd,
                                                                issuer: t.subrange(is_, ie),
                                                                subject: t.subrange(sjs, sje),
                                                                spki: t.subrange(ks, ke),
                                                                validity: t.subrange(vls, vle),
                                                                basic_constraints: acc.basic_constraints,
                                                                eku: acc.eku,
                                                                name_constraints: acc.name_constraints,
                                                                subject_alt_name: acc.subject_alt_name,
                                                            },
                                                        )
                                                    },
                                                }
                                            },
                                        },
                                    },
                                },
                            },
                        },
                    }
                },
            },
        },
    }
}

/// The parse of the whole DER certificate `s`: an outer SEQUENCE filling
/// `s`, holding the signed-data triple, whose TBS is parsed by
/// [`spec_parse_tbs`].
pub open spec fn spec_parse_cert(s: Seq<u8>) -> Result<CertView, Error> {
    match spec_expect_tlv(s, 0, TAG_SEQUENCE) {
        None => Err(Error::BadDER),
        Some((cs, ce)) => if ce != s.len() {
            Err(Error::BadDER)
        } else {
            match spec_parse_signed_data(s.subrange(cs, ce)) {
                Err(e) => Err(e),
                Ok((tbs, sd)) => spec_parse_tbs(tbs, sd),
            }
        },
    }
}

/// The parse retains nothing that is not a function of the input bytes:
/// parsing the same bytes twice yields byte-identical retained
/// sub-slices.  Together with the `ensures` of [`parse_cert`], which
/// pins its result to [`spec_parse_cert`], this is the whole of
/// parse determinism.
pub proof fn lemma_parse_cert_deterministic(s1: Seq<u8>, s2: Seq<u8>)
    requires
        s1 == s2,
    ensures
        spec_parse_cert(s1) == spec_parse_cert(s2),
{
}

/// Whenever the TBSCertificate's inner signature-algorithm element
/// differs anywhere from the outer signature algorithm — by as little
/// as one byte — the parse of the TBS fails with
/// `SignatureAlgorithmMismatch`.
pub proof fn lemma_signature_algorithm_mismatch(
    t: Seq<u8>,
    sd: SignedDataView,
    p1: int,
    p2: int,
    ss: int,
    se: int,
)
    requires
        spec_version3(t) == Ok::<int, Error>(p1),
        spec_positive_integer(t, p1) matches Ok(x) && x.1 == p2,
        spec_expect_tlv(t, p2, TAG_SEQUENCE) == Some((ss, se)),
        t.subrange(ss, se) != sd.algorithm,
    ensures
        spec_parse_tbs(t, sd) == Err::<CertView, Error>(Error::SignatureAlgorithmMismatch),
{
}

#[verifier::rlimit(100)]
fn parse_tbs<'a>(tbs: &'a [u8], signed_data: SignedData<'a>, ee_or_ca: EndEntityOrCA) -> (r:
    Result<Cert<'a>, Error>)
    ensures
        match spec_parse_tbs(tbs@, signed_data@) {
            Ok(m) => r matches Ok(c) && c@ == m && c.ee_or_ca == ee_or_ca,
            Err(e) => r matches Err(a) && a == e,
        },
{
    let mut rd = Reader::new(tbs);
    match version3(&mut rd) {
        Ok(u) => u,
        Err(e) => { return Err(e); },
    };
    let _serial = match positive_integer(&mut rd) {
        Ok(v) => v,
        Err(e) => { return Err(e); },
    };
    let signature = match expect_tag_and_get_value(&mut rd, TAG_SEQUENCE) {
        Ok(v) => v,
        Err(e) => { return Err(e); },
    };
    if !bytes_eq(signature, signed_data.algorithm) {
        return Err(Error::SignatureAlgorithmMismatch);
    }
    let issuer = match expect_tag_and_get_value(&mut rd, TAG_SEQUENCE) {
        Ok(v) => v,
        Err(e) => { return Err(e); },
    };
    let validity = match expect_tag_and_get_value(&mut rd, TAG_SEQUENCE) {
        Ok(v) => v,
        Err(e) => { return Err(e); },
    };
    let subject = match expect_tag_and_get_value(&mut rd, TAG_SEQUENCE) {
        Ok(v) => v,
        Err(e) => { return Err(e); },
    };
    let spki = match expect_tag_and_get_value(&mut rd, TAG_SEQUENCE) {
        Ok(v) => v,
        Err(e) => { return Err(e); },
    };
    match skip_optional_tag(&mut rd, 0x81) {
        Ok(u) => u,
        Err(e) => { return Err(e); },
    };
    match skip_optional_tag(&mut rd, 0x82) {
        Ok(u) => u,
        Err(e) => { return Err(e); },
    };
    if rd.at_end() {
        return Ok(Cert {
            ee_or_ca,
            signed_data,
            issuer,
            subject,
            spki,
            validity,
            basic_constraints: None,
            eku: None,
            name_constraints: None,
            subject_alt_name: None,
        });
    }
    let slots = match parse_extensions(&mut rd) {
        Ok(s) => s,
        Err(e) => { return Err(e); },
    };
    if !rd.at_end() {
        return Err(Error::BadDER);
    }
    Ok(Cert {
        ee_or_ca,
        signed_data,
        issuer,
        subject,
        spki,
        validity,
        basic_constraints: slots.basic_constraints,
        eku: slots.eku,
        name_constraints: slots.name_constraints,
        subject_alt_name: slots.subject_alt_name,
    })
}

/// Parses the DER-encoded X.509 v3 certificate `cert_der`, to be used as
/// `ee_or_ca` says.  The result is exactly [`spec_parse_cert`] of the
/// input bytes: the same bytes always yield the same retained sub-slices.
pub fn parse_cert<'a>(cert_der: &'a [u8], ee_or_ca: EndEntityOrCA) -> (r: Result<Cert<'a>, Error>)
    ensures
        match spec_parse_cert(cert_der@) {
            Ok(m) => r matches Ok(c) && c@ == m && c.ee_or_ca == ee_or_ca,
            Err(e) => r matches Err(a) && a == e,
        },
{
    let mut outer = Reader::new(cert_der);
    let cert_value = match expect_tag_and_get_value(&mut outer, TAG_SEQUENCE) {
        Ok(v) => v,
        Err(e) => { return Err(e); },
    };
    if !outer.at_end() {
        return Err(Error::BadDER);
    }
    let (tbs, signed_data) = match parse_signed_data(cert_value) {
        Ok(p) => p,
        Err(e) => { return Err(e); },
    };
    parse_tbs(tbs, signed_data, ee_or_ca)
}

} // verus!
