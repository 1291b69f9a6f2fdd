//! DNS-name verification against a certificate's SubjectAltName, and
//! evaluation of the NameConstraints extension of a CA or trust anchor
//! against a subordinate certificate.
//!
//! Reference names are pre-normalized, lower-cased ASCII (punycode for
//! non-ASCII).  Presented names are compared case-insensitively.
//! Wildcards are permitted only as the whole left-most label.

use vstd::prelude::*;
use vstd::slice::slice_index_get;
use crate::Error;
use crate::cert::{Cert, CertView, spec_unwrap_seq, view_opt};
use crate::der::{
    Reader, bytes_eq, expect_tag_and_get_value, read_tag_and_get_value, spec_expect_tlv,
    spec_read_tlv, TAG_SEQUENCE,
};

verus! {

/// The context-specific primitive tag `[2]`, a dNSName GeneralName.
pub const TAG_DNS_NAME: u8 = 0x82;

/// The context-specific constructed tag `[4]`, a directoryName
/// GeneralName.
pub const TAG_DIRECTORY_NAME: u8 = 0xa4;

/// The context-specific constructed tag `[0]`, the permittedSubtrees of
/// a NameConstraints.
pub const TAG_PERMITTED_SUBTREES: u8 = 0xa0;

/// The context-specific constructed tag `[1]`, the excludedSubtrees of a
/// NameConstraints.
pub const TAG_EXCLUDED_SUBTREES: u8 = 0xa1;

/// `b` with an ASCII capital letter lowered.
pub open spec fn spec_ascii_lower(b: u8) -> u8 {
    if 0x41 <= b <= 0x5a {
        (b + 0x20) as u8
    } else {
        b
    }
}

fn ascii_lower(b: u8) -> (r: u8)
    ensures
        r == spec_ascii_lower(b),
{
    if 0x41 <= b && b <= 0x5a {
        b + 0x20
    } else {
        b
    }
}

/// Whether two DNS labels or names are equal up to ASCII case.
pub open spec fn spec_dns_eq(a: Seq<u8>, b: Seq<u8>) -> bool {
    a.len() == b.len() && forall|i: int|
        0 <= i < a.len() ==> spec_ascii_lower(a[i]) == spec_ascii_lower(b[i])
}

fn dns_eq(a: &[u8], b: &[u8]) -> (r: bool)
    ensures
        r == spec_dns_eq(a@, b@),
{
    if a.len() != b.len() {
        return false;
    }
    let n: usize = a.len();
    let mut i: usize = 0;
    while i < n
        invariant
            0 <= i <= n,
            n == a@.len() == b@.len(),
            forall|j: int| 0 <= j < i ==> spec_ascii_lower(a@[j]) == spec_ascii_lower(b@[j]),
        decreases n - i,
    {
        if ascii_lower(*slice_index_get(a, i)) != ascii_lower(*slice_index_get(b, i)) {
            return false;
        }
        i = i + 1;
    }
    true
}

/// Whether the wildcard presented name `p`, which begins with `*.`,
/// covers the reference name `r`: the first label of `r` is nonempty,
/// and what follows its first dot equals the part of `p` after `*.`.
pub open spec fn spec_wildcard_matches(p: Seq<u8>, r: Seq<u8>) -> bool {
    exists|k: int|
        1 <= k < r.len() && r[k] == 0x2e && (forall|j: int| 0 <= j < k ==> r[j] != 0x2e)
            && spec_dns_eq(r.subrange(k + 1, r.len() as int), p.subrange(2, p.len() as int))
}

/// Whether the presented name `p` (a SAN dNSName) covers the reference
/// name `r`: either a left-most-label wildcard match or case-insensitive
/// equality.
pub open spec fn spec_presented_matches_reference(p: Seq<u8>, r: Seq<u8>) -> bool {
    if p.len() >= 2 && p[0] == 0x2a && p[1] == 0x2e {
        spec_wildcard_matches(p, r)
    } else {
        spec_dns_eq(p, r)
    }
}

fn presented_matches_reference(p: &[u8], r: &[u8]) -> (res: bool)
    ensures
        res == spec_presented_matches_reference(p@, r@),
{
    if p.len() >= 2 && *slice_index_get(p, 0) == 0x2a && *slice_index_get(p, 1) == 0x2e {
        // find the first dot of the reference
        let n: usize = r.len();
        let mut k: usize = 0;
        while k < n && *slice_index_get(r, k) != 0x2e
            invariant
                0 <= k <= n,
                n == r@.len(),
                forall|j: int| 0 <= j < k ==> r@[j] != 0x2e,
            decreases n - k,
        {
            k = k + 1;
        }
        if k >= n || k < 1 {
            // no dot, or an empty first label: no k can witness a match
            proof {
                assert(!spec_wildcard_matches(p@, r@)) by {
                    if k < n {
                        assert(forall|kk: int|
                            1 <= kk < r@.len() && r@[kk] == 0x2e ==> !(forall|j: int|
                                0 <= j < kk ==> r@[j] != 0x2e)) by {
                            assert(r@[k as int] == 0x2e && (k as int) < 1);
                        };
                    }
                };
            }
            return false;
        }
        let suffix = vstd::slice::slice_subrange(r, k + 1, n);
        let rest = vstd::slice::slice_subrange(p, 2, p.len());
        let m = dns_eq(suffix, rest);
        proof {
            if m {
                assert(spec_wildcard_matches(p@, r@)) by {
                    assert(1 <= (k as int) < r@.len() && r@[k as int] == 0x2e);
                };
            } else {
                assert(!spec_wildcard_matches(p@, r@)) by {
                    assert forall|kk: int|
                        1 <= kk < r@.len() && r@[kk] == 0x2e && (forall|j: int|
                            0 <= j < kk ==> r@[j] != 0x2e) implies !spec_dns_eq(
                        r@.subrange(kk + 1, r@.len() as int),
                        p@.subrange(2, p@.len() as int),
                    ) by {
                        assert(kk == k as int) by {
                            if kk < k as int {
                                assert(r@[kk] != 0x2e);
                            } else if kk > k as int {
                                assert(r@[k as int] != 0x2e);
                            }
                        };
                    };
                };
            }
        }
        m
    } else {
        dns_eq(p, r)
    }
}

/// Whether `b` may stand in a pre-normalized reference DNS name:
/// a lower-case ASCII letter, a digit, a hyphen, or a dot.
pub open spec fn spec_ref_name_byte(b: u8) -> bool {
    (0x61 <= b <= 0x7a) || (0x30 <= b <= 0x39) || b == 0x2d || b == 0x2e
}

/// Whether `r` is a well-formed, pre-normalized reference DNS name:
/// nonempty and at most 253 bytes, of lower-case letters, digits,
/// hyphens and dots, with no empty label.
pub open spec fn spec_valid_reference_dns_name(r: Seq<u8>) -> bool {
    &&& 1 <= r.len() <= 253
    &&& (forall|i: int| 0 <= i < r.len() ==> spec_ref_name_byte(#[trigger] r[i]))
    &&& r[0] != 0x2e
    &&& r[r.len() - 1] != 0x2e
    &&& (forall|i: int| 0 <= i < r.len() - 1 ==> !(#[trigger] r[i] == 0x2e && r[i + 1] == 0x2e))
}

fn valid_reference_dns_name(r: &[u8]) -> (res: bool)
    ensures
        res == spec_valid_reference_dns_name(r@),
{
    let n: usize = r.len();
    if n < 1 || n > 253 {
        return false;
    }
    if *slice_index_get(r, 0) == 0x2e || *slice_index_get(r, n - 1) == 0x2e {
        return false;
    }
    let mut i: usize = 0;
    while i < n
        invariant
            0 <= i <= n,
            n == r@.len(),
            forall|j: int| 0 <= j < i ==> spec_ref_name_byte(#[trigger] r@[j]),
            forall|j: int| 0 <= j < i - 1 ==> !(#[trigger] r@[j] == 0x2e && r@[j + 1] == 0x2e),
        decreases n - i,
    {
        let b: u8 = *slice_index_get(r, i);
        if !((0x61 <= b && b <= 0x7a) || (0x30 <= b && b <= 0x39) || b == 0x2d || b == 0x2e) {
            return false;
        }
        if i > 0 && b == 0x2e && *slice_index_get(r, i - 1) == 0x2e {
            return false;
        }
        i = i + 1;
    }
    true
}

/// Whether some dNSName of the SubjectAltName contents `v`, read from
/// `pos` on, covers the reference name; reading stops at the first
/// match, so entries past it are never inspected.
pub open spec fn spec_search_dns_match(v: Seq<u8>, pos: int, name: Seq<u8>) -> Result<bool, Error>
    decreases v.len() - pos,
{
    if pos < 0 || pos >= v.len() {
        Ok(false)
    } else {
        match spec_read_tlv(v, pos) {
            None => Err(Error::BadDER),
            Some((t, vs, ve)) => if t == TAG_DNS_NAME && spec_presented_matches_reference(
                v.subrange(vs, ve),
                name,
            ) {
                Ok(true)
            } else if ve <= pos {
                Err(Error::BadDER)
            } else {
                spec_search_dns_match(v, ve, name)
            },
        }
    }
}

fn search_dns_match(rd: &mut Reader, name: &[u8]) -> (r: Result<bool, Error>)
    requires
        old(rd).wf(),
    ensures
        final(rd).wf(),
        match spec_search_dns_match(old(rd).input@, old(rd).pos as int, name@) {
            Ok(b) => r matches Ok(x) && x == b,
            Err(e) => r matches Err(a) && a == e,
        },
    decreases rd.input@.len() - rd.pos,
{
    if rd.at_end() {
        return Ok(false);
    }
    let (t, v) = match read_tag_and_get_value(rd) {
        Ok(p) => p,
        Err(e) => { return Err(e); },
    };
    if t == TAG_DNS_NAME && presented_matches_reference(v, name) {
        return Ok(true);
    }
    proof {
        crate::der::lemma_read_tlv_bounds(old(rd).input@, old(rd).pos as int);
    }
    search_dns_match(rd, name)
}

/// The outcome of checking the reference name `name` against the
/// certificate: the name must be well formed, the certificate must carry
/// a SubjectAltName, and some dNSName of it must cover the name.
pub open spec fn spec_verify_cert_dns_name(cert: CertView, name: Seq<u8>) -> Result<(), Error> {
    if !spec_valid_reference_dns_name(name) {
        Err(Error::InvalidReferenceName)
    } else {
        match cert.subject_alt_name {
            None => Err(Error::CertNotValidForName),
            Some(san) => match spec_search_dns_match(san, 0, name) {
                Err(e) => Err(e),
                Ok(true) => Ok(()),
                Ok(false) => Err(Error::CertNotValidForName),
            },
        }
    }
}

/// Verifies that the certificate covers the reference DNS name, per
/// [`spec_verify_cert_dns_name`].
pub fn verify_cert_dns_name(cert: &Cert, dns_name: &[u8]) -> (r: Result<(), Error>)
    ensures
        r == spec_verify_cert_dns_name(cert@, dns_name@),
{
    if !valid_reference_dns_name(dns_name) {
        return Err(Error::InvalidReferenceName);
    }
    match cert.subject_alt_name {
        None => Err(Error::CertNotValidForName),
        Some(san) => {
            let mut rd = Reader::new(san);
            match search_dns_match(&mut rd, dns_name) {
                Err(e) => Err(e),
                Ok(true) => Ok(()),
                Ok(false) => Err(Error::CertNotValidForName),
            }
        },
    }
}

#[derive(Clone, Copy)]
struct GName<'a> {
    tag: u8,
    value: &'a [u8],
}

spec fn gnames_view<'a>(s: Seq<GName<'a>>) -> Seq<(u8, Seq<u8>)> {
    s.map_values(|g: GName<'a>| (g.tag, g.value@))
}

/// The GeneralName elements filling `v` from `pos` on, each as its tag
/// and value.
pub open spec fn spec_general_names(v: Seq<u8>, pos: int) -> Result<Seq<(u8, Seq<u8>)>, Error>
    decreases v.len() - pos,
{
    if pos < 0 {
        Err(Error::BadDER)
    } else if pos >= v.len() {
        Ok(Seq::empty())
    } else {
        match spec_read_tlv(v, pos) {
            None => Err(Error::BadDER),
            Some((t, vs, ve)) => if ve <= pos {
                Err(Error::BadDER)
            } else {
                match spec_general_names(v, ve) {
                    Err(e) => Err(e),
                    Ok(rest) => Ok(seq![(t, v.subrange(vs, ve))] + rest),
                }
            },
        }
    }
}

fn collect_general_names<'a>(rd: &mut Reader<'a>, out: &mut Vec<GName<'a>>) -> (r: Result<
    (),
    Error,
>)
    requires
        old(rd).wf(),
    ensures
        final(rd).wf(),
        match spec_general_names(old(rd).input@, old(rd).pos as int) {
            Ok(l) => r matches Ok(u) && gnames_view(final(out)@) == gnames_view(old(out)@) + l,
            Err(e) => r matches Err(a) && a == e,
        },
    decreases rd.input@.len() - rd.pos,
{
    if rd.at_end() {
        proof {
            assert(gnames_view(out@) =~= gnames_view(out@) + Seq::<(u8, Seq<u8>)>::empty());
        }
        return Ok(());
    }
    let ghost s0 = rd.input@;
    let ghost p0 = rd.pos as int;
    let (t, v) = match read_tag_and_get_value(rd) {
        Ok(p) => p,
        Err(e) => { return Err(e); },
    };
    out.push(GName { tag: t, value: v });
    let ghost mid = out@;
    proof {
        crate::der::lemma_read_tlv_bounds(s0, p0);
    }
    let res = collect_general_names(rd, out);
    proof {
        if res is Ok {
            match spec_general_names(s0, p0) {
                Ok(l) => {
                    assert(gnames_view(mid) =~= gnames_view(old(out)@) + seq![(t, v@)]);
                    assert(gnames_view(out@) =~= gnames_view(old(out)@) + l);
                },
                Err(_) => {},
            }
        }
    }
    res
}

/// The base GeneralName of each GeneralSubtree SEQUENCE filling `v` from
/// `pos` on, as its tag and value; a minimum or maximum after the base
/// is ignored.
pub open spec fn spec_subtrees(v: Seq<u8>, pos: int) -> Result<Seq<(u8, Seq<u8>)>, Error>
    decreases v.len() - pos,
{
    if pos < 0 {
        Err(Error::BadDER)
    } else if pos >= v.len() {
        Ok(Seq::empty())
    } else {
        match spec_expect_tlv(v, pos, TAG_SEQUENCE) {
            None => Err(Error::BadDER),
            Some((xs, xe)) => {
                let x = v.subrange(xs, xe);
                match spec_read_tlv(x, 0) {
                    None => Err(Error::BadDER),
                    Some((t, bs, be)) => if xe <= pos {
                        Err(Error::BadDER)
                    } else {
                        match spec_subtrees(v, xe) {
                            Err(e) => Err(e),
                            Ok(rest) => Ok(seq![(t, x.subrange(bs, be))] + rest),
                        }
                    },
                }
            },
        }
    }
}

fn collect_subtrees<'a>(rd: &mut Reader<'a>, out: &mut Vec<GName<'a>>) -> (r: Result<(), Error>)
    requires
        old(rd).wf(),
    ensures
        final(rd).wf(),
        match spec_subtrees(old(rd).input@, old(rd).pos as int) {
            Ok(l) => r matches Ok(u) && gnames_view(final(out)@) == gnames_view(old(out)@) + l,
            Err(e) => r matches Err(a) && a == e,
        },
    decreases rd.input@.len() - rd.pos,
{
    if rd.at_end() {
        proof {
            assert(gnames_view(out@) =~= gnames_view(out@) + Seq::<(u8, Seq<u8>)>::empty());
        }
        return Ok(());
    }
    let ghost s0 = rd.input@;
    let ghost p0 = rd.pos as int;
    let x = match expect_tag_and_get_value(rd, TAG_SEQUENCE) {
        Ok(p) => p,
        Err(e) => { return Err(e); },
    };
    let mut xr = Reader::new(x);
    let (t, b) = match read_tag_and_get_value(&mut xr) {
        Ok(p) => p,
        Err(e) => { return Err(e); },
    };
    out.push(GName { tag: t, value: b });
    let ghost mid = out@;
    proof {
        crate::der::lemma_read_tlv_bounds(s0, p0);
    }
    let res = collect_subtrees(rd, out);
    proof {
        if res is Ok {
            match spec_subtrees(s0, p0) {
                Ok(l) => {
                    assert(gnames_view(mid) =~= gnames_view(old(out)@) + seq![(t, b@)]);
                    assert(gnames_view(out@) =~= gnames_view(old(out)@) + l);
                },
                Err(_) => {},
            }
        }
    }
    res
}

/// Whether the directoryName constraint value `b`, a `[4]` holding one
/// Name, catches the subject value `subject`: the constraint's
/// relative-distinguished-name sequence must be a prefix of the
/// subject's, so a constraint naming an organization catches every
/// subject within it.  Both are runs of complete DER elements, so a
/// byte prefix falls exactly on a name-component boundary.  A malformed
/// constraint matches nothing.
pub open spec fn spec_dirname_matches(b: Seq<u8>, subject: Seq<u8>) -> bool {
    match spec_unwrap_seq(b) {
        Ok(inner) => inner.len() <= subject.len() && subject.subrange(0, inner.len() as int)
            == inner,
        Err(_) => false,
    }
}

fn dirname_matches(b: &[u8], subject: &[u8]) -> (r: bool)
    ensures
        r == spec_dirname_matches(b@, subject@),
{
    let mut rd = Reader::new(b);
    let inner = match expect_tag_and_get_value(&mut rd, TAG_SEQUENCE) {
        Ok(v) => v,
        Err(_) => { return false; },
    };
    if !rd.at_end() {
        return false;
    }
    if inner.len() > subject.len() {
        return false;
    }
    bytes_eq(vstd::slice::slice_subrange(subject, 0, inner.len()), inner)
}

/// Whether the DNS name `n` falls within the dNSName constraint `d`:
/// `n` ends with `d` up to case, at a label boundary.  The empty
/// constraint covers every name.
pub open spec fn spec_dns_in_subtree(n: Seq<u8>, d: Seq<u8>) -> bool {
    &&& d.len() <= n.len()
    &&& spec_dns_eq(n.subrange(n.len() - d.len(), n.len() as int), d)
    &&& (n.len() == d.len() || d.len() == 0 || d[0] == 0x2e || n[n.len() - d.len() - 1] == 0x2e)
}

fn dns_in_subtree(n: &[u8], d: &[u8]) -> (r: bool)
    ensures
        r == spec_dns_in_subtree(n@, d@),
{
    if d.len() > n.len() {
        return false;
    }
    let off: usize = n.len() - d.len();
    let suffix = vstd::slice::slice_subrange(n, off, n.len());
    if !dns_eq(suffix, d) {
        return false;
    }
    if n.len() == d.len() || d.len() == 0 {
        return true;
    }
    if *slice_index_get(d, 0) == 0x2e {
        return true;
    }
    *slice_index_get(n, off - 1) == 0x2e
}

/// Whether one constraint subtree catches the subordinate certificate:
/// a directoryName naming its subject, or a dNSName covering one of its
/// SubjectAltName dNSName entries.
pub open spec fn spec_subtree_hits(
    tag: u8,
    value: Seq<u8>,
    subject: Seq<u8>,
    san: Seq<(u8, Seq<u8>)>,
) -> bool {
    ||| (tag == TAG_DIRECTORY_NAME && spec_dirname_matches(value, subject))
    ||| (tag == TAG_DNS_NAME && exists|j: int|
        0 <= j < san.len() && (#[trigger] san[j]).0 == TAG_DNS_NAME && spec_dns_in_subtree(
            san[j].1,
            value,
        ))
}

proof fn lemma_subtree_hits_intro(
    tag: u8,
    value: Seq<u8>,
    subject: Seq<u8>,
    san: Seq<(u8, Seq<u8>)>,
    j: int,
)
    requires
        tag == TAG_DNS_NAME,
        0 <= j < san.len(),
        san[j].0 == TAG_DNS_NAME,
        spec_dns_in_subtree(san[j].1, value),
    ensures
        spec_subtree_hits(tag, value, subject, san),
{
    assert(exists|t: int|
        0 <= t < san.len() && (#[trigger] san[t]).0 == TAG_DNS_NAME && spec_dns_in_subtree(
            san[t].1,
            value,
        )) by {
        assert(0 <= j < san.len() && san[j].0 == TAG_DNS_NAME && spec_dns_in_subtree(
            san[j].1,
            value,
        ));
    };
}

fn subtree_hits(tr: GName, subject: &[u8], san: &Vec<GName>) -> (r: bool)
    ensures
        r == spec_subtree_hits(tr.tag, tr.value@, subject@, gnames_view(san@)),
{
    if tr.tag == TAG_DIRECTORY_NAME {
        dirname_matches(tr.value, subject)
    } else if tr.tag == TAG_DNS_NAME {
        let m: usize = san.len();
        let mut j: usize = 0;
        while j < m
            invariant
                0 <= j <= m,
                m == san@.len(),
                tr.tag == TAG_DNS_NAME,
                forall|t: int|
                    0 <= t < j ==> !((#[trigger] gnames_view(san@)[t]).0 == TAG_DNS_NAME
                        && spec_dns_in_subtree(gnames_view(san@)[t].1, tr.value@)),
            decreases m - j,
        {
            let g: GName = san[j];
            if g.tag == TAG_DNS_NAME && dns_in_subtree(g.value, tr.value) {
                proof {
                    assert(gnames_view(san@)[j as int] == (g.tag, g.value@));
                    lemma_subtree_hits_intro(
                        tr.tag,
                        tr.value@,
                        subject@,
                        gnames_view(san@),
                        j as int,
                    );
                }
                return true;
            }
            proof {
                assert(gnames_view(san@)[j as int] == (g.tag, g.value@));
            }
            j = j + 1;
        }
        false
    } else {
        false
    }
}

/// Whether some excluded subtree catches the subordinate certificate.
pub open spec fn spec_excluded_violation(
    trees: Seq<(u8, Seq<u8>)>,
    subject: Seq<u8>,
    san: Seq<(u8, Seq<u8>)>,
) -> bool {
    exists|i: int|
        0 <= i < trees.len() && spec_subtree_hits(
            (#[trigger] trees[i]).0,
            trees[i].1,
            subject,
            san,
        )
}

fn excluded_violates(trees: &Vec<GName>, subject: &[u8], san: &Vec<GName>) -> (r: bool)
    ensures
        r == spec_excluded_violation(gnames_view(trees@), subject@, gnames_view(san@)),
{
    let n: usize = trees.len();
    let mut i: usize = 0;
    while i < n
        invariant
            0 <= i <= n,
            n == trees@.len(),
            forall|t: int|
                0 <= t < i ==> !spec_subtree_hits(
                    (#[trigger] gnames_view(trees@)[t]).0,
                    gnames_view(trees@)[t].1,
                    subject@,
                    gnames_view(san@),
                ),
        decreases n - i,
    {
        let g: GName = trees[i];
        proof {
            assert(gnames_view(trees@)[i as int] == (g.tag, g.value@));
        }
        if subtree_hits(g, subject, san) {
            return true;
        }
        i = i + 1;
    }
    false
}

/// Whether the constraint list holds a subtree bearing `tag`.
pub open spec fn spec_has_tag(trees: Seq<(u8, Seq<u8>)>, tag: u8) -> bool {
    exists|i: int| 0 <= i < trees.len() && (#[trigger] trees[i]).0 == tag
}

fn has_tag(trees: &Vec<GName>, tag: u8) -> (r: bool)
    ensures
        r == spec_has_tag(gnames_view(trees@), tag),
{
    let n: usize = trees.len();
    let mut i: usize = 0;
    while i < n
        invariant
            0 <= i <= n,
            n == trees@.len(),
            forall|t: int| 0 <= t < i ==> (#[trigger] gnames_view(trees@)[t]).0 != tag,
        decreases n - i,
    {
        let g: GName = trees[i];
        proof {
            assert(gnames_view(trees@)[i as int] == (g.tag, g.value@));
        }
        if g.tag == tag {
            return true;
        }
        i = i + 1;
    }
    false
}

/// Whether some permitted dNSName subtree covers the DNS name `n`.
pub open spec fn spec_dns_name_permitted(trees: Seq<(u8, Seq<u8>)>, n: Seq<u8>) -> bool {
    exists|i: int|
        0 <= i < trees.len() && (#[trigger] trees[i]).0 == TAG_DNS_NAME && spec_dns_in_subtree(
            n,
            trees[i].1,
        )
}

fn dns_name_permitted(trees: &Vec<GName>, n: &[u8]) -> (r: bool)
    ensures
        r == spec_dns_name_permitted(gnames_view(trees@), n@),
{
    let m: usize = trees.len();
    let mut i: usize = 0;
    while i < m
        invariant
            0 <= i <= m,
            m == trees@.len(),
            forall|t: int|
                0 <= t < i ==> !((#[trigger] gnames_view(trees@)[t]).0 == TAG_DNS_NAME
                    && spec_dns_in_subtree(n@, gnames_view(trees@)[t].1)),
        decreases m - i,
    {
        let g: GName = trees[i];
        proof {
            assert(gnames_view(trees@)[i as int] == (g.tag, g.value@));
        }
        if g.tag == TAG_DNS_NAME && dns_in_subtree(n, g.value) {
            return true;
        }
        i = i + 1;
    }
    false
}

/// Whether some permitted directoryName subtree names the subject.
pub open spec fn spec_dirname_permitted(trees: Seq<(u8, Seq<u8>)>, subject: Seq<u8>) -> bool {
    exists|i: int|
        0 <= i < trees.len() && (#[trigger] trees[i]).0 == TAG_DIRECTORY_NAME
            && spec_dirname_matches(trees[i].1, subject)
}

fn dirname_permitted(trees: &Vec<GName>, subject: &[u8]) -> (r: bool)
    ensures
        r == spec_dirname_permitted(gnames_view(trees@), subject@),
{
    let m: usize = trees.len();
    let mut i: usize = 0;
    while i < m
        invariant
            0 <= i <= m,
            m == trees@.len(),
            forall|t: int|
                0 <= t < i ==> !((#[trigger] gnames_view(trees@)[t]).0 == TAG_DIRECTORY_NAME
                    && spec_dirname_matches(gnames_view(trees@)[t].1, subject@)),
        decreases m - i,
    {
        let g: GName = trees[i];
        proof {
            assert(gnames_view(trees@)[i as int] == (g.tag, g.value@));
        }
        if g.tag == TAG_DIRECTORY_NAME && dirname_matches(g.value, subject) {
            return true;
        }
        i = i + 1;
    }
    false
}

/// Whether the permitted subtrees admit the subordinate certificate: if
/// any dNSName subtree is present, every SubjectAltName dNSName must
/// fall within one; if any directoryName subtree is present, one must
/// name the subject.  Name forms with no subtree of their type are
/// unconstrained.
pub open spec fn spec_permitted_ok(
    trees: Seq<(u8, Seq<u8>)>,
    subject: Seq<u8>,
    san: Seq<(u8, Seq<u8>)>,
) -> bool {
    &&& (spec_has_tag(trees, TAG_DNS_NAME) ==> forall|j: int|
        0 <= j < san.len() && (#[trigger] san[j]).0 == TAG_DNS_NAME ==> spec_dns_name_permitted(
            trees,
            san[j].1,
        ))
    &&& (spec_has_tag(trees, TAG_DIRECTORY_NAME) ==> spec_dirname_permitted(trees, subject))
}

fn permitted_ok(trees: &Vec<GName>, subject: &[u8], san: &Vec<GName>) -> (r: bool)
    ensures
        r == spec_permitted_ok(gnames_view(trees@), subject@, gnames_view(san@)),
{
    if has_tag(trees, TAG_DNS_NAME) {
        let m: usize = san.len();
        let mut j: usize = 0;
        while j < m
            invariant
                0 <= j <= m,
                m == san@.len(),
                spec_has_tag(gnames_view(trees@), TAG_DNS_NAME),
                forall|t: int|
                    0 <= t < j && (#[trigger] gnames_view(san@)[t]).0 == TAG_DNS_NAME
                        ==> spec_dns_name_permitted(gnames_view(trees@), gnames_view(san@)[t].1),
            decreases m - j,
        {
            let g: GName = san[j];
            proof {
                assert(gnames_view(san@)[j as int] == (g.tag, g.value@));
            }
            if g.tag == TAG_DNS_NAME && !dns_name_permitted(trees, g.value) {
                return false;
            }
            j = j + 1;
        }
    }
    if has_tag(trees, TAG_DIRECTORY_NAME) {
        if !dirname_permitted(trees, subject) {
            return false;
        }
    }
    true
}

/// The position after an optional TLV bearing `tag` at `pos`, and its
/// value where present.
pub open spec fn spec_optional_tagged(v: Seq<u8>, pos: int, tag: u8) -> Result<
    (Option<Seq<u8>>, int),
    Error,
> {
    if 0 <= pos < v.len() && v[pos] == tag {
        match spec_read_tlv(v, pos) {
            Some((t, a, b)) => Ok((Some(v.subrange(a, b)), b)),
            None => Err(Error::BadDER),
        }
    } else {
        Ok((None, pos))
    }
}

fn optional_tagged<'a>(rd: &mut Reader<'a>, tag: u8) -> (r: Result<Option<&'a [u8]>, Error>)
    requires
        old(rd).wf(),
    ensures
        final(rd).wf(),
        final(rd).input@ == old(rd).input@,
        match spec_optional_tagged(old(rd).input@, old(rd).pos as int, tag) {
            Ok((o, p)) => {
                &&& r matches Ok(v)
                &&& view_opt(v) == o
                &&& final(rd).pos == p
            },
            Err(e) => r matches Err(a) && a == e,
        },
{
    if rd.peek(tag) {
        match read_tag_and_get_value(rd) {
            Ok((t, v)) => Ok(Some(v)),
            Err(e) => Err(e),
        }
    } else {
        Ok(None)
    }
}

/// The outcome of applying the NameConstraints contents `nc` of a CA or
/// trust anchor to the subordinate certificate `cert`: no constraints
/// means acceptance; otherwise the permitted subtrees must admit the
/// certificate and no excluded subtree may catch it, else
/// `NameConstraintViolation`.
pub open spec fn spec_check_name_constraints(nc: Option<Seq<u8>>, cert: CertView) -> Result<
    (),
    Error,
> {
    match nc {
        None => Ok(()),
        Some(v) => match spec_optional_tagged(v, 0, TAG_PERMITTED_SUBTREES) {
            Err(e) => Err(e),
            Ok((perm, p1)) => match spec_optional_tagged(v, p1, TAG_EXCLUDED_SUBTREES) {
                Err(e) => Err(e),
                Ok((excl, p2)) => if p2 != v.len() {
                    Err(Error::BadDER)
                } else {
                    let san_r = match cert.subject_alt_name {
                        None => Ok(Seq::<(u8, Seq<u8>)>::empty()),
                        Some(s) => spec_general_names(s, 0),
                    };
                    match san_r {
                        Err(e) => Err(e),
                        Ok(san) => {
                            let excl_r = match excl {
                                None => Ok(Seq::<(u8, Seq<u8>)>::empty()),
                                Some(x) => spec_subtrees(x, 0),
                            };
                            match excl_r {
                                Err(e) => Err(e),
                                Ok(extrees) => {
                                    let perm_r = match perm {
                                        None => Ok(Seq::<(u8, Seq<u8>)>::empty()),
                                        Some(x) => spec_subtrees(x, 0),
                                    };
                                    match perm_r {
                                        Err(e) => Err(e),
                                        Ok(ptrees) => if spec_excluded_violation(
                                            extrees,
                                            cert.subject,
                                            san,
                                        ) {
                                            Err(Error::NameConstraintViolation)
                                        } else if perm is Some && !spec_permitted_ok(
                                            ptrees,
                                            cert.subject,
                                            san,
                                        ) {
                                            Err(Error::NameConstraintViolation)
                                        } else {
                                            Ok(())
                                        },
                                    }
                                },
                            }
                        },
                    }
                },
            },
        },
    }
}

/// Applies the NameConstraints contents `nc` of a CA or trust anchor to
/// the subordinate certificate `cert`, per
/// [`spec_check_name_constraints`].
pub fn check_name_constraints(nc: Option<&[u8]>, cert: &Cert) -> (r: Result<(), Error>)
    ensures
        r == spec_check_name_constraints(view_opt(nc), cert@),
{
    let v: &[u8] = match nc {
        None => { return Ok(()); },
        Some(v) => v,
    };
    let mut rd = Reader::new(v);
    let perm = match optional_tagged(&mut rd, TAG_PERMITTED_SUBTREES) {
        Ok(o) => o,
        Err(e) => { return Err(e); },
    };
    let excl = match optional_tagged(&mut rd, TAG_EXCLUDED_SUBTREES) {
        Ok(o) => o,
        Err(e) => { return Err(e); },
    };
    if !rd.at_end() {
        return Err(Error::BadDER);
    }
    let mut san_list: Vec<GName> = Vec::new();
    match cert.subject_alt_name {
        None => {},
        Some(s) => {
            let mut sr = Reader::new(s);
            match collect_general_names(&mut sr, &mut san_list) {
                Ok(u) => u,
                Err(e) => { return Err(e); },
            };
        },
    }
    let mut extrees: Vec<GName> = Vec::new();
    match excl {
        None => {},
        Some(x) => {
            let mut xr = Reader::new(x);
            match collect_subtrees(&mut xr, &mut extrees) {
                Ok(u) => u,
                Err(e) => { return Err(e); },
            };
        },
    }
    let mut ptrees: Vec<GName> = Vec::new();
    match perm {
        None => {},
        Some(x) => {
            let mut xr = Reader::new(x);
            match collect_subtrees(&mut xr, &mut ptrees) {
                Ok(u) => u,
                Err(e) => { return Err(e); },
            };
        },
    }
    if excluded_violates(&extrees, cert.subject, &san_list) {
        return Err(Error::NameConstraintViolation);
    }
    if perm.is_some() && !permitted_ok(&ptrees, cert.subject, &san_list) {
        return Err(Error::NameConstraintViolation);
    }
    Ok(())
}

} // verus!
