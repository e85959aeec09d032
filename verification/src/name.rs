use vstd::prelude::*;

use crate::attributes::AttrKind;
use crate::attributes::AttrView;
use crate::attributes::AttributeTypeAndValue;
use crate::attributes::attr_kind;
use crate::attributes::kind_of;
use crate::bytes::bytes_eq;
use crate::bytes::copy_bytes;
use crate::bytes::first_byte_pos;
use crate::bytes::first_byte_pos_exec;
use crate::bytes::lemma_bytes_deep_view;
use crate::bytes::lemma_first_byte_pos;
use crate::bytes::split_at_byte;
use crate::bytes::split_at_byte_exec;
use crate::bytes::subvec;
use crate::errors::ConstraintError;
use crate::errors::err_dc_uid_mismatch;
use crate::errors::err_home_server_uid;
use crate::errors::err_missing_dc;
use crate::errors::err_no_at_in_uid;
use crate::errors::err_only_uid;
use crate::errors::err_only_unique_identifier;
use crate::errors::err_too_many_cn;
use crate::errors::err_too_many_dc_segments;
use crate::errors::err_too_many_uid;
use crate::errors::err_too_many_unique_identifier;
use crate::errors::err_uid_cn_mismatch;
use crate::errors::msg_dc_uid_mismatch;
use crate::errors::msg_home_server_uid;
use crate::errors::msg_invalid_fid;
use crate::errors::msg_invalid_session_id;
use crate::errors::msg_missing_dc;
use crate::errors::msg_no_at_in_uid;
use crate::errors::msg_only_uid;
use crate::errors::msg_only_unique_identifier;
use crate::errors::msg_too_many_cn;
use crate::errors::msg_too_many_dc_segments;
use crate::errors::msg_too_many_uid;
use crate::errors::msg_too_many_unique_identifier;
use crate::errors::msg_uid_cn_mismatch;
use crate::fid::fid_match;
use crate::fid::validate_rdn_uid;
use crate::session::valid_session_id;
use crate::session::validate_rdn_unique_identifier;

verus! {

/// One level of a Distinguished Name: the attributes present together at that
/// level (typically exactly one).
pub struct RelativeDistinguishedName(pub Vec<AttributeTypeAndValue>);

impl View for RelativeDistinguishedName {
    type V = Seq<AttrView>;

    open spec fn view(&self) -> Seq<AttrView> {
        self.0@.map_values(|a: AttributeTypeAndValue| a@)
    }
}

/// A Distinguished Name: its relative components in order. The most specific
/// component stands last, so the Domain Components appear most general first;
/// conventional DN string notation lists the components in the opposite
/// order.
pub struct Name(pub Vec<RelativeDistinguishedName>);

impl View for Name {
    type V = Seq<Seq<AttrView>>;

    open spec fn view(&self) -> Seq<Seq<AttrView>> {
        self.0@.map_values(|r: RelativeDistinguishedName| r@)
    }
}

/// Which role a Distinguished Name is validated for.
#[derive(Clone, Copy, Debug, PartialEq, Eq, Structural)]
pub enum Target {
    Actor,
    HomeServer,
}

/// How many attributes of kind `k` one component holds.
pub open spec fn count_kind_in(attrs: Seq<AttrView>, k: AttrKind) -> nat
    decreases attrs.len(),
{
    if attrs.len() == 0 {
        0
    } else {
        count_kind_in(attrs.drop_last(), k) + if kind_of(attrs.last()) == k {
            1nat
        } else {
            0nat
        }
    }
}

/// How many attributes of kind `k` a whole name holds.
pub open spec fn count_kind(n: Seq<Seq<AttrView>>, k: AttrKind) -> nat
    decreases n.len(),
{
    if n.len() == 0 {
        0
    } else {
        count_kind(n.drop_last(), k) + count_kind_in(n.last(), k)
    }
}

/// How many attributes a whole name holds, of any kind.
pub open spec fn total_attrs(n: Seq<Seq<AttrView>>) -> nat
    decreases n.len(),
{
    if n.len() == 0 {
        0
    } else {
        total_attrs(n.drop_last()) + n.last().len()
    }
}

/// The values of one component's Domain Component attributes, in order.
pub open spec fn dc_values_in(attrs: Seq<AttrView>) -> Seq<Seq<u8>>
    decreases attrs.len(),
{
    if attrs.len() == 0 {
        Seq::empty()
    } else {
        dc_values_in(attrs.drop_last()) + if kind_of(attrs.last()) == AttrKind::DomainComponent {
            seq![attrs.last().value]
        } else {
            Seq::empty()
        }
    }
}

/// The values of a name's Domain Component attributes, in name order.
pub open spec fn dc_values(n: Seq<Seq<AttrView>>) -> Seq<Seq<u8>>
    decreases n.len(),
{
    if n.len() == 0 {
        Seq::empty()
    } else {
        dc_values(n.drop_last()) + dc_values_in(n.last())
    }
}

/// The value of the last attribute of kind `k` in one component, or `dflt`
/// when the component holds none.
pub open spec fn last_value_of_kind_in(attrs: Seq<AttrView>, k: AttrKind, dflt: Seq<u8>) -> Seq<u8>
    decreases attrs.len(),
{
    if attrs.len() == 0 {
        dflt
    } else if kind_of(attrs.last()) == k {
        attrs.last().value
    } else {
        last_value_of_kind_in(attrs.drop_last(), k, dflt)
    }
}

/// The value of the last attribute of kind `k` in a whole name, or `dflt`
/// when the name holds none.
pub open spec fn last_value_of_kind(n: Seq<Seq<AttrView>>, k: AttrKind, dflt: Seq<u8>) -> Seq<u8>
    decreases n.len(),
{
    if n.len() == 0 {
        dflt
    } else {
        last_value_of_kind_in(n.last(), k, last_value_of_kind(n.drop_last(), k, dflt))
    }
}

/// What stops the attribute walk early: an invalid federation identifier in a
/// UID attribute, an invalid session identifier in a uniqueIdentifier
/// attribute, or a second Common Name.
pub enum ScanError {
    BadFid,
    BadSessionId,
    TooManyCn,
}

/// Walk one component's attributes left to right with `num_cn` Common Names
/// already seen; return the first error, or the updated Common Name count.
pub open spec fn scan_attrs(attrs: Seq<AttrView>, num_cn: nat) -> Result<nat, ScanError>
    decreases attrs.len(),
{
    if attrs.len() == 0 {
        Ok(num_cn)
    } else {
        let a = attrs[0];
        let rest = attrs.drop_first();
        match kind_of(a) {
            AttrKind::Uid => if !fid_match(a.value) {
                Err(ScanError::BadFid)
            } else {
                scan_attrs(rest, num_cn)
            },
            AttrKind::UniqueIdentifier => if !valid_session_id(a.value) {
                Err(ScanError::BadSessionId)
            } else {
                scan_attrs(rest, num_cn)
            },
            AttrKind::CommonName => if num_cn + 1 > 1 {
                Err(ScanError::TooManyCn)
            } else {
                scan_attrs(rest, num_cn + 1)
            },
            _ => scan_attrs(rest, num_cn),
        }
    }
}

/// Walk a whole name's attributes, component by component.
pub open spec fn scan_name(n: Seq<Seq<AttrView>>, num_cn: nat) -> Result<nat, ScanError>
    decreases n.len(),
{
    if n.len() == 0 {
        Ok(num_cn)
    } else {
        match scan_attrs(n[0], num_cn) {
            Ok(c) => scan_name(n.drop_first(), c),
            Err(e) => Err(e),
        }
    }
}

/// How the reconstructed domain compares with the domain in the UID value.
pub enum DomainCheck {
    /// The UID value holds no `@`.
    NoAt,
    /// Some domain segment of the UID has no equal Domain Component at its
    /// position.
    Mismatch,
    /// More domain segments than the walk's 8-bit counter can index.
    TooManySegments,
    /// Every domain segment equals the Domain Component at its position.
    Matches,
}

/// The UID's domain segment at position `i` has no equal Domain Component at
/// that position — and the walk reaches the position (its 8-bit counter can
/// index it).
pub open spec fn seg_fails(segs: Seq<Seq<u8>>, dcs: Seq<Seq<u8>>, i: int) -> bool {
    0 <= i < segs.len() && i < 256 && !(i < dcs.len() && segs[i] == dcs[i])
}

/// Compare the UID's domain segments positionally against the Domain
/// Component values in `dcs` (already in most-general-first order).
pub open spec fn segments_check(segs: Seq<Seq<u8>>, dcs: Seq<Seq<u8>>) -> DomainCheck {
    if exists|i: int| seg_fails(segs, dcs, i) {
        DomainCheck::Mismatch
    } else if segs.len() > 255 {
        DomainCheck::TooManySegments
    } else {
        DomainCheck::Matches
    }
}

/// Split the UID value after its first `@` into dot-separated segments and
/// compare them against `dcs`.
pub open spec fn domain_check(dcs: Seq<Seq<u8>>, uid: Seq<u8>) -> DomainCheck {
    let p = first_byte_pos(uid, 64);
    if p >= uid.len() {
        DomainCheck::NoAt
    } else {
        segments_check(split_at_byte(uid.skip(p as int + 1), 46), dcs)
    }
}

/// How the UID's local part compares with the Common Name value.
pub enum CrossCheck {
    /// The UID value holds no `@`.
    NoAt,
    /// The local part of the UID differs from the Common Name value.
    Mismatch,
    /// The local part of the UID equals the Common Name value.
    Matches,
}

pub open spec fn cross_check(uid: Seq<u8>, cn: Seq<u8>) -> CrossCheck {
    let p = first_byte_pos(uid, 64);
    if p >= uid.len() {
        CrossCheck::NoAt
    } else if uid.take(p as int) == cn {
        CrossCheck::Matches
    } else {
        CrossCheck::Mismatch
    }
}

/// Everything `Name::validate` can decide, in the order the rules run.
pub enum Outcome {
    Accept,
    BadFid,
    BadSessionId,
    TooManyCn,
    HomeServerUid,
    DomainNoAt,
    DomainMismatch,
    DomainTooManySegments,
    CrossNoAt,
    CrossMismatch,
    MissingDc,
    TooManyUid(nat),
    TooManyUniqueIdentifier(nat),
    OnlyUniqueIdentifier,
    OnlyUid,
}

/// The rule chain that runs once the attribute walk has passed: the
/// target-conditional gates, the UID/Common Name cross check, and the
/// cardinality and pairing checks, in their fixed order.
pub open spec fn post_scan_outcome(n: Seq<Seq<AttrView>>, target: Option<Target>) -> Outcome {
    let num_cn = count_kind(n, AttrKind::CommonName);
    let num_dc = count_kind(n, AttrKind::DomainComponent);
    let num_uid = count_kind(n, AttrKind::Uid);
    let num_uqi = count_kind(n, AttrKind::UniqueIdentifier);
    let dcs = dc_values(n).reverse();
    let uid = last_value_of_kind(n, AttrKind::Uid, Seq::empty());
    let cn = last_value_of_kind(n, AttrKind::CommonName, Seq::empty());
    let domain = if target == Some(Target::Actor) || (target is None && num_uid != 0) {
        Some(domain_check(dcs, uid))
    } else {
        None
    };
    if target == Some(Target::HomeServer) && (num_uid > 0 || num_uqi > 0) {
        Outcome::HomeServerUid
    } else if domain == Some(DomainCheck::NoAt) {
        Outcome::DomainNoAt
    } else if domain == Some(DomainCheck::Mismatch) {
        Outcome::DomainMismatch
    } else if domain == Some(DomainCheck::TooManySegments) {
        Outcome::DomainTooManySegments
    } else if num_uid != 0 && num_cn != 0 && cross_check(uid, cn) is NoAt {
        Outcome::CrossNoAt
    } else if num_uid != 0 && num_cn != 0 && cross_check(uid, cn) is Mismatch {
        Outcome::CrossMismatch
    } else if num_dc == 0 {
        Outcome::MissingDc
    } else if num_uid > 1 {
        Outcome::TooManyUid(num_uid)
    } else if num_uqi > 1 {
        Outcome::TooManyUniqueIdentifier(num_uqi)
    } else if num_uqi > 0 && num_uid == 0 {
        Outcome::OnlyUniqueIdentifier
    } else if num_uid > 0 && num_uqi == 0 {
        Outcome::OnlyUid
    } else {
        Outcome::Accept
    }
}

/// Everything `Name::validate` decides, as a function of the name's content
/// and the target role.
pub open spec fn validation_outcome(n: Seq<Seq<AttrView>>, target: Option<Target>) -> Outcome {
    match scan_name(n, 0) {
        Err(ScanError::BadFid) => Outcome::BadFid,
        Err(ScanError::BadSessionId) => Outcome::BadSessionId,
        Err(ScanError::TooManyCn) => Outcome::TooManyCn,
        Ok(c) => post_scan_outcome(n, target),
    }
}

/// Which result `Name::validate` must return for each outcome: the success,
/// or the exact error variant, bounds, count and reason text.
pub open spec fn result_matches_outcome(r: Result<(), ConstraintError>, oc: Outcome) -> bool {
    match oc {
        Outcome::Accept => r is Ok,
        Outcome::BadFid => r matches Err(e) && e.is_malformed(msg_invalid_fid()),
        Outcome::BadSessionId => r matches Err(e) && e.is_malformed(msg_invalid_session_id()),
        Outcome::TooManyCn => r matches Err(e) && e.is_out_of_bounds(1, 1, 2, msg_too_many_cn()),
        Outcome::HomeServerUid => r matches Err(e) && e.is_out_of_bounds(
            0,
            0,
            1,
            msg_home_server_uid(),
        ),
        Outcome::DomainNoAt => r matches Err(e) && e.is_malformed(msg_no_at_in_uid()),
        Outcome::DomainMismatch => r matches Err(e) && e.is_malformed(msg_dc_uid_mismatch()),
        Outcome::DomainTooManySegments => r matches Err(e) && e.is_malformed(
            msg_too_many_dc_segments(),
        ),
        Outcome::CrossNoAt => r matches Err(e) && e.is_malformed(msg_no_at_in_uid()),
        Outcome::CrossMismatch => r matches Err(e) && e.is_malformed(msg_uid_cn_mismatch()),
        Outcome::MissingDc => r matches Err(e) && e.is_out_of_bounds(1, 255, 0, msg_missing_dc()),
        Outcome::TooManyUid(c) => r matches Err(e) && c <= usize::MAX && e.is_out_of_bounds(
            0,
            1,
            c as usize,
            msg_too_many_uid(),
        ),
        Outcome::TooManyUniqueIdentifier(c) => r matches Err(e) && c <= usize::MAX
            && e.is_out_of_bounds(0, 1, c as usize, msg_too_many_unique_identifier()),
        Outcome::OnlyUniqueIdentifier => r matches Err(e) && e.is_out_of_bounds(
            1,
            1,
            0,
            msg_only_unique_identifier(),
        ),
        Outcome::OnlyUid => r matches Err(e) && e.is_out_of_bounds(1, 1, 0, msg_only_uid()),
    }
}

pub proof fn lemma_count_kind_in_le(attrs: Seq<AttrView>, k: AttrKind)
    ensures
        count_kind_in(attrs, k) <= attrs.len(),
    decreases attrs.len(),
{
    if attrs.len() > 0 {
        lemma_count_kind_in_le(attrs.drop_last(), k);
    }
}

pub proof fn lemma_count_kind_le_total(n: Seq<Seq<AttrView>>, k: AttrKind)
    ensures
        count_kind(n, k) <= total_attrs(n),
    decreases n.len(),
{
    if n.len() > 0 {
        lemma_count_kind_le_total(n.drop_last(), k);
        lemma_count_kind_in_le(n.last(), k);
    }
}

pub proof fn lemma_total_attrs_take_succ(n: Seq<Seq<AttrView>>, i: int)
    requires
        0 <= i < n.len(),
    ensures
        total_attrs(n.take(i + 1)) == total_attrs(n.take(i)) + n[i].len(),
{
    assert(n.take(i + 1).drop_last() =~= n.take(i));
    assert(n.take(i + 1).last() == n[i]);
}

pub proof fn lemma_total_attrs_take_le(n: Seq<Seq<AttrView>>, i: int)
    requires
        0 <= i <= n.len(),
    ensures
        total_attrs(n.take(i)) <= total_attrs(n),
    decreases n.len() - i,
{
    if i == n.len() {
        assert(n.take(i) =~= n);
    } else {
        lemma_total_attrs_take_succ(n, i);
        lemma_total_attrs_take_le(n, i + 1);
    }
}

/// Reverse the list of Domain Component values.
fn reversed_values(v: &Vec<Vec<u8>>) -> (r: Vec<Vec<u8>>)
    ensures
        r.deep_view() == v.deep_view().reverse(),
{
    let mut r: Vec<Vec<u8>> = Vec::new();
    let mut i: usize = v.len();
    while i > 0
        invariant
            i <= v@.len(),
            r.deep_view().len() == v@.len() - i,
            forall|m: int|
                0 <= m < r.deep_view().len() ==> r.deep_view()[m] == v.deep_view()[v@.len() - 1
                    - m],
        decreases i,
    {
        i -= 1;
        let ghost old_r = r.deep_view();
        r.push(copy_bytes(&v[i]));
        proof {
            assert(r.deep_view() =~~= old_r.push(v.deep_view()[i as int]));
        }
    }
    proof {
        assert(r.deep_view() =~~= v.deep_view().reverse());
    }
    r
}

/// Check that the domain segments of the UID value equal, position by
/// position, the Domain Component values in `vec_dc` (given most general
/// first, i.e. already reversed from name order).
pub fn validate_dc_matches_dc_in_uid(vec_dc: &Vec<Vec<u8>>, uid: &Vec<u8>) -> (r: Result<
    (),
    ConstraintError,
>)
    ensures
        match domain_check(vec_dc.deep_view(), uid@) {
            DomainCheck::Matches => r is Ok,
            DomainCheck::NoAt => r matches Err(e) && e.is_malformed(msg_no_at_in_uid()),
            DomainCheck::Mismatch => r matches Err(e) && e.is_malformed(msg_dc_uid_mismatch()),
            DomainCheck::TooManySegments => r matches Err(e) && e.is_malformed(
                msg_too_many_dc_segments(),
            ),
        },
{
    let p = first_byte_pos_exec(uid, 64);
    proof {
        lemma_first_byte_pos(uid@, 64);
    }
    if p == uid.len() {
        return Err(err_no_at_in_uid());
    }
    let rest = subvec(uid, p + 1, uid.len());
    proof {
        assert(rest@ =~= uid@.skip(p as int + 1));
    }
    let segs = split_at_byte_exec(&rest, 46);
    let ghost segs_v = split_at_byte(uid@.skip(p as int + 1), 46);
    let mut index: u8 = 0;
    let mut k: usize = 0;
    while k < segs.len()
        invariant
            k <= segs@.len(),
            segs.deep_view() == segs_v,
            p == first_byte_pos(uid@, 64),
            p < uid@.len(),
            segs_v == split_at_byte(uid@.skip(p as int + 1), 46),
            vec_dc.deep_view().len() == vec_dc@.len(),
            index as int == k,
            forall|m: int|
                0 <= m < k ==> m < vec_dc.deep_view().len() && #[trigger] segs_v[m]
                    == vec_dc.deep_view()[m],
        decreases segs@.len() - k,
    {
        if (index as usize) >= vec_dc.len() {
            proof {
                let dcs = vec_dc.deep_view();
                let ki = k as int;
                assert(segs_v.len() == segs@.len());
                assert(seg_fails(segs_v, dcs, ki));
                assert(segments_check(segs_v, dcs) == DomainCheck::Mismatch);
            }
            return Err(err_dc_uid_mismatch());
        }
        if !bytes_eq(&segs[k], &vec_dc[index as usize]) {
            proof {
                lemma_bytes_deep_view(segs@[k as int]);
                lemma_bytes_deep_view(vec_dc@[k as int]);
                assert(segs.deep_view()[k as int] == segs@[k as int].deep_view());
                assert(vec_dc.deep_view()[k as int] == vec_dc@[k as int].deep_view());
                let dcs = vec_dc.deep_view();
                let ki = k as int;
                assert(segs_v.len() == segs@.len());
                assert(seg_fails(segs_v, dcs, ki));
                assert(segments_check(segs_v, dcs) == DomainCheck::Mismatch);
            }
            return Err(err_dc_uid_mismatch());
        }
        proof {
            lemma_bytes_deep_view(segs@[k as int]);
            lemma_bytes_deep_view(vec_dc@[k as int]);
            assert(segs.deep_view()[k as int] == segs@[k as int].deep_view());
            assert(vec_dc.deep_view()[k as int] == vec_dc@[k as int].deep_view());
        }
        index = match index.checked_add(1) {
            Some(x) => x,
            None => {
                proof {
                    let dcs = vec_dc.deep_view();
                    assert(segs_v.len() == segs@.len());
                    assert(segs_v.len() > 255);
                    assert forall|m: int| !seg_fails(segs_v, dcs, m) by {
                        if 0 <= m < k + 1 {
                            assert(m < dcs.len() && segs_v[m] == dcs[m]);
                        }
                    }
                    assert(segments_check(segs_v, dcs) == DomainCheck::TooManySegments);
                }
                return Err(err_too_many_dc_segments());
            },
        };
        k += 1;
    }
    proof {
        let dcs = vec_dc.deep_view();
        assert(segs_v.len() == segs@.len());
        assert(k >= segs@.len());
        assert(segs_v.len() <= 255);
        assert forall|m: int| !seg_fails(segs_v, dcs, m) by {
            if 0 <= m < segs_v.len() {
                assert(m < k);
                assert(segs_v[m] == vec_dc.deep_view()[m]);
                assert(m < vec_dc.deep_view().len());
            }
        }
        assert(segments_check(segs_v, dcs) == DomainCheck::Matches);
    }
    Ok(())
}

/// Check that the local part of the UID value — everything before its first
/// `@` — equals the Common Name value exactly.
pub fn validate_uid_username_matches_cn(uid: &Vec<u8>, cn: &Vec<u8>) -> (r: Result<
    (),
    ConstraintError,
>)
    ensures
        match cross_check(uid@, cn@) {
            CrossCheck::Matches => r is Ok,
            CrossCheck::NoAt => r matches Err(e) && e.is_malformed(msg_no_at_in_uid()),
            CrossCheck::Mismatch => r matches Err(e) && e.is_malformed(msg_uid_cn_mismatch()),
        },
{
    let p = first_byte_pos_exec(uid, 64);
    proof {
        lemma_first_byte_pos(uid@, 64);
    }
    if p == uid.len() {
        return Err(err_no_at_in_uid());
    }
    let username = subvec(uid, 0, p);
    proof {
        assert(username@ =~= uid@.take(p as int));
    }
    if bytes_eq(&username, cn) {
        Ok(())
    } else {
        Err(err_uid_cn_mismatch())
    }
}

impl Name {
    /// Validate this Distinguished Name for the given target role: walk the
    /// attributes, classifying and checking each, then enforce the
    /// role-conditional domain rules, the UID/Common Name cross match, and
    /// the cardinality and pairing rules, in the fixed order that
    /// [`validation_outcome`] states.
    pub fn validate(&self, target: Option<Target>) -> (r: Result<(), ConstraintError>)
        requires
            total_attrs(self@) <= usize::MAX,
        ensures
            result_matches_outcome(r, validation_outcome(self@, target)),
            r is Ok <==> validation_outcome(self@, target) == Outcome::Accept,
    {
        let ghost nv = self@;
        let mut num_cn: usize = 0;
        let mut num_dc: usize = 0;
        let mut num_uid: usize = 0;
        let mut num_unique_identifier: usize = 0;
        let mut vec_dc: Vec<Vec<u8>> = Vec::new();
        let mut uid: Vec<u8> = Vec::new();
        let mut cn: Vec<u8> = Vec::new();
        let mut i: usize = 0;
        proof {
            assert(nv.take(0) =~= Seq::<Seq<AttrView>>::empty());
            assert(nv.skip(0) =~= nv);
            assert(vec_dc.deep_view() =~~= dc_values(nv.take(0)));
        }
        while i < self.0.len()
            invariant
                total_attrs(nv) <= usize::MAX,
                nv == self@,
                i <= self.0@.len() == nv.len(),
                num_cn == count_kind(nv.take(i as int), AttrKind::CommonName),
                num_dc == count_kind(nv.take(i as int), AttrKind::DomainComponent),
                num_uid == count_kind(nv.take(i as int), AttrKind::Uid),
                num_unique_identifier == count_kind(nv.take(i as int), AttrKind::UniqueIdentifier),
                num_cn <= 1,
                vec_dc.deep_view() == dc_values(nv.take(i as int)),
                uid@ == last_value_of_kind(nv.take(i as int), AttrKind::Uid, Seq::empty()),
                cn@ == last_value_of_kind(nv.take(i as int), AttrKind::CommonName, Seq::empty()),
                scan_name(nv, 0) == scan_name(nv.skip(i as int), num_cn as nat),
            decreases nv.len() - i,
        {
            let rdn = &self.0[i];
            let ghost rv = nv[i as int];
            proof {
                assert(rdn@ == rv);
            }
            let mut j: usize = 0;
            proof {
                assert(rv.take(0) =~= Seq::<AttrView>::empty());
                assert(rv.skip(0) =~= rv);
                assert(nv.skip(i as int)[0] == nv[i as int]);
                assert(nv.skip(i as int).drop_first() =~= nv.skip(i as int + 1));
            }
            while j < rdn.0.len()
                invariant
                    total_attrs(nv) <= usize::MAX,
                    nv == self@,
                    i < nv.len(),
                    rdn@ == rv,
                    rv == nv[i as int],
                    j <= rdn.0@.len() == rv.len(),
                    num_cn == count_kind(nv.take(i as int), AttrKind::CommonName) + count_kind_in(
                        rv.take(j as int),
                        AttrKind::CommonName,
                    ),
                    num_dc == count_kind(nv.take(i as int), AttrKind::DomainComponent)
                        + count_kind_in(rv.take(j as int), AttrKind::DomainComponent),
                    num_uid == count_kind(nv.take(i as int), AttrKind::Uid) + count_kind_in(
                        rv.take(j as int),
                        AttrKind::Uid,
                    ),
                    num_unique_identifier == count_kind(nv.take(i as int), AttrKind::UniqueIdentifier)
                        + count_kind_in(rv.take(j as int), AttrKind::UniqueIdentifier),
                    num_cn <= 1,
                    vec_dc.deep_view() == dc_values(nv.take(i as int)) + dc_values_in(
                        rv.take(j as int),
                    ),
                    uid@ == last_value_of_kind_in(
                        rv.take(j as int),
                        AttrKind::Uid,
                        last_value_of_kind(nv.take(i as int), AttrKind::Uid, Seq::empty()),
                    ),
                    cn@ == last_value_of_kind_in(
                        rv.take(j as int),
                        AttrKind::CommonName,
                        last_value_of_kind(nv.take(i as int), AttrKind::CommonName, Seq::empty()),
                    ),
                    scan_name(nv, 0) == (match scan_attrs(rv.skip(j as int), num_cn as nat) {
                        Ok(c) => scan_name(nv.skip(i as int + 1), c),
                        Err(e) => Err(e),
                    }),
                decreases rv.len() - j,
            {
                let item = &rdn.0[j];
                let ghost av = rv[j as int];
                proof {
                    assert(item@ == av);
                    assert(rv.take(j as int + 1).drop_last() =~= rv.take(j as int));
                    assert(rv.take(j as int + 1).last() == av);
                    assert(rv.skip(j as int)[0] == av);
                    assert(rv.skip(j as int).drop_first() =~= rv.skip(j as int + 1));
                    lemma_count_kind_le_total(nv.take(i as int), AttrKind::Uid);
                    lemma_count_kind_le_total(nv.take(i as int), AttrKind::DomainComponent);
                    lemma_count_kind_le_total(
                        nv.take(i as int),
                        AttrKind::UniqueIdentifier,
                    );
                    lemma_count_kind_in_le(rv.take(j as int), AttrKind::Uid);
                    lemma_count_kind_in_le(rv.take(j as int), AttrKind::DomainComponent);
                    lemma_count_kind_in_le(rv.take(j as int), AttrKind::UniqueIdentifier);
                    lemma_total_attrs_take_succ(nv, i as int);
                    lemma_total_attrs_take_le(nv, i as int + 1);
                }
                match attr_kind(&item.oid) {
                    AttrKind::Uid => {
                        num_uid = num_uid + 1;
                        uid = copy_bytes(&item.value);
                        match validate_rdn_uid(item) {
                            Ok(()) => {},
                            Err(e) => {
                                return Err(e);
                            },
                        }
                    },
                    AttrKind::UniqueIdentifier => {
                        num_unique_identifier = num_unique_identifier + 1;
                        match validate_rdn_unique_identifier(item) {
                            Ok(()) => {},
                            Err(e) => {
                                return Err(e);
                            },
                        }
                    },
                    AttrKind::CommonName => {
                        num_cn = num_cn + 1;
                        cn = copy_bytes(&item.value);
                        if num_cn > 1 {
                            return Err(err_too_many_cn(num_cn));
                        }
                    },
                    AttrKind::DomainComponent => {
                        num_dc = num_dc + 1;
                        let ghost old_dc = vec_dc.deep_view();
                        vec_dc.push(copy_bytes(&item.value));
                        proof {
                            assert(vec_dc.deep_view() =~~= old_dc.push(av.value));
                            assert(old_dc.push(av.value) =~~= old_dc + seq![av.value]);
                        }
                    },
                    AttrKind::Ignored => {},
                }
                j += 1;
            }
            proof {
                assert(rv.take(j as int) =~= rv);
                assert(rv.skip(j as int) =~= Seq::<AttrView>::empty());
                assert(nv.take(i as int + 1).drop_last() =~= nv.take(i as int));
                assert(nv.take(i as int + 1).last() == rv);
            }
            i += 1;
        }
        proof {
            assert(nv.take(i as int) =~= nv);
            assert(nv.skip(i as int) =~= Seq::<Seq<AttrView>>::empty());
        }
        let vec_dc_rev = reversed_values(&vec_dc);
        match target {
            Some(Target::Actor) => {
                match validate_dc_matches_dc_in_uid(&vec_dc_rev, &uid) {
                    Ok(()) => {},
                    Err(e) => {
                        return Err(e);
                    },
                }
            },
            Some(Target::HomeServer) => {
                if num_uid > 0 || num_unique_identifier > 0 {
                    return Err(err_home_server_uid());
                }
            },
            None => {
                if num_uid != 0 {
                    match validate_dc_matches_dc_in_uid(&vec_dc_rev, &uid) {
                        Ok(()) => {},
                        Err(e) => {
                            return Err(e);
                        },
                    }
                }
            },
        }
        if num_uid != 0 && num_cn != 0 {
            match validate_uid_username_matches_cn(&uid, &cn) {
                Ok(()) => {},
                Err(e) => {
                    return Err(e);
                },
            }
        }
        if num_dc == 0 {
            return Err(err_missing_dc());
        }
        if num_uid > 1 {
            return Err(err_too_many_uid(num_uid));
        }
        if num_unique_identifier > 1 {
            return Err(err_too_many_unique_identifier(num_unique_identifier));
        }
        if num_unique_identifier > 0 && num_uid == 0 {
            return Err(err_only_unique_identifier(num_uid));
        }
        if num_uid > 0 && num_unique_identifier == 0 {
            return Err(err_only_uid(num_unique_identifier));
        }
        Ok(())
    }
}

} // verus!
