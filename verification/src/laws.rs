use vstd::prelude::*;

use crate::attributes::AttrKind;
use crate::attributes::AttrView;
use crate::attributes::kind_of;
use crate::bytes::first_byte_pos;
use crate::bytes::lemma_split_at_byte_len;
use crate::bytes::split_at_byte;
use crate::errors::ConstraintError;
use crate::fid::fid_match;
use crate::name::CrossCheck;
use crate::name::DomainCheck;
use crate::name::Outcome;
use crate::name::ScanError;
use crate::name::Target;
use crate::name::count_kind;
use crate::name::count_kind_in;
use crate::name::cross_check;
use crate::name::dc_values;
use crate::name::dc_values_in;
use crate::name::domain_check;
use crate::name::last_value_of_kind;
use crate::name::post_scan_outcome;
use crate::name::result_matches_outcome;
use crate::name::scan_attrs;
use crate::name::scan_name;
use crate::name::seg_fails;
use crate::name::segments_check;
use crate::name::validation_outcome;
use crate::session::valid_session_id;

verus! {

/// Every UID attribute of the component carries a well-formed federation
/// identifier, and every uniqueIdentifier attribute a well-formed session
/// identifier.
pub open spec fn scan_clean_attrs(attrs: Seq<AttrView>) -> bool {
    forall|j: int|
        0 <= j < attrs.len() ==> ((kind_of(#[trigger] attrs[j]) == AttrKind::Uid ==> fid_match(
            attrs[j].value,
        )) && (kind_of(attrs[j]) == AttrKind::UniqueIdentifier ==> valid_session_id(
            attrs[j].value,
        )))
}

/// Every UID and uniqueIdentifier attribute of the name carries a well-formed
/// value, so the attribute walk can only stop on a second Common Name.
pub open spec fn scan_clean(n: Seq<Seq<AttrView>>) -> bool {
    forall|i: int| 0 <= i < n.len() ==> scan_clean_attrs(#[trigger] n[i])
}

proof fn lemma_count_in_head(attrs: Seq<AttrView>, k: AttrKind)
    requires
        attrs.len() > 0,
    ensures
        count_kind_in(attrs, k) == (if kind_of(attrs[0]) == k {
            1nat
        } else {
            0nat
        }) + count_kind_in(attrs.drop_first(), k),
    decreases attrs.len(),
{
    if attrs.len() == 1 {
        assert(attrs.drop_first() =~= Seq::<AttrView>::empty());
        assert(attrs.drop_last() =~= Seq::<AttrView>::empty());
        assert(attrs.last() == attrs[0]);
    } else {
        let dl = attrs.drop_last();
        lemma_count_in_head(dl, k);
        assert(dl[0] == attrs[0]);
        assert(dl.drop_first() =~= attrs.drop_first().drop_last());
        assert(attrs.drop_first().last() == attrs.last());
    }
}

proof fn lemma_count_head(n: Seq<Seq<AttrView>>, k: AttrKind)
    requires
        n.len() > 0,
    ensures
        count_kind(n, k) == count_kind_in(n[0], k) + count_kind(n.drop_first(), k),
    decreases n.len(),
{
    if n.len() == 1 {
        assert(n.drop_first() =~= Seq::<Seq<AttrView>>::empty());
        assert(n.drop_last() =~= Seq::<Seq<AttrView>>::empty());
        assert(n.last() == n[0]);
    } else {
        let dl = n.drop_last();
        lemma_count_head(dl, k);
        assert(dl[0] == n[0]);
        assert(dl.drop_first() =~= n.drop_first().drop_last());
        assert(n.drop_first().last() == n.last());
    }
}

proof fn lemma_scan_attrs_clean(attrs: Seq<AttrView>, c: nat)
    requires
        scan_clean_attrs(attrs),
    ensures
        scan_attrs(attrs, c) == (if count_kind_in(attrs, AttrKind::CommonName) >= 1 && c
            + count_kind_in(attrs, AttrKind::CommonName) >= 2 {
            Err::<nat, ScanError>(ScanError::TooManyCn)
        } else {
            Ok::<nat, ScanError>((c + count_kind_in(attrs, AttrKind::CommonName)) as nat)
        }),
    decreases attrs.len(),
{
    if attrs.len() == 0 {
        assert(count_kind_in(attrs, AttrKind::CommonName) == 0);
    } else {
        let rest = attrs.drop_first();
        assert(scan_clean_attrs(rest)) by {
            assert forall|j: int| 0 <= j < rest.len() implies ((kind_of(#[trigger] rest[j])
                == AttrKind::Uid ==> fid_match(rest[j].value)) && (kind_of(rest[j])
                == AttrKind::UniqueIdentifier ==> valid_session_id(rest[j].value))) by {
                assert(rest[j] == attrs[j + 1]);
            }
        }
        assert(kind_of(attrs[0]) == AttrKind::Uid ==> fid_match(attrs[0].value));
        assert(kind_of(attrs[0]) == AttrKind::UniqueIdentifier ==> valid_session_id(
            attrs[0].value,
        ));
        lemma_count_in_head(attrs, AttrKind::CommonName);
        if kind_of(attrs[0]) == AttrKind::CommonName {
            if c + 1 > 1 {
            } else {
                lemma_scan_attrs_clean(rest, c + 1);
            }
        } else {
            lemma_scan_attrs_clean(rest, c);
        }
    }
}

proof fn lemma_scan_name_clean(n: Seq<Seq<AttrView>>, c: nat)
    requires
        scan_clean(n),
    ensures
        scan_name(n, c) == (if count_kind(n, AttrKind::CommonName) >= 1 && c + count_kind(
            n,
            AttrKind::CommonName,
        ) >= 2 {
            Err::<nat, ScanError>(ScanError::TooManyCn)
        } else {
            Ok::<nat, ScanError>((c + count_kind(n, AttrKind::CommonName)) as nat)
        }),
    decreases n.len(),
{
    if n.len() == 0 {
        assert(count_kind(n, AttrKind::CommonName) == 0);
    } else {
        let rest = n.drop_first();
        assert(scan_clean(rest)) by {
            assert forall|i: int| 0 <= i < rest.len() implies scan_clean_attrs(
                #[trigger] rest[i],
            ) by {
                assert(rest[i] == n[i + 1]);
            }
        }
        assert(scan_clean_attrs(n[0]));
        lemma_count_head(n, AttrKind::CommonName);
        lemma_scan_attrs_clean(n[0], c);
        match scan_attrs(n[0], c) {
            Ok(c2) => {
                lemma_scan_name_clean(rest, c2);
            },
            Err(e) => {},
        }
    }
}

proof fn lemma_dc_values_in_len(attrs: Seq<AttrView>)
    ensures
        dc_values_in(attrs).len() == count_kind_in(attrs, AttrKind::DomainComponent),
    decreases attrs.len(),
{
    if attrs.len() > 0 {
        lemma_dc_values_in_len(attrs.drop_last());
    }
}

proof fn lemma_dc_values_len(n: Seq<Seq<AttrView>>)
    ensures
        dc_values(n).len() == count_kind(n, AttrKind::DomainComponent),
    decreases n.len(),
{
    if n.len() > 0 {
        lemma_dc_values_len(n.drop_last());
        lemma_dc_values_in_len(n.last());
    }
}

proof fn lemma_count_in_zero(attrs: Seq<AttrView>, k: AttrKind)
    requires
        count_kind_in(attrs, k) == 0,
    ensures
        forall|j: int| 0 <= j < attrs.len() ==> kind_of(#[trigger] attrs[j]) != k,
    decreases attrs.len(),
{
    if attrs.len() > 0 {
        lemma_count_in_zero(attrs.drop_last(), k);
        assert forall|j: int| 0 <= j < attrs.len() implies kind_of(#[trigger] attrs[j]) != k by {
            if j < attrs.len() - 1 {
                assert(attrs[j] == attrs.drop_last()[j]);
            } else {
                assert(attrs[j] == attrs.last());
            }
        }
    }
}

proof fn lemma_count_zero(n: Seq<Seq<AttrView>>, k: AttrKind)
    requires
        count_kind(n, k) == 0,
    ensures
        forall|i: int| 0 <= i < n.len() ==> count_kind_in(#[trigger] n[i], k) == 0,
    decreases n.len(),
{
    if n.len() > 0 {
        lemma_count_zero(n.drop_last(), k);
        assert forall|i: int| 0 <= i < n.len() implies count_kind_in(#[trigger] n[i], k) == 0 by {
            if i < n.len() - 1 {
                assert(n[i] == n.drop_last()[i]);
            } else {
                assert(n[i] == n.last());
            }
        }
    }
}

/// Law: a well-formed Actor name is accepted. A name whose UID and
/// uniqueIdentifier values are well formed, with exactly one Common Name, one
/// UID and one uniqueIdentifier, whose UID domain segments equal, position by
/// position, the reversed Domain Component chain, and whose UID local part
/// equals the Common Name value, validates successfully for the Actor target.
pub proof fn lemma_actor_well_formed_accepted(n: Seq<Seq<AttrView>>)
    requires
        scan_clean(n),
        count_kind(n, AttrKind::CommonName) == 1,
        count_kind(n, AttrKind::Uid) == 1,
        count_kind(n, AttrKind::UniqueIdentifier) == 1,
        count_kind(n, AttrKind::DomainComponent) <= 255,
        ({
            let uid = last_value_of_kind(n, AttrKind::Uid, Seq::empty());
            let p = first_byte_pos(uid, 64);
            &&& p < uid.len()
            &&& split_at_byte(uid.skip(p as int + 1), 46) == dc_values(n).reverse()
            &&& uid.take(p as int) == last_value_of_kind(n, AttrKind::CommonName, Seq::empty())
        }),
    ensures
        validation_outcome(n, Some(Target::Actor)) == Outcome::Accept,
{
    lemma_scan_name_clean(n, 0);
    let uid = last_value_of_kind(n, AttrKind::Uid, Seq::empty());
    let p = first_byte_pos(uid, 64);
    let dcs = dc_values(n).reverse();
    let segs = split_at_byte(uid.skip(p as int + 1), 46);
    lemma_split_at_byte_len(uid.skip(p as int + 1), 46);
    lemma_dc_values_len(n);
    assert(dcs.len() == dc_values(n).len());
    assert forall|m: int| !seg_fails(segs, dcs, m) by {
        if 0 <= m < segs.len() && m < 256 {
            assert(segs[m] == dcs[m]);
        }
    }
    assert(segments_check(segs, dcs) == DomainCheck::Matches);
    assert(domain_check(dcs, uid) == DomainCheck::Matches);
    assert(cross_check(uid, last_value_of_kind(n, AttrKind::CommonName, Seq::empty()))
        == CrossCheck::Matches);
    assert(count_kind(n, AttrKind::DomainComponent) >= 1);
    assert(post_scan_outcome(n, Some(Target::Actor)) == Outcome::Accept);
}

/// Law: changing one Domain Component breaks acceptance. If a name validates
/// for the Actor target with as many UID domain segments as Domain
/// Components, then a name identical but for one changed Domain Component
/// value fails with the domain/UID mismatch violation.
pub proof fn lemma_changed_dc_rejected(
    n1: Seq<Seq<AttrView>>,
    n2: Seq<Seq<AttrView>>,
    i: int,
    w: Seq<u8>,
)
    requires
        validation_outcome(n1, Some(Target::Actor)) == Outcome::Accept,
        scan_clean(n2),
        count_kind(n2, AttrKind::CommonName) <= 1,
        last_value_of_kind(n2, AttrKind::Uid, Seq::empty()) == last_value_of_kind(
            n1,
            AttrKind::Uid,
            Seq::empty(),
        ),
        0 <= i < dc_values(n1).len(),
        w != dc_values(n1)[i],
        dc_values(n2) == dc_values(n1).update(i, w),
        split_at_byte(
            last_value_of_kind(n1, AttrKind::Uid, Seq::empty()).skip(
                first_byte_pos(last_value_of_kind(n1, AttrKind::Uid, Seq::empty()), 64) as int + 1,
            ),
            46,
        ).len() == dc_values(n1).len(),
    ensures
        validation_outcome(n2, Some(Target::Actor)) == Outcome::DomainMismatch,
{
    let uid = last_value_of_kind(n1, AttrKind::Uid, Seq::empty());
    let p = first_byte_pos(uid, 64);
    let dcs1 = dc_values(n1).reverse();
    let dcs2 = dc_values(n2).reverse();
    let len = dc_values(n1).len();
    assert(scan_name(n1, 0) is Ok);
    assert(domain_check(dcs1, uid) == DomainCheck::Matches);
    assert(p < uid.len());
    let segs = split_at_byte(uid.skip(p as int + 1), 46);
    assert(segments_check(segs, dcs1) == DomainCheck::Matches);
    assert(segs.len() <= 255);
    let k0 = len - 1 - i;
    assert(dcs2 =~= dcs1.update(k0, w));
    assert(!seg_fails(segs, dcs1, k0));
    assert(segs[k0] == dcs1[k0]);
    assert(dcs1[k0] == dc_values(n1)[i]);
    assert(seg_fails(segs, dcs2, k0));
    assert(segments_check(segs, dcs2) == DomainCheck::Mismatch);
    lemma_scan_name_clean(n2, 0);
    assert(domain_check(dcs2, uid) == DomainCheck::Mismatch);
    assert(post_scan_outcome(n2, Some(Target::Actor)) == Outcome::DomainMismatch);
}

/// Law: a UID with more domain segments than there are Domain Components is
/// rejected with a content violation, even when every Domain Component
/// matches its segment.
pub proof fn lemma_extra_uid_segment_rejected(n: Seq<Seq<AttrView>>, target: Option<Target>)
    requires
        scan_clean(n),
        count_kind(n, AttrKind::CommonName) <= 1,
        target == Some(Target::Actor) || (target is None && count_kind(n, AttrKind::Uid) != 0),
        ({
            let uid = last_value_of_kind(n, AttrKind::Uid, Seq::empty());
            let p = first_byte_pos(uid, 64);
            let segs = split_at_byte(uid.skip(p as int + 1), 46);
            let dcs = dc_values(n).reverse();
            &&& p < uid.len()
            &&& segs.len() > dcs.len()
            &&& forall|m: int| 0 <= m < dcs.len() ==> #[trigger] segs[m] == dcs[m]
        }),
    ensures
        validation_outcome(n, target) == Outcome::DomainMismatch || validation_outcome(n, target)
            == Outcome::DomainTooManySegments,
        forall|r: Result<(), ConstraintError>|
            result_matches_outcome(r, validation_outcome(n, target)) ==> r matches Err(
                ConstraintError::Malformed(Some(_)),
            ),
{
    lemma_scan_name_clean(n, 0);
    let uid = last_value_of_kind(n, AttrKind::Uid, Seq::empty());
    let p = first_byte_pos(uid, 64);
    let segs = split_at_byte(uid.skip(p as int + 1), 46);
    let dcs = dc_values(n).reverse();
    if dcs.len() < 256 {
        assert(seg_fails(segs, dcs, dcs.len() as int));
        assert(segments_check(segs, dcs) == DomainCheck::Mismatch);
        assert(post_scan_outcome(n, target) == Outcome::DomainMismatch);
    } else {
        assert forall|m: int| !seg_fails(segs, dcs, m) by {
            if 0 <= m < segs.len() && m < 256 {
                assert(segs[m] == dcs[m]);
            }
        }
        assert(segs.len() > 255);
        assert(segments_check(segs, dcs) == DomainCheck::TooManySegments);
        assert(post_scan_outcome(n, target) == Outcome::DomainTooManySegments);
    }
}

/// Law: two Common Names are rejected with the cardinality violation
/// OutOfBounds(1, 1, 2), whatever the target, provided no UID or
/// uniqueIdentifier value fails first during the walk.
pub proof fn lemma_two_common_names_rejected(n: Seq<Seq<AttrView>>, target: Option<Target>)
    requires
        scan_clean(n),
        count_kind(n, AttrKind::CommonName) >= 2,
    ensures
        validation_outcome(n, target) == Outcome::TooManyCn,
        forall|r: Result<(), ConstraintError>|
            result_matches_outcome(r, validation_outcome(n, target)) ==> (r matches Err(e)
                && e.is_out_of_bounds(1, 1, 2, crate::errors::msg_too_many_cn())),
{
    lemma_scan_name_clean(n, 0);
}

/// Law: a name without Domain Components is rejected with the cardinality
/// violation OutOfBounds(1, 255, 0), when no earlier rule fires: no UID is
/// present, and for the Home Server target no uniqueIdentifier either.
pub proof fn lemma_missing_domain_component_rejected(n: Seq<Seq<AttrView>>, target: Option<Target>)
    requires
        scan_clean(n),
        count_kind(n, AttrKind::CommonName) <= 1,
        count_kind(n, AttrKind::DomainComponent) == 0,
        count_kind(n, AttrKind::Uid) == 0,
        target is None || (target == Some(Target::HomeServer) && count_kind(
            n,
            AttrKind::UniqueIdentifier,
        ) == 0),
    ensures
        validation_outcome(n, target) == Outcome::MissingDc,
{
    lemma_scan_name_clean(n, 0);
    assert(post_scan_outcome(n, target) == Outcome::MissingDc);
}

/// Law: the Home Server target rejects every name that carries a UID or a
/// uniqueIdentifier attribute.
pub proof fn lemma_home_server_rejects_uid(n: Seq<Seq<AttrView>>)
    requires
        count_kind(n, AttrKind::Uid) > 0 || count_kind(n, AttrKind::UniqueIdentifier) > 0,
    ensures
        validation_outcome(n, Some(Target::HomeServer)) != Outcome::Accept,
{
    match scan_name(n, 0) {
        Ok(c) => {
            assert(post_scan_outcome(n, Some(Target::HomeServer)) == Outcome::HomeServerUid);
        },
        Err(e) => {},
    }
}

/// Law: the Home Server target accepts a name of at most one Common Name, at
/// least one Domain Component, and no UID or uniqueIdentifier.
pub proof fn lemma_home_server_accepts_cn_dc(n: Seq<Seq<AttrView>>)
    requires
        count_kind(n, AttrKind::CommonName) <= 1,
        count_kind(n, AttrKind::Uid) == 0,
        count_kind(n, AttrKind::UniqueIdentifier) == 0,
        count_kind(n, AttrKind::DomainComponent) >= 1,
    ensures
        validation_outcome(n, Some(Target::HomeServer)) == Outcome::Accept,
{
    lemma_count_zero(n, AttrKind::Uid);
    lemma_count_zero(n, AttrKind::UniqueIdentifier);
    assert forall|i: int| 0 <= i < n.len() implies scan_clean_attrs(#[trigger] n[i]) by {
        lemma_count_in_zero(n[i], AttrKind::Uid);
        lemma_count_in_zero(n[i], AttrKind::UniqueIdentifier);
    }
    lemma_scan_name_clean(n, 0);
    assert(post_scan_outcome(n, Some(Target::HomeServer)) == Outcome::Accept);
}

/// Law: a UID without its uniqueIdentifier counterpart is rejected with the
/// pairing violation OutOfBounds(1, 1, 0) naming the missing
/// uniqueIdentifier, once every earlier rule passes.
pub proof fn lemma_uid_without_unique_identifier_rejected(
    n: Seq<Seq<AttrView>>,
    target: Option<Target>,
)
    requires
        scan_clean(n),
        count_kind(n, AttrKind::CommonName) <= 1,
        count_kind(n, AttrKind::Uid) == 1,
        count_kind(n, AttrKind::UniqueIdentifier) == 0,
        count_kind(n, AttrKind::DomainComponent) >= 1,
        target != Some(Target::HomeServer),
        domain_check(
            dc_values(n).reverse(),
            last_value_of_kind(n, AttrKind::Uid, Seq::empty()),
        ) == DomainCheck::Matches,
        count_kind(n, AttrKind::CommonName) == 1 ==> cross_check(
            last_value_of_kind(n, AttrKind::Uid, Seq::empty()),
            last_value_of_kind(n, AttrKind::CommonName, Seq::empty()),
        ) == CrossCheck::Matches,
    ensures
        validation_outcome(n, target) == Outcome::OnlyUid,
{
    lemma_scan_name_clean(n, 0);
    assert(post_scan_outcome(n, target) == Outcome::OnlyUid);
}

/// Law: a uniqueIdentifier without its UID counterpart is rejected, for an
/// unspecified target, with the pairing violation OutOfBounds(1, 1, 0) naming
/// the missing UID.
pub proof fn lemma_unique_identifier_without_uid_rejected(n: Seq<Seq<AttrView>>)
    requires
        scan_clean(n),
        count_kind(n, AttrKind::CommonName) <= 1,
        count_kind(n, AttrKind::Uid) == 0,
        count_kind(n, AttrKind::UniqueIdentifier) == 1,
        count_kind(n, AttrKind::DomainComponent) >= 1,
    ensures
        validation_outcome(n, None) == Outcome::OnlyUniqueIdentifier,
{
    lemma_scan_name_clean(n, 0);
    assert(post_scan_outcome(n, None) == Outcome::OnlyUniqueIdentifier);
}

/// Two validation results report the same thing to a caller: both accept, or
/// both reject with the same violation variant, the same bounds and count,
/// and the same reason text.
pub open spec fn same_observable_result(
    r1: Result<(), ConstraintError>,
    r2: Result<(), ConstraintError>,
) -> bool {
    match (r1, r2) {
        (Ok(()), Ok(())) => true,
        (Err(e1), Err(e2)) => match (e1, e2) {
            (
                ConstraintError::OutOfBounds { lower: l1, upper: u1, actual: a1, reason: s1 },
                ConstraintError::OutOfBounds { lower: l2, upper: u2, actual: a2, reason: s2 },
            ) => l1 == l2 && u1 == u2 && a1 == a2 && s1@ == s2@,
            (ConstraintError::Malformed(m1), ConstraintError::Malformed(m2)) => match (m1, m2) {
                (Some(s1), Some(s2)) => s1@ == s2@,
                (None, None) => true,
                _ => false,
            },
            _ => false,
        },
        _ => false,
    }
}

/// Law: validation is deterministic. Any two results that `Name::validate`
/// may return for the same name and target are observably the same; and the
/// name itself is never changed, since validation only reads it.
pub proof fn lemma_validate_deterministic(
    n: Seq<Seq<AttrView>>,
    target: Option<Target>,
    r1: Result<(), ConstraintError>,
    r2: Result<(), ConstraintError>,
)
    requires
        result_matches_outcome(r1, validation_outcome(n, target)),
        result_matches_outcome(r2, validation_outcome(n, target)),
    ensures
        same_observable_result(r1, r2),
{
}

} // verus!
