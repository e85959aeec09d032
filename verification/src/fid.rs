use vstd::prelude::*;

use crate::attributes::AttributeTypeAndValue;
use crate::errors::ConstraintError;
use crate::errors::err_invalid_fid;
use crate::errors::msg_invalid_fid;

verus! {

/// ASCII word bytes: letters, digits and underscore. Word boundaries of the
/// federation-identifier pattern are transitions between word and non-word
/// bytes.
pub open spec fn is_word_byte(b: u8) -> bool {
    (97 <= b <= 122) || (65 <= b <= 90) || (48 <= b <= 57) || b == 95
}

/// Bytes allowed in the local part of a federation identifier:
/// lower-case letters, digits, and `.`, `_`, `%`, `+`, `-`.
pub open spec fn is_local_byte(b: u8) -> bool {
    (97 <= b <= 122) || (48 <= b <= 57) || b == 46 || b == 95 || b == 37 || b == 43 || b == 45
}

/// Bytes allowed in a domain label of a federation identifier:
/// lower-case letters, digits and `-`.
pub open spec fn is_domain_byte(b: u8) -> bool {
    (97 <= b <= 122) || (48 <= b <= 57) || b == 45
}

/// Position `k` starts a word of the pattern: either the string starts there
/// with a word byte, or word and non-word bytes meet there.
pub open spec fn boundary_at(s: Seq<u8>, k: int) -> bool {
    if k == 0 {
        is_word_byte(s[0])
    } else {
        is_word_byte(s[k - 1]) != is_word_byte(s[k])
    }
}

/// A federation identifier occurs in `s` at the `@` in position `j`, with its
/// local part starting at position `k`: a nonempty run of local-part bytes
/// beginning on a word boundary, then `@`, then at least one domain byte.
pub open spec fn fid_match_at(s: Seq<u8>, j: int, k: int) -> bool {
    &&& 0 <= k < j
    &&& j + 1 < s.len()
    &&& s[j] == 64
    &&& is_domain_byte(s[j + 1])
    &&& (forall|m: int| k <= m < j ==> is_local_byte(s[m]))
    &&& boundary_at(s, k)
}

/// `s` contains a federation identifier (`local-part@domain`) somewhere.
pub open spec fn fid_match(s: Seq<u8>) -> bool {
    exists|j: int, k: int| fid_match_at(s, j, k)
}

fn word_byte(b: u8) -> (r: bool)
    ensures
        r == is_word_byte(b),
{
    (97 <= b && b <= 122) || (65 <= b && b <= 90) || (48 <= b && b <= 57) || b == 95
}

fn local_byte(b: u8) -> (r: bool)
    ensures
        r == is_local_byte(b),
{
    (97 <= b && b <= 122) || (48 <= b && b <= 57) || b == 46 || b == 95 || b == 37 || b == 43
        || b == 45
}

fn domain_byte(b: u8) -> (r: bool)
    ensures
        r == is_domain_byte(b),
{
    (97 <= b && b <= 122) || (48 <= b && b <= 57) || b == 45
}

/// Decide whether `v` contains a federation identifier.
pub fn is_federation_id(v: &Vec<u8>) -> (r: bool)
    ensures
        r == fid_match(v@),
{
    let n = v.len();
    let mut j: usize = 0;
    while j < n
        invariant
            j <= n == v@.len(),
            forall|j2: int, k: int| 0 <= j2 < j ==> !fid_match_at(v@, j2, k),
        decreases n - j,
    {
        if j > 0 && v[j] == 64 && j + 1 < n && domain_byte(v[j + 1]) {
            let mut lo: usize = j;
            while lo > 0 && local_byte(v[lo - 1])
                invariant
                    lo <= j < v@.len(),
                    forall|m: int| lo <= m < j ==> is_local_byte(v@[m]),
                decreases lo,
            {
                lo -= 1;
            }
            let mut k: usize = lo;
            while k < j
                invariant
                    lo <= k <= j < v@.len() == n,
                    j + 1 < v@.len(),
                    v@[j as int] == 64,
                    is_domain_byte(v@[j + 1]),
                    forall|m: int| lo <= m < j ==> is_local_byte(v@[m]),
                    forall|k2: int| lo <= k2 < k ==> !boundary_at(v@, k2),
                decreases j - k,
            {
                let bnd = if k == 0 {
                    word_byte(v[0])
                } else {
                    word_byte(v[k - 1]) != word_byte(v[k])
                };
                if bnd {
                    proof {
                        assert(fid_match_at(v@, j as int, k as int));
                    }
                    return true;
                }
                k += 1;
            }
            proof {
                assert forall|k2: int| !fid_match_at(v@, j as int, k2) by {
                    if 0 <= k2 < j {
                        if k2 < lo {
                            assert(!is_local_byte(v@[lo - 1]));
                            assert(k2 <= lo - 1 < j);
                        } else {
                            assert(!boundary_at(v@, k2));
                        }
                    }
                }
            }
        } else {
            proof {
                assert forall|k2: int| !fid_match_at(v@, j as int, k2) by {
                    if 0 <= k2 < j {
                        assert(j > 0);
                    }
                }
            }
        }
        j += 1;
    }
    proof {
        assert forall|j2: int, k2: int| !fid_match_at(v@, j2, k2) by {
            if 0 <= j2 < v@.len() {
                assert(!fid_match_at(v@, j2, k2));
            }
        }
    }
    false
}

/// Check that an attribute's value contains a well-formed federation
/// identifier, as the UID attribute must.
pub fn validate_rdn_uid(item: &AttributeTypeAndValue) -> (r: Result<(), ConstraintError>)
    ensures
        match r {
            Ok(u) => fid_match(item.value@),
            Err(e) => !fid_match(item.value@) && e.is_malformed(msg_invalid_fid()),
        },
{
    if is_federation_id(&item.value) {
        Ok(())
    } else {
        Err(err_invalid_fid())
    }
}

} // verus!
