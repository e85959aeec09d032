use vstd::prelude::*;
use vstd::slice::{slice_subrange, slice_to_vec};

verus! {

/// The position of the first occurrence of `b` in `s`, or `s.len()` when `b`
/// does not occur.
pub open spec fn first_byte_pos(s: Seq<u8>, b: u8) -> nat
    decreases s.len(),
{
    if s.len() == 0 {
        0
    } else if s[0] == b {
        0
    } else {
        1 + first_byte_pos(s.drop_first(), b)
    }
}

pub proof fn lemma_first_byte_pos(s: Seq<u8>, b: u8)
    ensures
        first_byte_pos(s, b) <= s.len(),
        first_byte_pos(s, b) < s.len() ==> s[first_byte_pos(s, b) as int] == b,
        forall|j: int| 0 <= j < first_byte_pos(s, b) ==> s[j] != b,
    decreases s.len(),
{
    if s.len() > 0 && s[0] != b {
        let t = s.drop_first();
        lemma_first_byte_pos(t, b);
        assert forall|j: int| 0 <= j < first_byte_pos(s, b) implies s[j] != b by {
            if j > 0 {
                assert(s[j] == t[j - 1]);
            }
        }
    }
}

pub proof fn lemma_first_byte_pos_is(s: Seq<u8>, b: u8, i: int)
    requires
        0 <= i <= s.len(),
        forall|j: int| 0 <= j < i ==> s[j] != b,
        i < s.len() ==> s[i] == b,
    ensures
        first_byte_pos(s, b) == i,
    decreases s.len(),
{
    if s.len() == 0 {
    } else if s[0] == b {
        assert(i == 0);
    } else {
        assert(i > 0);
        let t = s.drop_first();
        assert(forall|j: int| 0 <= j < i - 1 ==> t[j] != b);
        lemma_first_byte_pos_is(t, b, i - 1);
    }
}

/// The position of the first occurrence of `b` in `s`, or `s.len()` when `b`
/// does not occur.
pub fn first_byte_pos_exec(s: &Vec<u8>, b: u8) -> (p: usize)
    ensures
        p == first_byte_pos(s@, b),
{
    let mut i: usize = 0;
    while i < s.len()
        invariant
            i <= s.len(),
            forall|j: int| 0 <= j < i ==> s@[j] != b,
        decreases s.len() - i,
    {
        if s[i] == b {
            proof {
                lemma_first_byte_pos_is(s@, b, i as int);
            }
            return i;
        }
        i += 1;
    }
    proof {
        lemma_first_byte_pos_is(s@, b, s@.len() as int);
    }
    i
}

/// `s` split at every occurrence of `b`: the pieces between occurrences, in
/// order, empty pieces included. A string with no occurrence splits into the
/// single piece `s`.
pub open spec fn split_at_byte(s: Seq<u8>, b: u8) -> Seq<Seq<u8>>
    decreases s.len(),
{
    let p = first_byte_pos(s, b);
    if p >= s.len() {
        seq![s]
    } else {
        seq![s.take(p as int)] + split_at_byte(s.skip(p as int + 1), b)
    }
}

pub proof fn lemma_split_at_byte_len(s: Seq<u8>, b: u8)
    ensures
        split_at_byte(s, b).len() >= 1,
    decreases s.len(),
{
    let p = first_byte_pos(s, b);
    if p < s.len() {
        lemma_split_at_byte_len(s.skip(p as int + 1), b);
    }
}

/// A fresh copy of `s[from..to]`.
pub fn subvec(s: &Vec<u8>, from: usize, to: usize) -> (r: Vec<u8>)
    requires
        from <= to <= s@.len(),
    ensures
        r@ == s@.subrange(from as int, to as int),
{
    slice_to_vec(slice_subrange(s.as_slice(), from, to))
}

/// A fresh copy of `s`.
pub fn copy_bytes(s: &Vec<u8>) -> (r: Vec<u8>)
    ensures
        r@ == s@,
{
    let r = slice_to_vec(s.as_slice());
    proof {
        assert(r@ =~= s@);
    }
    r
}

/// For byte strings the deep view is the view itself.
pub proof fn lemma_bytes_deep_view(v: Vec<u8>)
    ensures
        v.deep_view() == v@,
{
    assert(v.deep_view() =~= v@);
}

/// Byte-exact equality of two byte strings.
pub fn bytes_eq(a: &Vec<u8>, b: &Vec<u8>) -> (r: bool)
    ensures
        r == (a@ == b@),
{
    if a.len() != b.len() {
        return false;
    }
    let mut i: usize = 0;
    while i < a.len()
        invariant
            i <= a@.len(),
            a@.len() == b@.len(),
            forall|j: int| 0 <= j < i ==> a@[j] == b@[j],
        decreases a@.len() - i,
    {
        if a[i] != b[i] {
            return false;
        }
        i += 1;
    }
    proof {
        assert(a@ =~= b@);
    }
    true
}

/// `s` split at every occurrence of `b`, as fresh byte strings.
pub fn split_at_byte_exec(s: &Vec<u8>, b: u8) -> (r: Vec<Vec<u8>>)
    ensures
        r.deep_view() == split_at_byte(s@, b),
{
    let mut r: Vec<Vec<u8>> = Vec::new();
    let mut start: usize = 0;
    let mut i: usize = 0;
    proof {
        assert(s@.skip(0) =~= s@);
        assert(r.deep_view() =~~= Seq::<Seq<u8>>::empty());
        assert(Seq::<Seq<u8>>::empty() + split_at_byte(s@, b) =~~= split_at_byte(s@, b));
    }
    while i < s.len()
        invariant
            start <= i <= s@.len(),
            forall|j: int| start <= j < i ==> s@[j] != b,
            split_at_byte(s@, b) == r.deep_view() + split_at_byte(s@.skip(start as int), b),
        decreases s.len() - i,
    {
        if s[i] == b {
            let seg = subvec(s, start, i);
            proof {
                let rest = s@.skip(start as int);
                assert(forall|j: int| 0 <= j < i - start ==> rest[j] != b);
                lemma_first_byte_pos_is(rest, b, i - start);
                assert(rest.take(i - start) =~= s@.subrange(start as int, i as int));
                assert(rest.skip(i - start + 1) =~= s@.skip(i as int + 1));
                assert(split_at_byte(rest, b) == seq![seg@] + split_at_byte(
                    s@.skip(i as int + 1),
                    b,
                ));
            }
            let ghost old_r = r.deep_view();
            r.push(seg);
            proof {
                assert(r.deep_view() =~~= old_r.push(seg@));
                assert(old_r.push(seg@) + split_at_byte(s@.skip(i as int + 1), b) =~~= old_r + (
                seq![seg@] + split_at_byte(s@.skip(i as int + 1), b)));
            }
            start = i + 1;
        }
        i += 1;
    }
    let seg = subvec(s, start, s.len());
    proof {
        let rest = s@.skip(start as int);
        assert(forall|j: int| 0 <= j < rest.len() ==> rest[j] != b);
        lemma_first_byte_pos_is(rest, b, rest.len() as int);
        assert(rest =~= s@.subrange(start as int, s@.len() as int));
        assert(split_at_byte(rest, b) == seq![seg@]);
    }
    let ghost old_r = r.deep_view();
    r.push(seg);
    proof {
        assert(r.deep_view() =~~= old_r.push(seg@));
        assert(old_r.push(seg@) =~~= old_r + seq![seg@]);
    }
    r
}

} // verus!
