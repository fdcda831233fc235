//! Comparisons and searches on bytes and on the bytes of strings.
use vstd::prelude::*;
use vstd::string::*;

verus! {

/// Byte equality.
pub fn bytes_eq(a: &[u8], b: &[u8]) -> (r: bool)
    ensures
        r == (a@ == b@),
{
    if a.len() != b.len() {
        return false;
    }
    let mut i: usize = 0;
    while i < a.len()
        invariant
            a@.len() == b@.len(),
            i <= a@.len(),
            forall|j: int| 0 <= j < i ==> a@[j] == b@[j],
        decreases a@.len() - i,
    {
        if a[i] != b[i] {
            return false;
        }
        i = i + 1;
    }
    assert(a@ =~= b@);
    true
}

/// A copy of `v`.
pub(crate) fn copy_bytes(v: &Vec<u8>) -> (r: Vec<u8>)
    ensures
        r@ == v@,
{
    vstd::slice::slice_to_vec(v.as_slice())
}

/// Byte equality of two strings.
pub fn str_eq(a: &str, b: &str) -> (r: bool)
    ensures
        r == (a.spec_bytes() == b.spec_bytes()),
{
    let ab = a.as_bytes();
    let bb = b.as_bytes();
    if ab.len() != bb.len() {
        return false;
    }
    let mut i: usize = 0;
    while i < ab.len()
        invariant
            ab@ == a.spec_bytes(),
            bb@ == b.spec_bytes(),
            ab@.len() == bb@.len(),
            i <= ab@.len(),
            forall|j: int| 0 <= j < i ==> ab@[j] == bb@[j],
        decreases ab@.len() - i,
    {
        if ab[i] != bb[i] {
            return false;
        }
        i = i + 1;
    }
    assert(ab@ =~= bb@);
    true
}

/// Whether `s` begins with the bytes of `prefix`.
pub open spec fn starts_with(s: &str, prefix: &str) -> bool {
    prefix.spec_bytes().len() <= s.spec_bytes().len()
        && s.spec_bytes().subrange(0, prefix.spec_bytes().len() as int) == prefix.spec_bytes()
}

/// `str::starts_with` for a string prefix.
pub fn has_prefix(s: &str, prefix: &str) -> (r: bool)
    ensures
        r == starts_with(s, prefix),
{
    let sb = s.as_bytes();
    let pb = prefix.as_bytes();
    if pb.len() > sb.len() {
        return false;
    }
    let mut i: usize = 0;
    while i < pb.len()
        invariant
            sb@ == s.spec_bytes(),
            pb@ == prefix.spec_bytes(),
            pb@.len() <= sb@.len(),
            i <= pb@.len(),
            forall|j: int| 0 <= j < i ==> sb@[j] == pb@[j],
        decreases pb@.len() - i,
    {
        if sb[i] != pb[i] {
            assert(sb@.subrange(0, pb@.len() as int)[i as int] != pb@[i as int]);
            return false;
        }
        i = i + 1;
    }
    assert(sb@.subrange(0, pb@.len() as int) =~= pb@);
    true
}

/// Whether `pattern` occurs in `text` at position `i`.
pub open spec fn occurs_at(text: Seq<u8>, pattern: Seq<u8>, i: int) -> bool {
    0 <= i && i + pattern.len() <= text.len() && text.subrange(i, i + pattern.len()) == pattern
}

/// Whether `pattern` occurs somewhere in `text`.
pub open spec fn occurs_in(text: Seq<u8>, pattern: Seq<u8>) -> bool {
    exists|i: int| occurs_at(text, pattern, i)
}

/// Whether `pattern` occurs in `text`.
pub fn str_contains(text: &str, pattern: &str) -> (r: bool)
    ensures
        r == occurs_in(text.spec_bytes(), pattern.spec_bytes()),
{
    let t = text.as_bytes();
    let p = pattern.as_bytes();
    if p.len() > t.len() {
        proof {
            assert forall|i: int| !occurs_at(t@, p@, i) by {}
        }
        return false;
    }
    let mut i: usize = 0;
    while i <= t.len() - p.len()
        invariant
            t@ == text.spec_bytes(),
            p@ == pattern.spec_bytes(),
            p@.len() <= t@.len(),
            i <= t@.len() - p@.len() + 1,
            forall|k: int| 0 <= k < i ==> !occurs_at(t@, p@, k),
        decreases t@.len() - p@.len() + 1 - i,
    {
        let mut j: usize = 0;
        let mut same = true;
        while j < p.len()
            invariant
                i + p@.len() <= t@.len(),
                j <= p@.len(),
                same == (forall|m: int| 0 <= m < j ==> t@[i + m] == p@[m]),
            decreases p@.len() - j,
        {
            assert(i + j < t@.len());
            assert(t@.len() == t.len());
            if t[i + j] != p[j] {
                same = false;
            }
            j = j + 1;
        }
        if same {
            assert(t@.subrange(i as int, i + p@.len()) =~= p@);
            assert(occurs_at(t@, p@, i as int));
            return true;
        }
        assert(!occurs_at(t@, p@, i as int)) by {
            let m = choose|m: int| 0 <= m < p@.len() && t@[i + m] != p@[m];
            assert(t@.subrange(i as int, i + p@.len())[m] != p@[m]);
        }
        i = i + 1;
    }
    proof {
        assert forall|k: int| !occurs_at(t@, p@, k) by {
            if 0 <= k && k + p@.len() <= t@.len() {
                assert(k < i);
            }
        }
    }
    false
}

} // verus!
