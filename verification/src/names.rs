//! Player identities and proxy endpoints are byte strings; equality is exact
//! byte equality. These helpers give collections of such strings a
//! mathematical reading and provide the verified membership primitives the
//! rest of the crate builds on.
use vstd::prelude::*;

verus! {

/// `n` occurs among the byte strings held by `s`.
pub open spec fn has_name(s: Seq<Vec<u8>>, n: Seq<u8>) -> bool {
    exists|i: int| 0 <= i < s.len() && s[i]@ == n
}

/// The byte strings held by `s`, each read as its mathematical byte sequence.
pub open spec fn name_views(s: Seq<Vec<u8>>) -> Seq<Seq<u8>> {
    s.map_values(|v: Vec<u8>| v@)
}

/// Membership among the byte strings of `s` agrees with membership among
/// their byte sequences.
pub proof fn lemma_name_views_contains(s: Seq<Vec<u8>>, n: Seq<u8>)
    ensures
        has_name(s, n) == name_views(s).contains(n),
{
    if has_name(s, n) {
        let i = choose|i: int| 0 <= i < s.len() && s[i]@ == n;
        assert(name_views(s)[i] == n);
    }
    if name_views(s).contains(n) {
        let i = choose|i: int| 0 <= i < name_views(s).len() && name_views(s)[i] == n;
        assert(s[i]@ == n);
    }
}

/// No byte string occurs twice in `s`.
pub open spec fn distinct_names(s: Seq<Vec<u8>>) -> bool {
    forall|i: int, j: int| 0 <= i < j < s.len() ==> s[i]@ != s[j]@
}

/// Byte-wise equality of two byte strings.
pub fn bytes_eq(a: &Vec<u8>, b: &Vec<u8>) -> (r: bool)
    ensures
        r == (a@ == b@),
{
    if a.len() != b.len() {
        return false;
    }
    let mut i: usize = 0;
    while i < a.len()
        invariant
            i <= a.len(),
            a@.len() == b@.len(),
            forall|j: int| 0 <= j < i ==> a@[j] == b@[j],
        decreases a@.len() - i,
    {
        if a[i] != b[i] {
            return false;
        }
        i += 1;
    }
    proof {
        assert(a@ =~= b@);
    }
    true
}

/// Whether the byte string `n` is a member of `v`.
pub fn contains_name(v: &Vec<Vec<u8>>, n: &Vec<u8>) -> (r: bool)
    ensures
        r == has_name(v@, n@),
{
    let mut i: usize = 0;
    while i < v.len()
        invariant
            i <= v.len(),
            forall|j: int| 0 <= j < i ==> v@[j]@ != n@,
        decreases v@.len() - i,
    {
        if bytes_eq(&v[i], n) {
            return true;
        }
        i += 1;
    }
    false
}

} // verus!
