//! Directory membership for workspace-relative paths, held as UTF-8 bytes
//! with `/` separators and no trailing separator. Membership is a
//! component-wise prefix test, not pattern matching.

use vstd::prelude::*;

verus! {

/// The path separator byte, `/`.
pub const SEPARATOR: u8 = 47;

/// Whether the path `p` lies under the directory `d`: the empty directory
/// holds every path, and otherwise `d` must be a prefix of `p` that ends at
/// a component boundary.
pub open spec fn in_dir(p: Seq<u8>, d: Seq<u8>) -> bool {
    d.len() == 0 || (d.is_prefix_of(p) && (p.len() == d.len() || p[d.len() as int] == SEPARATOR))
}

/// Whether the path `p` lies strictly under the directory `d`: under it,
/// but not the directory itself.
pub open spec fn strictly_in_dir(p: Seq<u8>, d: Seq<u8>) -> bool {
    in_dir(p, d) && p != d
}

/// Whether the path lies under the directory.
pub fn path_is_under(p: &Vec<u8>, d: &Vec<u8>) -> (r: bool)
    ensures
        r == in_dir(p@, d@),
{
    if d.len() == 0 {
        return true;
    }
    if p.len() < d.len() {
        assert(!d@.is_prefix_of(p@));
        return false;
    }
    let mut i: usize = 0;
    while i < d.len()
        invariant
            i <= d.len() <= p.len(),
            forall|j: int| 0 <= j < i ==> p@[j] == d@[j],
        decreases d.len() - i,
    {
        if p[i] != d[i] {
            assert(!d@.is_prefix_of(p@)) by {
                assert(p@.subrange(0, d@.len() as int)[i as int] != d@[i as int]);
            }
            return false;
        }
        i += 1;
    }
    assert(d@.is_prefix_of(p@)) by {
        assert(p@.subrange(0, d@.len() as int) =~= d@);
    }
    p.len() == d.len() || p[d.len()] == SEPARATOR
}

/// Whether the path lies strictly under the directory.
pub fn path_is_strictly_under(p: &Vec<u8>, d: &Vec<u8>) -> (r: bool)
    ensures
        r == strictly_in_dir(p@, d@),
{
    let under = path_is_under(p, d);
    if under && p.len() == d.len() {
        assert(p@ =~= d@) by {
            assert(d@.len() == 0 || d@.is_prefix_of(p@));
            assert(forall|j: int| 0 <= j < p@.len() ==> p@[j] == d@[j]);
        }
        false
    } else {
        if under {
            assert(p@.len() != d@.len());
            assert(p@ != d@);
        }
        under
    }
}

/// The directory `rel` joined below the directory `base`: their
/// concatenation with one separator between them, or `rel` itself when
/// `base` is empty.
pub fn join_dir(base: &Vec<u8>, rel: &Vec<u8>) -> (r: Vec<u8>)
    ensures
        base@.len() == 0 ==> r@ == rel@,
        base@.len() > 0 ==> r@ == base@ + seq![SEPARATOR] + rel@,
{
    let mut r: Vec<u8> = Vec::new();
    let mut i: usize = 0;
    while i < base.len()
        invariant
            i <= base.len(),
            r@ =~= base@.subrange(0, i as int),
        decreases base.len() - i,
    {
        r.push(base[i]);
        i += 1;
    }
    assert(r@ =~= base@);
    if base.len() > 0 {
        r.push(SEPARATOR);
    }
    let mut j: usize = 0;
    while j < rel.len()
        invariant
            j <= rel.len(),
            base@.len() == 0 ==> r@ =~= rel@.subrange(0, j as int),
            base@.len() > 0 ==> r@ =~= base@ + seq![SEPARATOR] + rel@.subrange(0, j as int),
        decreases rel.len() - j,
    {
        r.push(rel[j]);
        j += 1;
    }
    assert(rel@.subrange(0, rel@.len() as int) =~= rel@);
    r
}

} // verus!
