//! Small operations on byte strings.

use vstd::prelude::*;

verus! {

/// Whether `prefix` is an initial part of `whole`.
pub open spec fn starts_with(whole: Seq<u8>, prefix: Seq<u8>) -> bool {
    prefix.len() <= whole.len() && whole.subrange(0, prefix.len() as int) == prefix
}

/// Whether two byte strings hold the same bytes.
pub fn same(a: &Vec<u8>, b: &Vec<u8>) -> (eq: bool)
    ensures
        eq == (a@ == b@),
{
    if a.len() != b.len() {
        return false;
    }
    let mut i: usize = 0;
    while i < a.len()
        invariant
            a.len() == b.len(),
            i <= a.len(),
            forall|j: int| 0 <= j < i ==> a@[j] == b@[j],
        decreases a.len() - i,
    {
        if a[i] != b[i] {
            return false;
        }
        i += 1;
    }
    assert(a@ =~= b@);
    true
}

/// Whether `whole` begins with the bytes of `prefix`.
pub fn has_prefix(whole: &Vec<u8>, prefix: &Vec<u8>) -> (yes: bool)
    ensures
        yes == starts_with(whole@, prefix@),
{
    if prefix.len() > whole.len() {
        return false;
    }
    let mut i: usize = 0;
    while i < prefix.len()
        invariant
            prefix.len() <= whole.len(),
            i <= prefix.len(),
            forall|j: int| 0 <= j < i ==> whole@[j] == prefix@[j],
        decreases prefix.len() - i,
    {
        if whole[i] != prefix[i] {
            assert(whole@.subrange(0, prefix.len() as int)[i as int] != prefix@[i as int]);
            return false;
        }
        i += 1;
    }
    assert(whole@.subrange(0, prefix.len() as int) =~= prefix@);
    true
}

/// Appends the bytes of `src` from position `start` on to `dst`.
pub fn push_from(dst: &mut Vec<u8>, src: &Vec<u8>, start: usize)
    requires
        start <= src.len(),
    ensures
        final(dst)@ == old(dst)@ + src@.skip(start as int),
{
    let mut i: usize = start;
    while i < src.len()
        invariant
            start <= i <= src.len(),
            dst@ == old(dst)@ + src@.subrange(start as int, i as int),
        decreases src.len() - i,
    {
        dst.push(src[i]);
        assert(dst@ =~= old(dst)@ + src@.subrange(start as int, i + 1));
        i += 1;
    }
    assert(src@.subrange(start as int, src.len() as int) =~= src@.skip(start as int));
}

/// A copy of the bytes of `src` between `start` and `end`.
pub fn copy_range(src: &Vec<u8>, start: usize, end: usize) -> (out: Vec<u8>)
    requires
        start <= end <= src.len(),
    ensures
        out@ == src@.subrange(start as int, end as int),
{
    let mut out: Vec<u8> = Vec::new();
    let mut i: usize = start;
    while i < end
        invariant
            start <= i <= end <= src.len(),
            out@ == src@.subrange(start as int, i as int),
        decreases end - i,
    {
        out.push(src[i]);
        assert(out@ =~= src@.subrange(start as int, i + 1));
        i += 1;
    }
    out
}

/// A copy of all the bytes of `src`.
pub fn copy_of(src: &Vec<u8>) -> (out: Vec<u8>)
    ensures
        out@ == src@,
{
    let out = copy_range(src, 0, src.len());
    assert(src@.subrange(0, src.len() as int) =~= src@);
    out
}

/// A list of byte strings as contracts see it.
pub open spec fn strings(list: Vec<Vec<u8>>) -> Seq<Seq<u8>> {
    Seq::new(list@.len(), |i: int| list@[i]@)
}

/// An optional byte string as contracts see it.
pub open spec fn optional(bytes: Option<Vec<u8>>) -> Option<Seq<u8>> {
    match bytes {
        Some(b) => Some(b@),
        None => None,
    }
}

} // verus!
