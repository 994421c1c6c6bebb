//! Small operations on byte strings.

use vstd::prelude::*;

verus! {

/// Whether `a` and `b` hold the same bytes.
pub fn bytes_equal(a: &[u8], b: &[u8]) -> (r: bool)
    ensures
        r == (a@ == b@),
{
    if a.len() != b.len() {
        return false;
    }
    let mut i: usize = 0;
    while i < a.len()
        invariant
            i <= a@.len(),
            a@.len() == b@.len(),
            forall|j: int| 0 <= j < i ==> a@[j] == b@[j],
        decreases a@.len() - i,
    {
        if a[i] != b[i] {
            return false;
        }
        i = i + 1;
    }
    assert(a@ =~= b@);
    true
}

/// Whether `whole` starts with `head`.
pub fn starts_with(whole: &[u8], head: &[u8]) -> (r: bool)
    ensures
        r == (whole@.len() >= head@.len() && whole@.subrange(0, head@.len() as int) == head@),
{
    if whole.len() < head.len() {
        return false;
    }
    let mut i: usize = 0;
    while i < head.len()
        invariant
            i <= head@.len(),
            head@.len() <= whole@.len(),
            forall|j: int| 0 <= j < i ==> whole@[j] == head@[j],
        decreases head@.len() - i,
    {
        if whole[i] != head[i] {
            assert(whole@.subrange(0, head@.len() as int)[i as int] != head@[i as int]);
            return false;
        }
        i = i + 1;
    }
    assert(whole@.subrange(0, head@.len() as int) =~= head@);
    true
}

/// The bytes of `whole` from position `from` on.
pub fn tail_from(whole: &[u8], from: usize) -> (r: Vec<u8>)
    requires
        from <= whole@.len(),
    ensures
        r@ == whole@.subrange(from as int, whole@.len() as int),
{
    let mut out: Vec<u8> = Vec::new();
    let mut i: usize = from;
    while i < whole.len()
        invariant
            from <= i <= whole@.len(),
            out@ == whole@.subrange(from as int, i as int),
        decreases whole@.len() - i,
    {
        out.push(whole[i]);
        assert(out@ =~= whole@.subrange(from as int, i + 1));
        i = i + 1;
    }
    out
}

} // verus!
