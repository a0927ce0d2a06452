//! Byte strings: the literal search-and-replace that renaming is built on.
use bstr::ByteSlice;
use vstd::prelude::*;
use vstd::string::StringSliceAdditionalSpecFns;

verus! {

/// Every occurrence of `pat` in `s`, found left to right without overlap,
/// replaced by `rep`. An empty `pat` matches before every byte and at the end.
pub open spec fn replace_all(s: Seq<u8>, pat: Seq<u8>, rep: Seq<u8>) -> Seq<u8>
    decreases s.len(),
{
    if pat.len() == 0 {
        if s.len() == 0 {
            rep
        } else {
            rep + seq![s[0]] + replace_all(s.drop_first(), pat, rep)
        }
    } else if s.len() < pat.len() {
        s
    } else if s.subrange(0, pat.len() as int) == pat {
        rep + replace_all(s.subrange(pat.len() as int, s.len() as int), pat, rep)
    } else {
        seq![s[0]] + replace_all(s.drop_first(), pat, rep)
    }
}

/// Relies on bstr's `ByteSlice::replace`, which replaces the non-overlapping
/// matches that `find_iter` reports left to right, an empty needle matching at
/// every position including the end.
#[verifier::external_body]
pub(crate) fn replace_bytes(s: &[u8], pat: &str, rep: &str) -> (r: Vec<u8>)
    ensures
        r@ == replace_all(s@, pat.spec_bytes(), rep.spec_bytes()),
{
    s.replace(pat, rep)
}

/// Appends the bytes of `src` to `dst`.
pub fn push_bytes(dst: &mut Vec<u8>, src: &[u8])
    ensures
        final(dst)@ == old(dst)@ + src@,
{
    let mut i: usize = 0;
    while i < src.len()
        invariant
            0 <= i <= src@.len(),
            dst@ == old(dst)@ + src@.subrange(0, i as int),
        decreases src@.len() - i,
    {
        dst.push(src[i]);
        i = i + 1;
        assert(src@.subrange(0, i as int) == src@.subrange(0, i - 1) + seq![src@[i - 1]]);
    }
    assert(src@.subrange(0, src@.len() as int) == src@);
}

} // verus!
