//! Small verified helpers for assembling byte vectors: appending the bytes
//! of a string literal, appending a copy of another vector, copying a
//! subrange, and searching a byte sequence inside another.

use vstd::prelude::*;
use vstd::string::StrSliceExecFns;
use vstd::string::StringSliceAdditionalSpecFns;

verus! {

/// `/`, the path separator byte of URIs and filesystem paths.
pub const SLASH: u8 = 47;

/// Appends the UTF-8 bytes of `s` to `out`.
pub fn push_str_bytes(out: &mut Vec<u8>, s: &str)
    ensures
        final(out)@ == old(out)@ + s.spec_bytes(),
{
    let mut b = s.as_bytes_vec();
    out.append(&mut b);
}

/// Appends a copy of `s` to `out`.
pub fn push_vec_bytes(out: &mut Vec<u8>, s: &Vec<u8>)
    ensures
        final(out)@ == old(out)@ + s@,
{
    let mut i: usize = 0;
    while i < s.len()
        invariant
            i <= s.len(),
            out@ == old(out)@ + s@.subrange(0, i as int),
        decreases s.len() - i,
    {
        out.push(s[i]);
        proof {
            assert(old(out)@ + s@.subrange(0, i + 1) =~= (old(out)@ + s@.subrange(0, i as int)).push(
                s@[i as int],
            ));
        }
        i = i + 1;
    }
    proof {
        assert(s@.subrange(0, s@.len() as int) =~= s@);
    }
}

/// Copies the subrange `[from, to)` of `s` into a fresh vector.
pub fn sub_vec(s: &Vec<u8>, from: usize, to: usize) -> (r: Vec<u8>)
    requires
        from <= to <= s.len(),
    ensures
        r@ == s@.subrange(from as int, to as int),
{
    let mut out: Vec<u8> = Vec::new();
    let mut i: usize = from;
    while i < to
        invariant
            from <= i <= to <= s.len(),
            out@ == s@.subrange(from as int, i as int),
        decreases to - i,
    {
        out.push(s[i]);
        proof {
            assert(s@.subrange(from as int, i + 1) =~= s@.subrange(from as int, i as int).push(
                s@[i as int],
            ));
        }
        i = i + 1;
    }
    out
}

/// Whether `needle` occurs contiguously inside `hay`.
pub open spec fn contains_seq(hay: Seq<u8>, needle: Seq<u8>) -> bool {
    exists|j: int|
        0 <= j && j + needle.len() <= hay.len() && #[trigger] hay.subrange(j, j + needle.len())
            == needle
}

/// A sequence occurring inside `b` also occurs inside `a + b`.
pub proof fn lemma_contains_extend_left(a: Seq<u8>, b: Seq<u8>, needle: Seq<u8>)
    requires
        contains_seq(b, needle),
    ensures
        contains_seq(a + b, needle),
{
    let j = choose|j: int|
        0 <= j && j + needle.len() <= b.len() && #[trigger] b.subrange(j, j + needle.len())
            == needle;
    assert((a + b).subrange(a.len() + j, a.len() + j + needle.len()) =~= b.subrange(
        j,
        j + needle.len(),
    ));
}

/// A sequence occurring inside `a` also occurs inside `a + b`.
pub proof fn lemma_contains_extend_right(a: Seq<u8>, b: Seq<u8>, needle: Seq<u8>)
    requires
        contains_seq(a, needle),
    ensures
        contains_seq(a + b, needle),
{
    let j = choose|j: int|
        0 <= j && j + needle.len() <= a.len() && #[trigger] a.subrange(j, j + needle.len())
            == needle;
    assert((a + b).subrange(j, j + needle.len()) =~= a.subrange(j, j + needle.len()));
}

/// Any sequence occurs inside itself.
pub proof fn lemma_contains_self(s: Seq<u8>)
    ensures
        contains_seq(s, s),
{
    assert(s.subrange(0, 0 + s.len() as int) =~= s);
}

} // verus!
