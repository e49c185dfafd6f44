//! The mathematical model of rope edits: what inserting into and deleting
//! from a byte sequence means, and the laws the editing operations obey.

use vstd::prelude::*;

verus! {

/// `s` with the bytes of `t` spliced in at position `i`.
pub open spec fn spliced(s: Seq<u8>, i: int, t: Seq<u8>) -> Seq<u8> {
    s.take(i) + t + s.skip(i)
}

/// `s` with the byte range `[i, i + count)` removed.
pub open spec fn removed(s: Seq<u8>, i: int, count: int) -> Seq<u8> {
    s.take(i) + s.skip(i + count)
}

/// Concatenation adds the lengths and yields every byte of `a`, in order,
/// followed by every byte of `b`.
pub proof fn lemma_concat_bytes(a: Seq<u8>, b: Seq<u8>)
    ensures
        (a + b).len() == a.len() + b.len(),
        forall|i: int| 0 <= i < a.len() ==> (a + b)[i] == a[i],
        forall|i: int| a.len() <= i < a.len() + b.len() ==> (a + b)[i] == b[i - a.len()],
{
}

/// Splitting at any valid index and concatenating the two parts restores
/// the content exactly.
pub proof fn lemma_split_roundtrip(s: Seq<u8>, i: int)
    requires
        0 <= i <= s.len(),
    ensures
        s.take(i) + s.skip(i) == s,
{
    assert(s.take(i) + s.skip(i) =~= s);
}

/// Splicing `t` into `s` at position `i` keeps the first `i` bytes of `s`,
/// then yields all of `t`, then the rest of `s`, and adds the lengths.
pub proof fn lemma_insert_splice(s: Seq<u8>, i: int, t: Seq<u8>)
    requires
        0 <= i <= s.len(),
    ensures
        spliced(s, i, t).len() == s.len() + t.len(),
        forall|j: int| 0 <= j < i ==> spliced(s, i, t)[j] == s[j],
        forall|j: int| 0 <= j < t.len() ==> spliced(s, i, t)[i + j] == t[j],
        forall|j: int| i <= j < s.len() ==> spliced(s, i, t)[j + t.len()] == s[j],
{
}

/// Removing the range `[i, i + count)` from `s` keeps the first `i` bytes,
/// shifts the tail left by `count` places, and shortens `s` by `count`.
pub proof fn lemma_delete_splice(s: Seq<u8>, i: int, count: int)
    requires
        0 <= i,
        0 <= count,
        i + count <= s.len(),
    ensures
        removed(s, i, count).len() == s.len() - count,
        forall|j: int| 0 <= j < i ==> removed(s, i, count)[j] == s[j],
        forall|j: int| i <= j < s.len() - count ==> removed(s, i, count)[j] == s[j + count],
{
}

/// Removing zero bytes at any valid position leaves the content identical.
pub proof fn lemma_delete_nothing(s: Seq<u8>, i: int)
    requires
        0 <= i <= s.len(),
    ensures
        removed(s, i, 0) == s,
{
    assert(removed(s, i, 0) =~= s);
}

} // verus!
