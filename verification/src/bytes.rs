//! Byte strings: comparing, copying and joining.

use vstd::prelude::*;

verus! {

/// The contents of a list of byte strings.
pub open spec fn contents(v: Seq<Vec<u8>>) -> Seq<Seq<u8>> {
    v.map_values(|b: Vec<u8>| b@)
}

/// Whether two byte strings are equal.
pub fn same_bytes(a: &[u8], b: &[u8]) -> (same: bool)
    ensures
        same == (a@ == b@),
{
    if a.len() != b.len() {
        return false;
    }
    let mut i: usize = 0;
    while i < a.len()
        invariant
            i <= a@.len(),
            a@.len() == b@.len(),
            forall|j: int| 0 <= j < i ==> a@[j] == b@[j],
        decreases a@.len() - i,
    {
        if a[i] != b[i] {
            assert(a@[i as int] != b@[i as int]);
            return false;
        }
        i = i + 1;
    }
    assert(a@ =~= b@);
    true
}

/// Append `src[from..to]` to `out`.
pub fn append_range(out: &mut Vec<u8>, src: &[u8], from: usize, to: usize)
    requires
        from <= to <= src@.len(),
    ensures
        final(out)@ == old(out)@ + src@.subrange(from as int, to as int),
{
    let mut i: usize = from;
    assert(out@ =~= out@ + src@.subrange(from as int, from as int));
    while i < to
        invariant
            from <= i <= to <= src@.len(),
            out@ == old(out)@ + src@.subrange(from as int, i as int),
        decreases to - i,
    {
        out.push(src[i]);
        i = i + 1;
        assert(src@.subrange(from as int, i as int) =~= src@.subrange(from as int, i - 1).push(
            src@[i - 1],
        ));
        assert(out@ =~= old(out)@ + src@.subrange(from as int, i as int));
    }
}

/// A copy of `src[from..to]`.
pub fn copy_range(src: &[u8], from: usize, to: usize) -> (out: Vec<u8>)
    requires
        from <= to <= src@.len(),
    ensures
        out@ == src@.subrange(from as int, to as int),
{
    let mut out: Vec<u8> = Vec::new();
    append_range(&mut out, src, from, to);
    assert(out@ =~= src@.subrange(from as int, to as int));
    out
}

/// A copy of `src`.
pub fn copy_bytes(src: &[u8]) -> (out: Vec<u8>)
    ensures
        out@ == src@,
{
    let out: Vec<u8> = copy_range(src, 0, src.len());
    assert(src@.subrange(0, src@.len() as int) =~= src@);
    out
}

/// The chunks one after the other.
pub open spec fn flattened(chunks: Seq<Seq<u8>>) -> Seq<u8>
    decreases chunks.len(),
{
    if chunks.len() == 0 {
        Seq::empty()
    } else {
        flattened(chunks.drop_last()) + chunks.last()
    }
}

/// Append the chunks to `out`, one after the other.
pub fn append_chunks(out: &mut Vec<u8>, chunks: &Vec<Vec<u8>>)
    ensures
        final(out)@ == old(out)@ + flattened(contents(chunks@)),
{
    let ghost all = contents(chunks@);
    let mut i: usize = 0;
    assert(out@ =~= out@ + flattened(all.take(0)));
    while i < chunks.len()
        invariant
            i <= chunks@.len(),
            all == contents(chunks@),
            out@ == old(out)@ + flattened(all.take(i as int)),
        decreases chunks@.len() - i,
    {
        append_range(out, chunks[i].as_slice(), 0, chunks[i].len());
        proof {
            let chunk = chunks@[i as int]@;
            assert(chunk.subrange(0, chunk.len() as int) =~= chunk);
            assert(all.take(i + 1).drop_last() =~= all.take(i as int));
            assert(all.take(i + 1).last() == chunk);
            assert(out@ =~= old(out)@ + flattened(all.take(i + 1)));
        }
        i = i + 1;
    }
    assert(all.take(i as int) =~= all);
}

/// The chunks one after the other.
pub fn join_chunks(chunks: &Vec<Vec<u8>>) -> (out: Vec<u8>)
    ensures
        out@ == flattened(contents(chunks@)),
{
    let mut out: Vec<u8> = Vec::new();
    append_chunks(&mut out, chunks);
    assert(out@ =~= flattened(contents(chunks@)));
    out
}

/// The `N` bytes of `src` from `from` on.
pub fn array_at<const N: usize>(src: &[u8], from: usize) -> (out: [u8; N])
    requires
        from + N <= src@.len(),
    ensures
        out@ == src@.subrange(from as int, from + N),
{
    let mut out: [u8; N] = [0u8; N];
    let len: usize = src.len();
    let mut i: usize = 0;
    while i < N
        invariant
            i <= N,
            from + N <= len == src@.len(),
            forall|j: int| 0 <= j < i ==> out@[j] == src@[from + j],
        decreases N - i,
    {
        out[i] = src[from + i];
        i = i + 1;
    }
    assert(out@ =~= src@.subrange(from as int, from + N));
    out
}

/// A list of byte strings is seen whole: every string, every byte, in order.
pub proof fn contents_are_seen_whole(v: Seq<Vec<u8>>, i: int)
    requires
        0 <= i < v.len(),
    ensures
        contents(v).len() == v.len(),
        contents(v)[i] == v[i]@,
{
}

/// Joined chunks keep their order: what joins two lists of chunks is what
/// joins the first, and then what joins the second; one chunk joins to itself.
pub proof fn chunks_join_in_sequence(a: Seq<Seq<u8>>, b: Seq<Seq<u8>>, chunk: Seq<u8>)
    ensures
        flattened(a + b) == flattened(a) + flattened(b),
        flattened(seq![chunk]) == chunk,
        flattened(Seq::empty()).len() == 0,
    decreases b.len(),
{
    assert(seq![chunk].drop_last() =~= Seq::<Seq<u8>>::empty());
    assert(flattened(seq![chunk]) =~= chunk) by {
        assert(flattened(seq![chunk].drop_last()) =~= Seq::<u8>::empty());
    }
    if b.len() == 0 {
        assert(a + b =~= a);
        assert(flattened(a + b) =~= flattened(a) + flattened(b));
    } else {
        chunks_join_in_sequence(a, b.drop_last(), chunk);
        assert((a + b).drop_last() =~= a + b.drop_last());
        assert((a + b).last() == b.last());
        assert(flattened(a + b) =~= flattened(a) + flattened(b));
    }
}

} // verus!
