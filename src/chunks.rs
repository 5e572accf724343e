use vstd::prelude::*;

verus! {

/// The byte chunks of one payload, as sequences.
pub open spec fn chunks_view(chunks: Seq<Vec<u8>>) -> Seq<Seq<u8>> {
    chunks.map_values(|c: Vec<u8>| c@)
}

/// All chunks joined in arrival order.
pub open spec fn joined(chunks: Seq<Seq<u8>>) -> Seq<u8>
    decreases chunks.len(),
{
    if chunks.len() == 0 {
        Seq::empty()
    } else {
        joined(chunks.drop_last()) + chunks.last()
    }
}

/// The payload that a sequence of chunks carries.
pub open spec fn payload(chunks: &Vec<Vec<u8>>) -> Seq<u8> {
    joined(chunks_view(chunks@))
}

/// Appends one chunk to a buffer that grows as chunks arrive.
pub fn push_chunk(buffer: &mut Vec<u8>, chunk: &Vec<u8>)
    ensures
        final(buffer)@ == old(buffer)@ + chunk@,
{
    let mut i: usize = 0;
    while i < chunk.len()
        invariant
            i <= chunk@.len(),
            buffer@ == old(buffer)@ + chunk@.subrange(0, i as int),
        decreases chunk@.len() - i,
    {
        buffer.push(chunk[i]);
        i = i + 1;
        assert(chunk@.subrange(0, i as int) =~= chunk@.subrange(0, i - 1 as int).push(
            chunk@[i - 1],
        ));
        assert(buffer@ =~= old(buffer)@ + chunk@.subrange(0, i as int));
    }
    assert(chunk@.subrange(0, i as int) =~= chunk@);
}

/// Joins all chunks into one contiguous buffer, in arrival order.
pub fn collect_chunks(chunks: &Vec<Vec<u8>>) -> (r: Vec<u8>)
    ensures
        r@ == payload(chunks),
{
    let mut bytes: Vec<u8> = Vec::new();
    let mut i: usize = 0;
    while i < chunks.len()
        invariant
            i <= chunks@.len(),
            bytes@ == joined(chunks_view(chunks@.subrange(0, i as int))),
        decreases chunks@.len() - i,
    {
        push_chunk(&mut bytes, &chunks[i]);
        i = i + 1;
        assert(chunks_view(chunks@.subrange(0, i as int)).drop_last() =~= chunks_view(
            chunks@.subrange(0, i - 1 as int),
        ));
    }
    assert(chunks@.subrange(0, i as int) =~= chunks@);
    bytes
}

proof fn lemma_joined_one(c: Seq<u8>)
    ensures
        joined(seq![c]) == c,
{
    assert(seq![c].drop_last() =~= Seq::<Seq<u8>>::empty());
    assert(joined(Seq::<Seq<u8>>::empty()) == Seq::<u8>::empty());
    assert(Seq::<u8>::empty() + c =~= c);
}

proof fn lemma_joined_append(a: Seq<Seq<u8>>, b: Seq<Seq<u8>>)
    ensures
        joined(a + b) == joined(a) + joined(b),
    decreases b.len(),
{
    if b.len() == 0 {
        assert(a + b =~= a);
        assert(joined(a) + joined(b) =~= joined(a));
    } else {
        lemma_joined_append(a, b.drop_last());
        assert((a + b).drop_last() =~= a + b.drop_last());
        assert(joined(a + b) =~= joined(a) + joined(b));
    }
}

/// Splitting any chunk at any point leaves the payload unchanged, so every
/// way of cutting the same bytes into chunks carries the same payload, and
/// each conversion, a function of the payload, gives the same result.
pub proof fn lemma_chunk_boundaries(chunks: Seq<Seq<u8>>, i: int, at: int)
    requires
        0 <= i < chunks.len(),
        0 <= at <= chunks[i].len(),
    ensures
        joined(
            chunks.subrange(0, i) + seq![chunks[i].take(at), chunks[i].skip(at)] + chunks.subrange(
                i + 1,
                chunks.len() as int,
            ),
        ) == joined(chunks),
{
    let pre = chunks.subrange(0, i);
    let post = chunks.subrange(i + 1, chunks.len() as int);
    let c = chunks[i];
    lemma_joined_append(pre + seq![c.take(at), c.skip(at)], post);
    lemma_joined_append(pre, seq![c.take(at), c.skip(at)]);
    lemma_joined_append(pre + seq![c], post);
    lemma_joined_append(pre, seq![c]);
    assert(seq![c.take(at), c.skip(at)].drop_last() =~= seq![c.take(at)]);
    lemma_joined_one(c.take(at));
    lemma_joined_one(c);
    assert(joined(seq![c.take(at), c.skip(at)]) =~= c);
    assert(pre + seq![c] + post =~= chunks);
}

/// The payload of chunks cut every `k` bytes is the bytes themselves.
pub open spec fn cut_every(b: Seq<u8>, k: nat) -> Seq<Seq<u8>>
    decreases b.len(),
{
    if k == 0 || b.len() == 0 {
        seq![b]
    } else if b.len() <= k {
        seq![b]
    } else {
        seq![b.take(k as int)] + cut_every(b.skip(k as int), k)
    }
}

/// Cutting bytes into chunks of `k` bytes and joining them gives the bytes back.
pub proof fn lemma_cut_every(b: Seq<u8>, k: nat)
    ensures
        joined(cut_every(b, k)) == b,
    decreases b.len(),
{
    lemma_joined_one(b);
    if k > 0 && b.len() > k {
        lemma_cut_every(b.skip(k as int), k);
        lemma_joined_append(seq![b.take(k as int)], cut_every(b.skip(k as int), k));
        lemma_joined_one(b.take(k as int));
        assert(b.take(k as int) + b.skip(k as int) =~= b);
    }
}

/// A payload that arrived whole, as a single chunk.
pub fn single_chunk(bytes: &Vec<u8>) -> (r: Vec<Vec<u8>>)
    ensures
        payload(&r) == bytes@,
{
    let mut copy: Vec<u8> = Vec::new();
    push_chunk(&mut copy, bytes);
    let mut r: Vec<Vec<u8>> = Vec::new();
    r.push(copy);
    proof {
        assert(chunks_view(r@) =~= seq![bytes@]);
        lemma_joined_one(bytes@);
    }
    r
}

} // verus!
