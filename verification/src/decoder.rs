use vstd::prelude::*;

use vstd::arithmetic::div_mod::lemma_fundamental_div_mod_converse;

verus! {

/// The `k`-th chunk of `chunk_size` samples of `samples`.
pub open spec fn spec_chunk<T>(samples: Seq<T>, chunk_size: nat, k: int) -> Seq<T> {
    samples.subrange(k * chunk_size, (k + 1) * chunk_size)
}

proof fn lemma_chunk_bounds(q: int, n: int)
    requires
        0 <= q,
        0 < n,
    ensures
        0 <= q * n,
        q * n + n == (q + 1) * n,
{
    assert(0 <= q * n && q * n + n == (q + 1) * n) by (nonlinear_arith)
        requires
            0 <= q,
            0 < n,
    ;
}

/// Cuts the decoded samples of one packet into chunks of `chunk_size` samples
/// and appends them to `track`, in order. The samples that do not fill a last
/// chunk are dropped.
pub fn push_chunks<T: Copy>(track: &mut Vec<Vec<T>>, samples: &[T], chunk_size: usize)
    requires
        chunk_size > 0,
    ensures
        final(track)@.len() == old(track)@.len() + samples@.len() / (chunk_size as nat),
        forall|k: int|
            0 <= k < old(track)@.len() ==> #[trigger] final(track)@[k] == old(track)@[k],
        forall|k: int|
            0 <= k < samples@.len() / (chunk_size as nat) ==> (#[trigger] final(track)@[old(
                track,
            )@.len() + k])@ == spec_chunk(samples@, chunk_size as nat, k),
{
    let ghost start = track@;
    let ghost n = chunk_size as int;
    let mut buffer: Vec<T> = Vec::new();
    let mut i: usize = 0;
    while i < samples.len()
        invariant
            chunk_size > 0,
            n == chunk_size,
            i <= samples@.len(),
            track@.len() >= start.len(),
            buffer@.len() < n,
            (track@.len() - start.len()) * n + buffer@.len() == i,
            buffer@ == samples@.subrange((track@.len() - start.len()) * n, i as int),
            forall|k: int| 0 <= k < start.len() ==> #[trigger] track@[k] == start[k],
            forall|k: int|
                0 <= k < track@.len() - start.len() ==> (#[trigger] track@[start.len() + k])@
                    == spec_chunk(samples@, n as nat, k),
        decreases samples@.len() - i,
    {
        let ghost q = track@.len() - start.len();
        buffer.push(samples[i]);
        i = i + 1;
        assert(buffer@ =~= samples@.subrange(q * n, i as int));
        if buffer.len() == chunk_size {
            proof {
                lemma_chunk_bounds(q, n);
            }
            let full = buffer;
            buffer = Vec::new();
            track.push(full);
            assert(track@[start.len() + q]@ =~= spec_chunk(samples@, n as nat, q));
            assert(buffer@ =~= samples@.subrange((q + 1) * n, i as int));
        }
    }
    proof {
        let q = track@.len() - start.len();
        lemma_fundamental_div_mod_converse(samples@.len() as int, n, q, buffer@.len() as int);
    }
}

} // verus!
