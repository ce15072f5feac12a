//! Splitting a driver list into the batches that one query may carry.

use vstd::prelude::*;
use vstd::seq_lib::lemma_flatten_concat;

verus! {

/// Most identifiers that one member query may carry.
pub const BATCH_SIZE: usize = 10;

/// Number of batches that `n` identifiers fall into.
pub open spec fn batch_count(n: nat) -> nat {
    (n + 9) / 10
}

/// Where batch `k` of `n` identifiers ends.
pub open spec fn batch_end(n: nat, k: int) -> int {
    if 10 * k + 10 <= n {
        10 * k + 10
    } else {
        n as int
    }
}

/// Batch `k` of `ids`: the identifiers at positions `10 * k` up to `10 * k + 10`.
pub open spec fn batch_of(ids: Seq<u32>, k: int) -> Seq<u32> {
    ids.subrange(10 * k, batch_end(ids.len(), k))
}

/// The first `count` batches of `ids`, in order.
pub open spec fn leading_batches(ids: Seq<u32>, count: nat) -> Seq<Seq<u32>> {
    Seq::new(count, |k: int| batch_of(ids, k))
}

/// The batches of `ids`, in order.
pub open spec fn batches_of(ids: Seq<u32>) -> Seq<Seq<u32>> {
    leading_batches(ids, batch_count(ids.len()))
}

proof fn lemma_leading_batches_flatten(ids: Seq<u32>, count: nat)
    requires
        count <= batch_count(ids.len()),
    ensures
        count == 0 ==> leading_batches(ids, count).flatten() == Seq::<u32>::empty(),
        count > 0 ==> leading_batches(ids, count).flatten() == ids.subrange(
            0,
            batch_end(ids.len(), count - 1),
        ),
    decreases count,
{
    if count == 0 {
        assert(leading_batches(ids, 0).flatten() =~= Seq::<u32>::empty());
    } else {
        let before = leading_batches(ids, (count - 1) as nat);
        let last = seq![batch_of(ids, count - 1)];
        lemma_leading_batches_flatten(ids, (count - 1) as nat);
        assert(leading_batches(ids, count) =~= before + last);
        lemma_flatten_concat(before, last);
        last.lemma_flatten_one_element();
        assert(before.flatten() + last.flatten() =~= ids.subrange(0, batch_end(ids.len(), count - 1)));
    }
}

/// Batching loses nothing and keeps the order: the batches, taken in order
/// and laid end to end, are the input. Every batch holds between one and ten
/// identifiers, and every batch but the last holds ten.
pub proof fn lemma_batches_cover(ids: Seq<u32>)
    ensures
        batches_of(ids).flatten() == ids,
        batches_of(ids).len() == batch_count(ids.len()),
        forall|k: int| 0 <= k < batches_of(ids).len() ==> 1 <= (#[trigger] batches_of(ids)[k]).len() <= 10,
        forall|k: int| 0 <= k < batches_of(ids).len() - 1 ==> (#[trigger] batches_of(ids)[k]).len() == 10,
{
    lemma_leading_batches_flatten(ids, batch_count(ids.len()));
    assert(ids.subrange(0, ids.len() as int) =~= ids);
}

/// Splits `ids` into consecutive batches of at most ten.
pub fn partition(ids: &Vec<u32>) -> (batches: Vec<Vec<u32>>)
    ensures
        batches.deep_view() == batches_of(ids@),
{
    let n: usize = ids.len();
    let mut batches: Vec<Vec<u32>> = Vec::new();
    let mut start: usize = 0;
    while start < n
        invariant
            n == ids.len(),
            start <= n,
            batches.len() <= batch_count(n as nat),
            start < n ==> start == 10 * batches.len(),
            start == n ==> batches.len() == batch_count(n as nat),
            forall|k: int| 0 <= k < batches.len() ==> (#[trigger] batches[k])@ == batch_of(ids@, k),
        decreases n - start,
    {
        let end: usize = if n - start <= BATCH_SIZE {
            n
        } else {
            start + BATCH_SIZE
        };
        let ghost k = batches.len() as int;
        assert(end == batch_end(n as nat, k));
        let mut batch: Vec<u32> = Vec::new();
        let mut at: usize = start;
        while at < end
            invariant
                start <= at <= end <= n,
                n == ids.len(),
                batch@ == ids@.subrange(start as int, at as int),
            decreases end - at,
        {
            batch.push(ids[at]);
            at += 1;
            assert(batch@ =~= ids@.subrange(start as int, at as int));
        }
        batches.push(batch);
        start = end;
    }
    assert forall|k: int| 0 <= k < batches.len() implies #[trigger] batches.deep_view()[k] == batch_of(
        ids@,
        k,
    ) by {
        assert(batches[k].deep_view() =~= batches[k]@);
    }
    assert(batches.deep_view() =~= batches_of(ids@));
    batches
}

} // verus!
