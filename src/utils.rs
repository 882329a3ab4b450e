use vstd::prelude::*;
use rand::Rng;
use crate::network::DataSetItem;

verus! {

/// Relies on `rand::Rng::gen_range` on `rand::thread_rng()`: for a
/// non-empty range `0..n` it returns a value in `[0, n)` (it panics only on
/// an empty range).
#[verifier::external_body]
fn random_below(n: usize) -> (r: usize)
    requires
        n > 0,
    ensures
        r < n,
{
    rand::thread_rng().gen_range(0..n)
}

/// `indices` holds distinct positions below `n`.
pub open spec fn distinct_below(indices: Seq<usize>, n: nat) -> bool {
    &&& forall|a: int| 0 <= a < indices.len() ==> #[trigger] indices[a] < n
    &&& forall|a: int, b: int| 0 <= a < b < indices.len() ==> #[trigger] indices[a] != #[trigger] indices[b]
}

/// `size` distinct positions below `n`, drawn uniformly without
/// replacement.
pub fn sample_indices(n: usize, size: usize) -> (r: Vec<usize>)
    requires
        size <= n,
    ensures
        r@.len() == size,
        distinct_below(r@, n as nat),
{
    let mut remaining: Vec<usize> = Vec::new();
    let mut i: usize = 0;
    while i < n
        invariant
            i <= n,
            remaining@.len() == i,
            forall|a: int| 0 <= a < i ==> #[trigger] remaining@[a] == a,
        decreases n - i,
    {
        remaining.push(i);
        i += 1;
    }
    let mut chosen: Vec<usize> = Vec::new();
    while chosen.len() < size
        invariant
            size <= n,
            chosen@.len() + remaining@.len() == n,
            chosen@.len() <= size,
            distinct_below(chosen@, n as nat),
            distinct_below(remaining@, n as nat),
            forall|a: int, c: int| 0 <= a < remaining@.len() && 0 <= c < chosen@.len()
                ==> #[trigger] remaining@[a] != #[trigger] chosen@[c],
        decreases size - chosen@.len(),
    {
        let j = random_below(remaining.len());
        let ghost before = remaining@;
        let ghost taken = chosen@;
        let next = remaining.swap_remove(j);
        chosen.push(next);
        proof {
            let last = before.len() - 1;
            assert forall|a: int| 0 <= a < remaining@.len() implies
                (a != j ==> #[trigger] remaining@[a] == before[a]) && (a == j ==> remaining@[a] == before[last]) by {
            }
            assert forall|a: int, b: int| 0 <= a < b < remaining@.len() implies #[trigger] remaining@[a] != #[trigger] remaining@[b] by {
                let pa = if a == j { last } else { a };
                let pb = if b == j { last } else { b };
                assert(remaining@[a] == before[pa]);
                assert(remaining@[b] == before[pb]);
            }
            assert forall|a: int, c: int| 0 <= a < remaining@.len() && 0 <= c < chosen@.len()
                implies #[trigger] remaining@[a] != #[trigger] chosen@[c] by {
                let pa = if a == j { last } else { a };
                assert(remaining@[a] == before[pa]);
                if c < taken.len() {
                    assert(chosen@[c] == taken[c]);
                }
            }
            assert forall|c: int, d: int| 0 <= c < d < chosen@.len() implies #[trigger] chosen@[c] != #[trigger] chosen@[d] by {
                if d == taken.len() {
                    assert(chosen@[c] == taken[c]);
                    assert(chosen@[d] == before[j as int]);
                }
            }
        }
    }
    chosen
}

/// A copy of `v`.
fn copy_values<T: Copy>(v: &Vec<T>) -> (r: Vec<T>)
    ensures
        r@ == v@,
{
    let mut out: Vec<T> = Vec::new();
    let mut i: usize = 0;
    while i < v.len()
        invariant
            i <= v@.len(),
            out@ == v@.take(i as int),
        decreases v@.len() - i,
    {
        out.push(v[i]);
        i += 1;
    }
    assert(v@.take(i as int) == v@);
    out
}

/// The same example as `item`.
pub open spec fn same_item<T>(a: DataSetItem<T>, b: DataSetItem<T>) -> bool {
    a.input@ == b.input@ && a.output@ == b.output@
}

/// Copies of the examples of `dataset` at `indices`, in that order.
pub fn select_items<T: Copy>(dataset: &Vec<DataSetItem<T>>, indices: &Vec<usize>) -> (r: Vec<DataSetItem<T>>)
    requires
        forall|a: int| 0 <= a < indices@.len() ==> #[trigger] indices@[a] < dataset@.len(),
    ensures
        r@.len() == indices@.len(),
        forall|a: int| 0 <= a < indices@.len() ==> same_item(#[trigger] r@[a], dataset@[indices@[a] as int]),
{
    let mut result: Vec<DataSetItem<T>> = Vec::new();
    let mut k: usize = 0;
    while k < indices.len()
        invariant
            forall|a: int| 0 <= a < indices@.len() ==> #[trigger] indices@[a] < dataset@.len(),
            k <= indices@.len(),
            result@.len() == k,
            forall|a: int| 0 <= a < k ==> same_item(#[trigger] result@[a], dataset@[indices@[a] as int]),
        decreases indices@.len() - k,
    {
        let item = &dataset[indices[k]];
        result.push(DataSetItem { input: copy_values(&item.input), output: copy_values(&item.output) });
        k += 1;
    }
    result
}

/// A batch of `size` distinct examples of `dataset`, drawn uniformly
/// without replacement.
pub fn generate_batch<T: Copy>(dataset: &Vec<DataSetItem<T>>, size: u32) -> (r: Vec<DataSetItem<T>>)
    requires
        size <= dataset@.len(),
    ensures
        r@.len() == size,
        exists|indices: Seq<usize>| {
            &&& indices.len() == size
            &&& #[trigger] distinct_below(indices, dataset@.len())
            &&& forall|a: int| 0 <= a < size ==> same_item(#[trigger] r@[a], dataset@[indices[a] as int])
        },
{
    let indices = sample_indices(dataset.len(), size as usize);
    let batch = select_items(dataset, &indices);
    assert(distinct_below(indices@, dataset@.len()));
    batch
}

} // verus!
