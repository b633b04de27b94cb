//! Fetches samples from the dataset and collates them into batches.
use vstd::prelude::*;

use crate::collate::Collate;
use crate::dataset::{Dataset, GetSample};

verus! {

/// The models of the samples at the given indices, in index order.
pub open spec fn select_models<M>(samples: Seq<M>, idxs: Seq<usize>) -> Seq<M> {
    Seq::new(idxs.len(), |i: int| samples[idxs[i] as int])
}

/// All indices fall within the first `n` positions.
pub open spec fn in_bounds(idxs: Seq<usize>, n: nat) -> bool {
    forall|i: int| 0 <= i < idxs.len() ==> (#[trigger] idxs[i]) < n
}

/// A fetcher retrieves the samples of one index batch from a dataset, in
/// index order, and collates them once.
pub trait Fetcher<D: Dataset, C: Collate<D::Sample>>: Sized {
    /// The models of the dataset's samples that this fetcher reads.
    spec fn spec_source(&self) -> Seq<<D::Sample as DeepView>::V>;

    /// The collate capability applied to each fetched batch.
    spec fn spec_collate(&self) -> C;

    /// Given a batch of indices, return the collated batch of the samples
    /// at those indices.
    fn fetch(&self, possibly_batched_index: Vec<usize>) -> (r: C::Output)
        requires
            in_bounds(possibly_batched_index@, self.spec_source().len()),
            self.spec_collate().collate_pre(
                select_models(self.spec_source(), possibly_batched_index@),
            ),
        ensures
            self.spec_collate().collate_post(
                select_models(self.spec_source(), possibly_batched_index@),
                r.deep_view(),
            ),
    ;
}

/// Fetcher for map-style datasets: reads each sample by index, keeps index
/// order, and calls the collate function once on the whole batch.
pub struct MapDatasetFetcher<'a, D, C> {
    /// The dataset data will be fetched from.
    pub dataset: &'a D,
    /// The collate capability used to merge the samples of one batch.
    pub collate_fn: &'a C,
}

impl<'a, D: Dataset, C: Collate<D::Sample>> Fetcher<D, C> for MapDatasetFetcher<'a, D, C> {
    open spec fn spec_source(&self) -> Seq<<D::Sample as DeepView>::V> {
        self.dataset.spec_samples()
    }

    open spec fn spec_collate(&self) -> C {
        *self.collate_fn
    }

    fn fetch(&self, possibly_batched_index: Vec<usize>) -> (r: C::Output) {
        let ghost samples = self.dataset.spec_samples();
        let n = possibly_batched_index.len();
        let mut data: Vec<D::Sample> = Vec::with_capacity(n);
        let mut i: usize = 0;
        while i < n
            invariant
                i <= n,
                n == possibly_batched_index@.len(),
                samples == self.dataset.spec_samples(),
                in_bounds(possibly_batched_index@, samples.len()),
                data@.len() == i,
                forall|j: int|
                    0 <= j < i ==> (#[trigger] data@[j]).deep_view() == samples[possibly_batched_index@[j] as int],
            decreases n - i,
        {
            let idx = possibly_batched_index[i];
            data.push(self.dataset.get_sample(idx));
            i += 1;
        }
        proof {
            assert(data.deep_view() =~= select_models(samples, possibly_batched_index@));
        }
        self.collate_fn.collate(data)
    }
}

} // verus!
