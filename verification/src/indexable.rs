//! Indexable (map-style) data loader: combines a dataset and a sampler,
//! and yields the dataset's samples batch by batch, collated.
use vstd::prelude::*;

use crate::collate::{Collate, DefaultCollate};
use crate::collate::Value;
use crate::dataset::{Dataset, Len};
use crate::fetch::{in_bounds, select_models, Fetcher, MapDatasetFetcher};
use crate::sampler::{
    batch_count, index_batches, is_permutation_of, lemma_index_batches_get,
    lemma_index_batches_sizes, lemma_permutation_in_range, BatchIterator, BatchSampler,
    RandomSampler, Sampler, SequentialSampler,
};

verus! {

/// Every batch the loader can form is collatable: any non-empty in-bounds
/// index batch no longer than the batch size meets the collate's
/// precondition.
pub open spec fn all_batches_collatable<T: DeepView, C: Collate<T>>(
    samples: Seq<T::V>,
    batch_size: nat,
    c: C,
) -> bool {
    forall|idxs: Seq<usize>|
        1 <= idxs.len() <= batch_size && in_bounds(idxs, samples.len()) ==> c.collate_pre(
            #[trigger] select_models(samples, idxs),
        )
}

/// Data loader. Combines a dataset and a sampler, and provides an
/// iterable over the given dataset: one pass of the sampler's indices,
/// grouped into batches, each batch fetched in index order and collated.
#[derive(Clone)]
pub struct DataLoader<D, S = SequentialSampler, C = DefaultCollate> {
    /// Dataset from which to load the data.
    dataset: D,
    /// Returns a batch of indices at a time.
    batch_sampler: BatchSampler<S>,
    /// Collate function.
    collate_fn: C,
    /// Number of worker threads a parallel runner may use; zero lets the
    /// runner pick the machine's parallelism.
    num_threads: usize,
    /// Prefetch buffer size: how many completed batches a runner may hold
    /// ahead of the consumer.
    prefetch_size: usize,
}

impl<D: Dataset, S: Sampler, C: Collate<D::Sample>> DataLoader<D, S, C> {
    /// The models of the dataset's samples.
    pub closed spec fn spec_samples(&self) -> Seq<<D::Sample as DeepView>::V> {
        self.dataset.spec_samples()
    }

    /// The sampler that draws the index passes.
    pub closed spec fn spec_sampler(&self) -> S {
        self.batch_sampler.sampler
    }

    /// The number of indices of one sampler pass.
    pub open spec fn spec_pass_len(&self) -> nat {
        self.spec_sampler().spec_len()
    }

    /// The configured batch size.
    pub closed spec fn spec_batch_size(&self) -> nat {
        self.batch_sampler.batch_size as nat
    }

    /// Whether an incomplete final batch is dropped.
    pub closed spec fn spec_drop_last(&self) -> bool {
        self.batch_sampler.drop_last
    }

    /// The configured number of worker threads.
    pub closed spec fn spec_num_threads(&self) -> nat {
        self.num_threads as nat
    }

    /// The configured prefetch buffer size.
    pub closed spec fn spec_prefetch_size(&self) -> nat {
        self.prefetch_size as nat
    }

    /// The collate capability.
    pub closed spec fn spec_collate(&self) -> C {
        self.collate_fn
    }

    /// A well-formed loader: positive batch size, and the sampler draws
    /// exactly the dataset's index range.
    pub open spec fn wf(&self) -> bool {
        &&& self.spec_batch_size() >= 1
        &&& self.spec_pass_len() == self.spec_samples().len()
    }

    /// The configured number of worker threads; zero stands for the
    /// machine's parallelism.
    pub fn num_threads(&self) -> (r: usize)
        ensures
            r == self.spec_num_threads(),
    {
        self.num_threads
    }

    /// The configured prefetch buffer size.
    pub fn prefetch_size(&self) -> (r: usize)
        ensures
            r == self.spec_prefetch_size(),
    {
        self.prefetch_size
    }

    /// Return an iterator over the loader: it draws one pass of the
    /// sampler and will yield each batch of the pass once, collated.
    pub fn iter(self) -> (it: SingleProcessDataLoaderIter<D, C>)
        requires
            self.wf(),
            all_batches_collatable(self.spec_samples(), self.spec_batch_size(), self.spec_collate()),
        ensures
            it.wf(),
            it.spec_samples() == self.spec_samples(),
            it.spec_collate() == self.spec_collate(),
            it.spec_batch_size() == self.spec_batch_size(),
            it.spec_drop_last() == self.spec_drop_last(),
            it.spec_emitted() == 0,
            is_permutation_of(it.spec_pass(), self.spec_samples().len()),
            self.spec_sampler().spec_possible_pass(it.spec_pass()),
            it.spec_batches().len() == self.spec_len(),
    {
        let remaining_batch = self.batch_sampler.len();
        let batch_iter = self.batch_sampler.iter();
        proof {
            lemma_permutation_in_range(batch_iter.spec_indices(), self.spec_pass_len());
        }
        SingleProcessDataLoaderIter {
            dataset: self.dataset,
            collate_fn: self.collate_fn,
            batch_iter,
            remaining_batch,
        }
    }
}

impl<D: Dataset> DataLoader<D, SequentialSampler, DefaultCollate> {
    /// Helper to return a [`DataLoader`] builder, carrying the default
    /// configuration: sequential order over the dataset's length, batch
    /// size one, nothing dropped, no prefetching, default collate.
    pub fn builder(dataset: D) -> (b: Builder<D, SequentialSampler, DefaultCollate>)
        ensures
            b.spec_samples() == dataset.spec_samples(),
            b.spec_dataset_len() == dataset.spec_len(),
            b.spec_pass_len() == dataset.spec_len(),
            b.spec_batch_size() == 1,
            !b.spec_drop_last(),
            b.spec_num_threads() == 0,
            b.spec_prefetch_size() == 0,
            b.spec_collate() == DefaultCollate,
    {
        Builder::new(dataset)
    }
}

impl<D: Dataset, S: Sampler, C: Collate<D::Sample>> DataLoader<D, S, C> {
    /// Turn the loader into an iterator over its batches; the same as
    /// [`DataLoader::iter`].
    pub fn into_iter(self) -> (it: SingleProcessDataLoaderIter<D, C>)
        requires
            self.wf(),
            all_batches_collatable(self.spec_samples(), self.spec_batch_size(), self.spec_collate()),
        ensures
            it.wf(),
            it.spec_samples() == self.spec_samples(),
            it.spec_collate() == self.spec_collate(),
            it.spec_batch_size() == self.spec_batch_size(),
            it.spec_drop_last() == self.spec_drop_last(),
            it.spec_emitted() == 0,
            is_permutation_of(it.spec_pass(), self.spec_samples().len()),
            self.spec_sampler().spec_possible_pass(it.spec_pass()),
            it.spec_batches().len() == self.spec_len(),
    {
        self.iter()
    }
}

impl<D: Dataset, S: Sampler, C: Collate<D::Sample>> Len for DataLoader<D, S, C> {
    /// The number of batches the loader yields per pass.
    open spec fn spec_len(&self) -> nat {
        batch_count(self.spec_pass_len(), self.spec_batch_size(), self.spec_drop_last())
    }

    fn len(&self) -> (r: usize) {
        self.batch_sampler.len()
    }

    fn is_empty(&self) -> (r: bool) {
        self.batch_sampler.len() == 0
    }
}

/// Iterates over the data loader within the calling thread: one drawn
/// pass, yielded batch by batch.
pub struct SingleProcessDataLoaderIter<D, C> {
    /// The dataset samples are fetched from.
    dataset: D,
    /// The collate capability applied to each batch.
    collate_fn: C,
    /// The drawn pass, grouped into index batches.
    batch_iter: BatchIterator,
    /// Number of batches still to be yielded.
    remaining_batch: usize,
}

impl<D: Dataset, C: Collate<D::Sample>> SingleProcessDataLoaderIter<D, C> {
    /// The models of the dataset's samples.
    pub closed spec fn spec_samples(&self) -> Seq<<D::Sample as DeepView>::V> {
        self.dataset.spec_samples()
    }

    /// The collate capability.
    pub closed spec fn spec_collate(&self) -> C {
        self.collate_fn
    }

    /// The drawn index pass of this iteration.
    pub closed spec fn spec_pass(&self) -> Seq<usize> {
        self.batch_iter.spec_indices()
    }

    /// The batch size the pass is grouped by.
    pub closed spec fn spec_batch_size(&self) -> nat {
        self.batch_iter.spec_batch_size()
    }

    /// Whether an incomplete final batch is dropped.
    pub closed spec fn spec_drop_last(&self) -> bool {
        self.batch_iter.spec_drop_last()
    }

    /// The index batches of this iteration, in yield order.
    pub open spec fn spec_batches(&self) -> Seq<Seq<usize>> {
        index_batches(self.spec_pass(), self.spec_batch_size(), self.spec_drop_last())
    }

    /// How many batches have been yielded.
    pub closed spec fn spec_emitted(&self) -> int {
        self.batch_iter.spec_emitted()
    }

    /// The iterator's invariant.
    pub closed spec fn wf(&self) -> bool {
        &&& self.batch_iter.wf()
        &&& self.spec_batch_size() >= 1
        &&& 0 <= self.spec_emitted() <= self.spec_batches().len()
        &&& in_bounds(self.batch_iter.spec_indices(), self.spec_samples().len())
        &&& all_batches_collatable(
            self.spec_samples(),
            self.spec_batch_size(),
            self.spec_collate(),
        )
        &&& self.remaining_batch == self.spec_batches().len() - self.spec_emitted()
    }

    /// Yield the next collated batch: the merge of the samples at the
    /// indices of batch `spec_emitted()`, or `None` once the pass is over.
    pub fn next(&mut self) -> (r: Option<C::Output>)
        requires
            old(self).wf(),
        ensures
            final(self).wf(),
            final(self).spec_samples() == old(self).spec_samples(),
            final(self).spec_collate() == old(self).spec_collate(),
            final(self).spec_pass() == old(self).spec_pass(),
            final(self).spec_batch_size() == old(self).spec_batch_size(),
            final(self).spec_drop_last() == old(self).spec_drop_last(),
            old(self).spec_emitted() < old(self).spec_batches().len() ==> {
                &&& r matches Some(out) && old(self).spec_collate().collate_post(
                    select_models(
                        old(self).spec_samples(),
                        old(self).spec_batches()[old(self).spec_emitted()],
                    ),
                    out.deep_view(),
                )
                &&& final(self).spec_emitted() == old(self).spec_emitted() + 1
            },
            old(self).spec_emitted() >= old(self).spec_batches().len() ==> r
                == None::<C::Output> && final(self).spec_emitted() == old(self).spec_emitted(),
    {
        let ghost samples = self.spec_samples();
        let ghost pass = self.batch_iter.spec_indices();
        let ghost bs = self.spec_batch_size();
        let ghost dl = self.spec_drop_last();
        let ghost k = self.spec_emitted();
        let batch = self.batch_iter.next();
        match batch {
            Some(idxs) => {
                proof {
                    lemma_index_batches_sizes(pass, bs, dl);
                    lemma_index_batches_get(pass, bs, dl, k);
                    assert(in_bounds(idxs@, samples.len())) by {
                        let start = k * bs;
                        assert forall|i: int| 0 <= i < idxs@.len() implies (#[trigger] idxs@[i])
                            < samples.len() by {
                            assert(idxs@[i] == pass[start + i]);
                        }
                    }
                    assert(self.spec_collate().collate_pre(select_models(samples, idxs@)));
                }
                let fetcher = MapDatasetFetcher {
                    dataset: &self.dataset,
                    collate_fn: &self.collate_fn,
                };
                let out = fetcher.fetch(idxs);
                self.remaining_batch -= 1;
                Some(out)
            },
            None => None,
        }
    }

    /// The exact number of batches still to be yielded, as lower and upper
    /// bound.
    pub fn size_hint(&self) -> (r: (usize, Option<usize>))
        requires
            self.wf(),
        ensures
            r.0 == self.spec_batches().len() - self.spec_emitted(),
            r.1 == Some(r.0),
    {
        (self.remaining_batch, Some(self.remaining_batch))
    }

    /// The exact number of batches still to be yielded.
    pub fn len(&self) -> (r: usize)
        requires
            self.wf(),
        ensures
            r == self.spec_batches().len() - self.spec_emitted(),
    {
        self.remaining_batch
    }
}

/// Builder for creating a [`DataLoader`] over a dataset.
pub struct Builder<D, S = SequentialSampler, C = DefaultCollate> {
    /// The dataset from which the loader will yield the data.
    dataset: D,
    /// The sampler used to gather elements of the batch together.
    batch_sampler: BatchSampler<S>,
    /// Used to collate the data together.
    collate_fn: C,
    /// Number of worker threads a parallel runner may use; zero lets the
    /// runner pick the machine's parallelism.
    num_threads: usize,
    /// Prefetch buffer size.
    prefetch_size: usize,
}

impl<D: Dataset, S: Sampler, C> Builder<D, S, C> {
    /// The models of the dataset's samples.
    pub closed spec fn spec_samples(&self) -> Seq<<D::Sample as DeepView>::V> {
        self.dataset.spec_samples()
    }

    /// The dataset's length.
    pub closed spec fn spec_dataset_len(&self) -> nat {
        self.dataset.spec_len()
    }

    /// The sampler that will draw the index passes.
    pub closed spec fn spec_sampler(&self) -> S {
        self.batch_sampler.sampler
    }

    /// The number of indices of one sampler pass.
    pub open spec fn spec_pass_len(&self) -> nat {
        self.spec_sampler().spec_len()
    }

    /// The configured batch size.
    pub closed spec fn spec_batch_size(&self) -> nat {
        self.batch_sampler.batch_size as nat
    }

    /// Whether an incomplete final batch is dropped.
    pub closed spec fn spec_drop_last(&self) -> bool {
        self.batch_sampler.drop_last
    }

    /// The configured number of worker threads.
    pub closed spec fn spec_num_threads(&self) -> nat {
        self.num_threads as nat
    }

    /// The configured prefetch buffer size.
    pub closed spec fn spec_prefetch_size(&self) -> nat {
        self.prefetch_size as nat
    }

    /// The collate capability.
    pub closed spec fn spec_collate(&self) -> C {
        self.collate_fn
    }
}

impl<D: Dataset> Builder<D, SequentialSampler, DefaultCollate> {
    /// Create a new [`Builder`] with default settings: sequential order,
    /// batch size one, nothing dropped, no prefetching, default collate,
    /// and the thread count left at zero, the marker a parallel runner
    /// reads as the machine's parallelism.
    pub fn new(dataset: D) -> (b: Self)
        ensures
            b.spec_samples() == dataset.spec_samples(),
            b.spec_dataset_len() == dataset.spec_len(),
            b.spec_pass_len() == dataset.spec_len(),
            b.spec_batch_size() == 1,
            !b.spec_drop_last(),
            b.spec_num_threads() == 0,
            b.spec_prefetch_size() == 0,
            b.spec_collate() == DefaultCollate,
    {
        let dataset_len = dataset.len();
        Builder {
            dataset,
            batch_sampler: BatchSampler {
                sampler: SequentialSampler::new(dataset_len),
                batch_size: 1,
                drop_last: false,
            },
            collate_fn: DefaultCollate,
            num_threads: 0,
            prefetch_size: 0,
        }
    }
}

impl<D: Dataset, S: Sampler, C> Builder<D, S, C> {
    /// Use a random sampler: every pass is a fresh permutation.
    pub fn shuffle(self) -> (b: Builder<D, RandomSampler, C>)
        ensures
            b.spec_samples() == self.spec_samples(),
            b.spec_dataset_len() == self.spec_dataset_len(),
            b.spec_pass_len() == self.spec_dataset_len(),
            b.spec_batch_size() == self.spec_batch_size(),
            b.spec_drop_last() == self.spec_drop_last(),
            b.spec_num_threads() == self.spec_num_threads(),
            b.spec_prefetch_size() == self.spec_prefetch_size(),
            b.spec_collate() == self.spec_collate(),
    {
        self.sampler::<RandomSampler>()
    }

    /// Set the number of elements in a batch; a batch size of zero is
    /// coerced to one.
    pub fn batch_size(self, batch_size: usize) -> (b: Self)
        ensures
            b.spec_samples() == self.spec_samples(),
            b.spec_dataset_len() == self.spec_dataset_len(),
            b.spec_pass_len() == self.spec_pass_len(),
            b.spec_batch_size() == if batch_size >= 1 {
                batch_size as nat
            } else {
                1nat
            },
            b.spec_drop_last() == self.spec_drop_last(),
            b.spec_num_threads() == self.spec_num_threads(),
            b.spec_prefetch_size() == self.spec_prefetch_size(),
            b.spec_collate() == self.spec_collate(),
    {
        let coerced = if batch_size >= 1 {
            batch_size
        } else {
            1
        };
        Builder {
            batch_sampler: BatchSampler {
                sampler: self.batch_sampler.sampler,
                batch_size: coerced,
                drop_last: self.batch_sampler.drop_last,
            },
            ..self
        }
    }

    /// Set the number of threads a parallel runner may use.
    pub fn num_threads(self, num_threads: usize) -> (b: Self)
        ensures
            b.spec_samples() == self.spec_samples(),
            b.spec_dataset_len() == self.spec_dataset_len(),
            b.spec_pass_len() == self.spec_pass_len(),
            b.spec_batch_size() == self.spec_batch_size(),
            b.spec_drop_last() == self.spec_drop_last(),
            b.spec_num_threads() == num_threads,
            b.spec_prefetch_size() == self.spec_prefetch_size(),
            b.spec_collate() == self.spec_collate(),
    {
        Builder { num_threads, ..self }
    }

    /// Set the size of the prefetch buffer.
    pub fn prefetch_size(self, prefetch_size: usize) -> (b: Self)
        ensures
            b.spec_samples() == self.spec_samples(),
            b.spec_dataset_len() == self.spec_dataset_len(),
            b.spec_pass_len() == self.spec_pass_len(),
            b.spec_batch_size() == self.spec_batch_size(),
            b.spec_drop_last() == self.spec_drop_last(),
            b.spec_num_threads() == self.spec_num_threads(),
            b.spec_prefetch_size() == prefetch_size,
            b.spec_collate() == self.spec_collate(),
    {
        Builder { prefetch_size, ..self }
    }

    /// Drop the last elements if they do not fill a whole batch. For
    /// instance with 13 samples and a batch size of 5, the last 3 samples
    /// are dropped.
    pub fn drop_last(self) -> (b: Self)
        ensures
            b.spec_samples() == self.spec_samples(),
            b.spec_dataset_len() == self.spec_dataset_len(),
            b.spec_pass_len() == self.spec_pass_len(),
            b.spec_batch_size() == self.spec_batch_size(),
            b.spec_drop_last(),
            b.spec_num_threads() == self.spec_num_threads(),
            b.spec_prefetch_size() == self.spec_prefetch_size(),
            b.spec_collate() == self.spec_collate(),
    {
        Builder {
            batch_sampler: BatchSampler {
                sampler: self.batch_sampler.sampler,
                batch_size: self.batch_sampler.batch_size,
                drop_last: true,
            },
            ..self
        }
    }

    /// Set a custom collate function.
    pub fn collate_fn<CF>(self, collate_fn: CF) -> (b: Builder<D, S, CF>)
        ensures
            b.spec_samples() == self.spec_samples(),
            b.spec_dataset_len() == self.spec_dataset_len(),
            b.spec_pass_len() == self.spec_pass_len(),
            b.spec_batch_size() == self.spec_batch_size(),
            b.spec_drop_last() == self.spec_drop_last(),
            b.spec_num_threads() == self.spec_num_threads(),
            b.spec_prefetch_size() == self.spec_prefetch_size(),
            b.spec_collate() == collate_fn,
    {
        Builder {
            dataset: self.dataset,
            batch_sampler: self.batch_sampler,
            collate_fn,
            num_threads: self.num_threads,
            prefetch_size: self.prefetch_size,
        }
    }

    /// Set a custom [`Sampler`], drawn over the dataset's length.
    pub fn sampler<SA: Sampler>(self) -> (b: Builder<D, SA, C>)
        ensures
            b.spec_samples() == self.spec_samples(),
            b.spec_dataset_len() == self.spec_dataset_len(),
            b.spec_pass_len() == self.spec_dataset_len(),
            b.spec_batch_size() == self.spec_batch_size(),
            b.spec_drop_last() == self.spec_drop_last(),
            b.spec_num_threads() == self.spec_num_threads(),
            b.spec_prefetch_size() == self.spec_prefetch_size(),
            b.spec_collate() == self.spec_collate(),
    {
        let sampler: SA = SA::new(self.dataset.len());
        Builder {
            dataset: self.dataset,
            batch_sampler: BatchSampler {
                sampler,
                batch_size: self.batch_sampler.batch_size,
                drop_last: self.batch_sampler.drop_last,
            },
            collate_fn: self.collate_fn,
            num_threads: self.num_threads,
            prefetch_size: self.prefetch_size,
        }
    }

    /// Create a [`DataLoader`] from this [`Builder`].
    pub fn build(self) -> (loader: DataLoader<D, S, C>) where C: Collate<D::Sample>
        ensures
            loader.spec_samples() == self.spec_samples(),
            loader.spec_pass_len() == self.spec_pass_len(),
            loader.spec_batch_size() == self.spec_batch_size(),
            loader.spec_drop_last() == self.spec_drop_last(),
            loader.spec_num_threads() == self.spec_num_threads(),
            loader.spec_prefetch_size() == self.spec_prefetch_size(),
            loader.spec_collate() == self.spec_collate(),
    {
        DataLoader {
            dataset: self.dataset,
            batch_sampler: self.batch_sampler,
            collate_fn: self.collate_fn,
            num_threads: self.num_threads,
            prefetch_size: self.prefetch_size,
        }
    }
}


/// Older-style builder for creating a data loader, configured through
/// `with_*` methods.
pub struct DataLoaderBuilder<D, S = SequentialSampler, C = DefaultCollate> {
    /// The dataset from which the loader will yield the data.
    dataset: D,
    /// The number of samples per batch.
    batch_size: usize,
    /// An explicit sampler value; mutually exclusive with the other
    /// options at build time.
    sampler: Option<S>,
    /// Number of workers a parallel runner may use.
    num_worker: u32,
    /// If `true`, a final batch smaller than `batch_size` is dropped.
    drop_last: bool,
    /// Used to collate the data together.
    collate_fn: Option<C>,
}

impl<D: Dataset, S: Sampler, C> DataLoaderBuilder<D, S, C> {
    /// The models of the dataset's samples.
    pub closed spec fn spec_samples(&self) -> Seq<<D::Sample as DeepView>::V> {
        self.dataset.spec_samples()
    }

    /// The dataset's length.
    pub closed spec fn spec_dataset_len(&self) -> nat {
        self.dataset.spec_len()
    }

    /// The configured batch size.
    pub closed spec fn spec_batch_size(&self) -> nat {
        self.batch_size as nat
    }

    /// The explicitly provided sampler, if any.
    pub closed spec fn spec_sampler(&self) -> Option<S> {
        self.sampler
    }

    /// Whether an incomplete final batch is dropped.
    pub closed spec fn spec_drop_last(&self) -> bool {
        self.drop_last
    }

    /// The explicitly provided collate capability, if any.
    pub closed spec fn spec_collate(&self) -> Option<C> {
        self.collate_fn
    }

    /// Create a new builder with default settings: batch size one,
    /// nothing dropped, no explicit sampler or collate.
    pub fn new(dataset: D) -> (b: Self)
        ensures
            b.spec_samples() == dataset.spec_samples(),
            b.spec_dataset_len() == dataset.spec_len(),
            b.spec_batch_size() == 1,
            b.spec_sampler() is None,
            !b.spec_drop_last(),
            b.spec_collate() is None,
    {
        DataLoaderBuilder {
            dataset,
            batch_size: 1,
            sampler: None,
            num_worker: 0,
            drop_last: false,
            collate_fn: None,
        }
    }

    /// Set the number of samples per batch; a batch size of zero is
    /// coerced to one.
    pub fn with_batch_size(self, batch_size: usize) -> (b: Self)
        ensures
            b.spec_samples() == self.spec_samples(),
            b.spec_dataset_len() == self.spec_dataset_len(),
            b.spec_batch_size() == if batch_size >= 1 {
                batch_size as nat
            } else {
                1nat
            },
            b.spec_sampler() == self.spec_sampler(),
            b.spec_drop_last() == self.spec_drop_last(),
            b.spec_collate() == self.spec_collate(),
    {
        let coerced = if batch_size >= 1 {
            batch_size
        } else {
            1
        };
        DataLoaderBuilder { batch_size: coerced, ..self }
    }

    /// Set the number of workers a parallel runner may use.
    pub fn with_num_worker(self, num_worker: u32) -> (b: Self)
        ensures
            b.spec_samples() == self.spec_samples(),
            b.spec_dataset_len() == self.spec_dataset_len(),
            b.spec_batch_size() == self.spec_batch_size(),
            b.spec_sampler() == self.spec_sampler(),
            b.spec_drop_last() == self.spec_drop_last(),
            b.spec_collate() == self.spec_collate(),
    {
        DataLoaderBuilder { num_worker, ..self }
    }

    /// Set a custom collate function.
    pub fn with_collate_fn(self, collate_fn: C) -> (b: Self)
        ensures
            b.spec_samples() == self.spec_samples(),
            b.spec_dataset_len() == self.spec_dataset_len(),
            b.spec_batch_size() == self.spec_batch_size(),
            b.spec_sampler() == self.spec_sampler(),
            b.spec_drop_last() == self.spec_drop_last(),
            b.spec_collate() == Some(collate_fn),
    {
        DataLoaderBuilder { collate_fn: Some(collate_fn), ..self }
    }

    /// Provide an explicit sampler value. An explicit sampler is mutually
    /// exclusive with the remaining options: `build` rejects it.
    pub fn with_sampler(self, sampler: S) -> (b: Self)
        ensures
            b.spec_samples() == self.spec_samples(),
            b.spec_dataset_len() == self.spec_dataset_len(),
            b.spec_batch_size() == self.spec_batch_size(),
            b.spec_sampler() == Some(sampler),
            b.spec_drop_last() == self.spec_drop_last(),
            b.spec_collate() == self.spec_collate(),
    {
        DataLoaderBuilder { sampler: Some(sampler), ..self }
    }

    /// Create a data loader. An explicitly provided sampler is mutually
    /// exclusive with the remaining options and is rejected at build
    /// time.
    pub fn build(self) -> (loader: DataLoader<D, S, C>) where C: Collate<D::Sample> + Default
        requires
            self.spec_sampler() is None,
            !self.spec_drop_last(),
        ensures
            loader.spec_samples() == self.spec_samples(),
            loader.spec_pass_len() == self.spec_dataset_len(),
            loader.spec_batch_size() == self.spec_batch_size(),
            loader.spec_drop_last() == self.spec_drop_last(),
            loader.spec_prefetch_size() == 0,
            self.spec_collate() matches Some(c) ==> loader.spec_collate() == c,
            self.spec_collate() is None ==> call_ensures(
                <C as core::default::Default>::default,
                (),
                loader.spec_collate(),
            ),
    {
        let dataset_len = self.dataset.len();
        let sampler = S::new(dataset_len);
        let collate_fn = match self.collate_fn {
            Some(c) => c,
            None => C::default(),
        };
        let num_threads = self.num_worker as usize;
        DataLoader {
            dataset: self.dataset,
            batch_sampler: BatchSampler {
                sampler,
                batch_size: self.batch_size,
                drop_last: self.drop_last,
            },
            collate_fn,
            num_threads,
            prefetch_size: 0,
        }
    }
}

/// Older-style generic builder for creating a data loader, with the
/// sampler chosen at the type level.
pub struct DataLoaderBuilder2<D, S = SequentialSampler, C = DefaultCollate> {
    /// The dataset from which the loader will yield the data.
    dataset: D,
    /// The sampler used to gather elements of the batch together.
    batch_sampler: BatchSampler<S>,
    /// Used to collate the data together.
    collate_fn: C,
}

impl<D: Dataset, S: Sampler, C> DataLoaderBuilder2<D, S, C> {
    /// The models of the dataset's samples.
    pub closed spec fn spec_samples(&self) -> Seq<<D::Sample as DeepView>::V> {
        self.dataset.spec_samples()
    }

    /// The dataset's length.
    pub closed spec fn spec_dataset_len(&self) -> nat {
        self.dataset.spec_len()
    }

    /// The number of indices of one sampler pass.
    pub closed spec fn spec_pass_len(&self) -> nat {
        self.batch_sampler.sampler.spec_len()
    }

    /// The configured batch size.
    pub closed spec fn spec_batch_size(&self) -> nat {
        self.batch_sampler.batch_size as nat
    }

    /// Whether an incomplete final batch is dropped.
    pub closed spec fn spec_drop_last(&self) -> bool {
        self.batch_sampler.drop_last
    }

    /// The collate capability.
    pub closed spec fn spec_collate(&self) -> C {
        self.collate_fn
    }
}

impl<D: Dataset> DataLoaderBuilder2<D, SequentialSampler, DefaultCollate> {
    /// Create a new builder with default settings: sequential order,
    /// batch size one, nothing dropped, default collate.
    pub fn new(dataset: D) -> (b: DataLoaderBuilder2<D>)
        ensures
            b.spec_samples() == dataset.spec_samples(),
            b.spec_dataset_len() == dataset.spec_len(),
            b.spec_pass_len() == dataset.spec_len(),
            b.spec_batch_size() == 1,
            !b.spec_drop_last(),
            b.spec_collate() == DefaultCollate,
    {
        let dataset_len = dataset.len();
        DataLoaderBuilder2 {
            dataset,
            batch_sampler: BatchSampler {
                sampler: SequentialSampler::new(dataset_len),
                batch_size: 1,
                drop_last: false,
            },
            collate_fn: DefaultCollate,
        }
    }
}

impl<D: Dataset, S: Sampler, C> DataLoaderBuilder2<D, S, C> {
    /// Use a random sampler: every pass is a fresh permutation.
    pub fn shuffle(self) -> (b: DataLoaderBuilder2<D, RandomSampler, C>)
        ensures
            b.spec_samples() == self.spec_samples(),
            b.spec_dataset_len() == self.spec_dataset_len(),
            b.spec_pass_len() == self.spec_dataset_len(),
            b.spec_batch_size() == self.spec_batch_size(),
            b.spec_drop_last() == self.spec_drop_last(),
            b.spec_collate() == self.spec_collate(),
    {
        self.with_sampler::<RandomSampler>()
    }

    /// Set the number of samples per batch; a batch size of zero is
    /// coerced to one.
    pub fn with_batch_size(self, batch_size: usize) -> (b: Self)
        ensures
            b.spec_samples() == self.spec_samples(),
            b.spec_dataset_len() == self.spec_dataset_len(),
            b.spec_pass_len() == self.spec_pass_len(),
            b.spec_batch_size() == if batch_size >= 1 {
                batch_size as nat
            } else {
                1nat
            },
            b.spec_drop_last() == self.spec_drop_last(),
            b.spec_collate() == self.spec_collate(),
    {
        let coerced = if batch_size >= 1 {
            batch_size
        } else {
            1
        };
        DataLoaderBuilder2 {
            batch_sampler: BatchSampler {
                sampler: self.batch_sampler.sampler,
                batch_size: coerced,
                drop_last: self.batch_sampler.drop_last,
            },
            ..self
        }
    }

    /// Choose whether a final batch smaller than the batch size is
    /// dropped.
    pub fn drop_last(self, drop_last: bool) -> (b: Self)
        ensures
            b.spec_samples() == self.spec_samples(),
            b.spec_dataset_len() == self.spec_dataset_len(),
            b.spec_pass_len() == self.spec_pass_len(),
            b.spec_batch_size() == self.spec_batch_size(),
            b.spec_drop_last() == drop_last,
            b.spec_collate() == self.spec_collate(),
    {
        DataLoaderBuilder2 {
            batch_sampler: BatchSampler {
                sampler: self.batch_sampler.sampler,
                batch_size: self.batch_sampler.batch_size,
                drop_last,
            },
            ..self
        }
    }

    /// Set a custom collate function.
    pub fn with_collate_fn<CF>(self, collate_fn: CF) -> (b: DataLoaderBuilder2<D, S, CF>)
        ensures
            b.spec_samples() == self.spec_samples(),
            b.spec_dataset_len() == self.spec_dataset_len(),
            b.spec_pass_len() == self.spec_pass_len(),
            b.spec_batch_size() == self.spec_batch_size(),
            b.spec_drop_last() == self.spec_drop_last(),
            b.spec_collate() == collate_fn,
    {
        DataLoaderBuilder2 {
            dataset: self.dataset,
            batch_sampler: self.batch_sampler,
            collate_fn,
        }
    }

    /// Set a custom [`Sampler`], drawn over the dataset's length.
    pub fn with_sampler<SA: Sampler>(self) -> (b: DataLoaderBuilder2<D, SA, C>)
        ensures
            b.spec_samples() == self.spec_samples(),
            b.spec_dataset_len() == self.spec_dataset_len(),
            b.spec_pass_len() == self.spec_dataset_len(),
            b.spec_batch_size() == self.spec_batch_size(),
            b.spec_drop_last() == self.spec_drop_last(),
            b.spec_collate() == self.spec_collate(),
    {
        let sampler: SA = SA::new(self.dataset.len());
        DataLoaderBuilder2 {
            dataset: self.dataset,
            batch_sampler: BatchSampler {
                sampler,
                batch_size: self.batch_sampler.batch_size,
                drop_last: self.batch_sampler.drop_last,
            },
            collate_fn: self.collate_fn,
        }
    }

    /// Create a data loader from this builder.
    pub fn build(self) -> (loader: DataLoader<D, S, C>) where C: Collate<D::Sample>
        ensures
            loader.spec_samples() == self.spec_samples(),
            loader.spec_pass_len() == self.spec_pass_len(),
            loader.spec_batch_size() == self.spec_batch_size(),
            loader.spec_drop_last() == self.spec_drop_last(),
            loader.spec_prefetch_size() == 0,
            loader.spec_collate() == self.spec_collate(),
    {
        DataLoader {
            dataset: self.dataset,
            batch_sampler: self.batch_sampler,
            collate_fn: self.collate_fn,
            num_threads: 0,
            prefetch_size: 0,
        }
    }
}


/// With well-formed samples all shaped like the first one — what
/// [`crate::collate::batch_mergeable`] checks of the whole sample list —
/// every batch the loader can form meets the default collate's
/// precondition.
pub proof fn lemma_uniform_samples_collatable<T: DeepView>(
    samples: Seq<crate::collate::ValueView<T::V>>,
    batch_size: nat,
)
    requires
        samples.len() > 0,
        crate::collate::mergeable(samples),
    ensures
        all_batches_collatable::<crate::collate::Value<T>, DefaultCollate>(
            samples,
            batch_size,
            DefaultCollate,
        ),
{
    assert forall|p: int, q: int|
        0 <= p < samples.len() && 0 <= q < samples.len() implies crate::collate::same_shape(
        #[trigger] samples[p],
        #[trigger] samples[q],
    ) by {
        assert(crate::collate::well_formed(samples[0]));
        assert(crate::collate::well_formed(samples[p]));
        assert(crate::collate::same_shape(samples[0], samples[p]));
        assert(crate::collate::same_shape(samples[0], samples[q]));
        crate::collate::lemma_same_shape_sym(samples[0], samples[p]);
        crate::collate::lemma_same_shape_trans(samples[p], samples[0], samples[q]);
    }
    let c = DefaultCollate;
    assert forall|idxs: Seq<usize>|
        1 <= idxs.len() <= batch_size && in_bounds(idxs, samples.len()) implies <
    DefaultCollate as Collate<crate::collate::Value<T>>>::collate_pre(
        &c,
        #[trigger] select_models(samples, idxs),
    ) by {
        let b = select_models(samples, idxs);
        assert forall|i: int|
            0 <= i < b.len() implies crate::collate::well_formed(#[trigger] b[i]) by {
            assert(b[i] == samples[idxs[i] as int]);
        }
        assert forall|i: int|
            0 <= i < b.len() implies crate::collate::same_shape(b[0], #[trigger] b[i]) by {
            assert(b[0] == samples[idxs[0] as int]);
            assert(b[i] == samples[idxs[i] as int]);
        }
    }
}


impl<M: crate::dataset::CloneSample, S: Sampler> DataLoader<Vec<Value<M>>, S, DefaultCollate> {
    /// Iterate after checking: hands out the iterator exactly when the
    /// batch size is positive, the sampler draws the dataset's index
    /// range, and the samples are checked to merge — every sample
    /// well-formed and shaped like the first, or no sample at all. On any
    /// other loader the loader itself comes back unchanged.
    pub fn try_iter(self) -> (r: Result<
        SingleProcessDataLoaderIter<Vec<Value<M>>, DefaultCollate>,
        Self,
    >)
        ensures
            r is Ok <==> {
                &&& self.spec_batch_size() >= 1
                &&& self.spec_pass_len() == self.spec_samples().len()
                &&& (self.spec_samples().len() == 0 || crate::collate::mergeable(
                    self.spec_samples(),
                ))
            },
            r matches Ok(it) ==> {
                &&& it.wf()
                &&& it.spec_samples() == self.spec_samples()
                &&& it.spec_batch_size() == self.spec_batch_size()
                &&& it.spec_drop_last() == self.spec_drop_last()
                &&& it.spec_emitted() == 0
                &&& is_permutation_of(it.spec_pass(), self.spec_samples().len())
                &&& self.spec_sampler().spec_possible_pass(it.spec_pass())
                &&& it.spec_batches().len() == self.spec_len()
            },
            r matches Err(loader) ==> loader == self,
    {
        let ghost samples = self.spec_samples();
        proof {
            assert(samples =~= crate::collate::value_views(self.dataset@));
        }
        if self.batch_sampler.batch_size < 1 {
            return Err(self);
        }
        if self.batch_sampler.sampler.len() != self.dataset.len() {
            return Err(self);
        }
        if self.dataset.len() == 0 {
            proof {
                assert forall|idxs: Seq<usize>|
                    1 <= idxs.len() <= self.spec_batch_size() && in_bounds(
                        idxs,
                        samples.len(),
                    ) implies <DefaultCollate as Collate<Value<M>>>::collate_pre(
                    &DefaultCollate,
                    #[trigger] select_models(samples, idxs),
                ) by {
                    assert(!(idxs[0] < 0));
                }
            }
            return Ok(self.iter());
        }
        if crate::collate::batch_mergeable(&self.dataset) {
            proof {
                lemma_uniform_samples_collatable::<M>(samples, self.spec_batch_size());
            }
            Ok(self.iter())
        } else {
            Err(self)
        }
    }
}


} // verus!
