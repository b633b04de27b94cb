//! Iterable data loader: batches an in-memory stream of samples in their
//! arrival order, with optional in-batch shuffling.
use vstd::prelude::*;

use crate::collate::{Collate, DefaultCollate};
use crate::dataset::CloneSample;
use crate::sampler::shuffle_in_place;

verus! {

/// Every batch this loader can draw from the samples is collatable: the
/// collate's precondition holds of every non-empty list of at most
/// `batch_size` models drawn from the samples, in any order.
pub open spec fn all_draws_collatable<T: DeepView, C: Collate<T>>(
    samples: Seq<T::V>,
    batch_size: nat,
    c: C,
) -> bool {
    forall|b: Seq<T::V>|
        (1 <= b.len() <= batch_size && (forall|i: int|
            0 <= i < b.len() ==> samples.contains(#[trigger] b[i]))) ==> #[trigger] c.collate_pre(b)
}

/// Dropping consumed samples from the front keeps every remaining draw
/// collatable.
pub proof fn lemma_collatable_skip<T: DeepView, C: Collate<T>>(
    samples: Seq<T::V>,
    k: int,
    batch_size: nat,
    c: C,
)
    requires
        all_draws_collatable(samples, batch_size, c),
        0 <= k <= samples.len(),
    ensures
        all_draws_collatable(samples.skip(k), batch_size, c),
{
    assert forall|b: Seq<T::V>|
        (1 <= b.len() <= batch_size && (forall|i: int|
            0 <= i < b.len() ==> samples.skip(k).contains(#[trigger] b[i]))) implies #[trigger] c.collate_pre(
        b,
    ) by {
        assert forall|i: int| 0 <= i < b.len() implies samples.contains(#[trigger] b[i]) by {
            let w = choose|w: int|
                0 <= w < samples.skip(k).len() && samples.skip(k)[w] == b[i];
            assert(samples[k + w] == samples.skip(k)[w]);
        }
    }
}

/// For an iterable dataset, the loader yields until the underlying
/// samples run out: full batches in arrival order, then the partial rest
/// unless `drop_last` suppresses it.
pub struct DataLoader<T, C = DefaultCollate> {
    /// The dataset the loader will iterate over.
    dataset: Vec<T>,
    /// The number of samples a batch will contain.
    batch_size: usize,
    /// If `true`, a final batch smaller than `batch_size` is dropped.
    drop_last: bool,
    /// Collate function.
    collate_fn: C,
    /// If `true` the samples within each batch are shuffled.
    shuffle: bool,
}

impl<T: DeepView, C: Collate<T>> DataLoader<T, C> {
    /// The models of the samples, in arrival order.
    pub closed spec fn spec_samples(&self) -> Seq<T::V> {
        self.dataset.deep_view()
    }

    /// The configured batch size.
    pub closed spec fn spec_batch_size(&self) -> nat {
        self.batch_size as nat
    }

    /// Whether an incomplete final batch is dropped.
    pub closed spec fn spec_drop_last(&self) -> bool {
        self.drop_last
    }

    /// Whether samples are shuffled within each batch.
    pub closed spec fn spec_shuffle(&self) -> bool {
        self.shuffle
    }

    /// The collate capability.
    pub closed spec fn spec_collate(&self) -> C {
        self.collate_fn
    }

    /// Iterate over the data loader, consuming the dataset.
    pub fn into_iter(self) -> (it: IntoIter<T, C>)
        requires
            self.spec_batch_size() >= 1,
            all_draws_collatable(self.spec_samples(), self.spec_batch_size(), self.spec_collate()),
        ensures
            it.wf(),
            it.spec_remaining() == self.spec_samples(),
            it.spec_batch_size() == self.spec_batch_size(),
            it.spec_drop_last() == self.spec_drop_last(),
            it.spec_shuffle() == self.spec_shuffle(),
            it.spec_collate() == self.spec_collate(),
    {
        IntoIter {
            dataset_iter: self.dataset,
            batch_size: self.batch_size,
            drop_last: self.drop_last,
            collate_fn: self.collate_fn,
            shuffle: self.shuffle,
        }
    }
}

impl<T: DeepView + CloneSample, C: Collate<T>> DataLoader<T, C> {
    /// Iterate over the data loader without consuming the underlying
    /// dataset: samples are copied into the batches.
    pub fn iter(&self) -> (it: Iter<'_, T, C>)
        requires
            self.spec_batch_size() >= 1,
            all_draws_collatable(self.spec_samples(), self.spec_batch_size(), self.spec_collate()),
        ensures
            it.wf(),
            it.spec_remaining() == self.spec_samples(),
            it.spec_batch_size() == self.spec_batch_size(),
            it.spec_drop_last() == self.spec_drop_last(),
            it.spec_shuffle() == self.spec_shuffle(),
            it.spec_collate() == self.spec_collate(),
    {
        Iter {
            dataset: &self.dataset,
            pos: 0,
            batch_size: self.batch_size,
            drop_last: self.drop_last,
            collate_fn: &self.collate_fn,
            shuffle: self.shuffle,
        }
    }
}

impl<T: DeepView> DataLoader<T, DefaultCollate> {
    /// Return a [`DataLoader`] builder, carrying the default
    /// configuration: batch size one, nothing dropped, no shuffling,
    /// default collate.
    pub fn builder(dataset: Vec<T>) -> (b: Builder<T, DefaultCollate>)
        ensures
            b.spec_samples() == dataset.deep_view(),
            b.spec_batch_size() == 1,
            !b.spec_drop_last(),
            !b.spec_shuffle(),
            b.spec_collate() == DefaultCollate,
    {
        Builder::new(dataset)
    }
}

/// What one batching step yields: the collate of the next window of
/// samples, shuffled within the window when asked; `None` on an empty
/// rest, or on a partial rest under `drop_last`.
pub open spec fn step_yield<T: DeepView, C: Collate<T>>(
    c: C,
    remaining: Seq<T::V>,
    batch_size: nat,
    drop_last: bool,
    shuffle: bool,
    r: Option<C::Output>,
    out_model: <C::Output as DeepView>::V,
) -> bool {
    if remaining.len() == 0 {
        r is None
    } else if remaining.len() < batch_size && drop_last {
        r is None
    } else {
        {
            let window = if remaining.len() >= batch_size {
                remaining.take(batch_size as int)
            } else {
                remaining
            };
            &&& r is Some
            &&& if shuffle {
                exists|b: Seq<T::V>|
                    #[trigger] b.to_multiset() == window.to_multiset() && c.collate_post(
                        b,
                        out_model,
                    )
            } else {
                c.collate_post(window, out_model)
            }
        }
    }
}

/// Iterator returned by the `into_iter` function: owns the not yet
/// consumed samples.
pub struct IntoIter<T, C> {
    /// The samples not yet grouped into a batch.
    dataset_iter: Vec<T>,
    /// The number of samples a batch will contain.
    batch_size: usize,
    /// If `true`, a final batch smaller than `batch_size` is dropped.
    drop_last: bool,
    /// Collate function.
    collate_fn: C,
    /// If `true` the samples within each batch are shuffled.
    shuffle: bool,
}

impl<T: DeepView, C: Collate<T>> IntoIter<T, C> {
    /// The models of the not yet consumed samples.
    pub closed spec fn spec_remaining(&self) -> Seq<T::V> {
        self.dataset_iter.deep_view()
    }

    /// The configured batch size.
    pub closed spec fn spec_batch_size(&self) -> nat {
        self.batch_size as nat
    }

    /// Whether an incomplete final batch is dropped.
    pub closed spec fn spec_drop_last(&self) -> bool {
        self.drop_last
    }

    /// Whether samples are shuffled within each batch.
    pub closed spec fn spec_shuffle(&self) -> bool {
        self.shuffle
    }

    /// The collate capability.
    pub closed spec fn spec_collate(&self) -> C {
        self.collate_fn
    }

    /// The iterator's invariant.
    pub closed spec fn wf(&self) -> bool {
        &&& self.batch_size >= 1
        &&& all_draws_collatable(
            self.spec_remaining(),
            self.spec_batch_size(),
            self.spec_collate(),
        )
    }

    /// Yield the collate of the next batch of samples, or `None` once the
    /// samples are out or a final partial batch is dropped.
    #[verifier::loop_isolation(false)]
    pub fn next(&mut self) -> (r: Option<C::Output>)
        requires
            old(self).wf(),
        ensures
            final(self).wf(),
            final(self).spec_batch_size() == old(self).spec_batch_size(),
            final(self).spec_drop_last() == old(self).spec_drop_last(),
            final(self).spec_shuffle() == old(self).spec_shuffle(),
            final(self).spec_collate() == old(self).spec_collate(),
            final(self).spec_remaining() == old(self).spec_remaining().skip(
                vstd::math::min(
                    old(self).spec_remaining().len() as int,
                    old(self).spec_batch_size() as int,
                ),
            ),
            r is Some ==> exists|m: <C::Output as DeepView>::V|
                (#[trigger] r->0.deep_view()) == m && step_yield(
                    old(self).spec_collate(),
                    old(self).spec_remaining(),
                    old(self).spec_batch_size(),
                    old(self).spec_drop_last(),
                    old(self).spec_shuffle(),
                    r,
                    m,
                ),
            r is None ==> step_yield(
                old(self).spec_collate(),
                old(self).spec_remaining(),
                old(self).spec_batch_size(),
                old(self).spec_drop_last(),
                old(self).spec_shuffle(),
                r,
                vstd::prelude::arbitrary(),
            ),
    {
        let ghost rem0 = self.spec_remaining();
        let len = self.dataset_iter.len();
        if len == 0 {
            proof {
                assert(rem0.skip(0) =~= rem0);
            }
            return None;
        }
        let take_count = if len >= self.batch_size {
            self.batch_size
        } else {
            len
        };
        let mut batch: Vec<T> = Vec::with_capacity(take_count);
        let mut j: usize = 0;
        while j < take_count
            invariant
                j <= take_count,
                self.dataset_iter.deep_view() == rem0.skip(j as int),
                self.batch_size == old(self).batch_size,
                self.drop_last == old(self).drop_last,
                self.shuffle == old(self).shuffle,
                self.collate_fn == old(self).collate_fn,
                batch@.len() == j,
                batch.deep_view() == rem0.take(take_count as int).take(j as int),
            decreases take_count - j,
        {
            let ghost before = self.dataset_iter.deep_view();
            let ghost batch_before = batch.deep_view();
            let x = self.dataset_iter.remove(0);
            batch.push(x);
            proof {
                assert(x.deep_view() == before[0]);
                assert(before[0] == rem0[j as int]);
                assert(self.dataset_iter.deep_view() =~= before.skip(1));
                assert(before.skip(1) =~= rem0.skip(j + 1));
                assert(batch.deep_view() =~= batch_before.push(x.deep_view()));
                assert(batch.deep_view() =~= rem0.take(take_count as int).take(j + 1));
            }
            j += 1;
        }
        proof {
            assert(batch.deep_view() =~= rem0.take(take_count as int));
        }
        proof {
            lemma_collatable_skip(rem0, take_count as int, self.spec_batch_size(), self.collate_fn);
        }
        if take_count < self.batch_size && self.drop_last {
            return None;
        }
        if self.shuffle {
            let ghost batch_models = batch.deep_view();
            shuffle_in_place(&mut batch);
            proof {
                assert forall|i: int|
                    0 <= i < batch.deep_view().len() implies rem0.contains(
                    #[trigger] batch.deep_view()[i],
                ) by {
                    broadcast use vstd::seq_lib::group_to_multiset_ensures;

                    assert(batch.deep_view().to_multiset().count(batch.deep_view()[i]) > 0);
                    assert(batch_models.contains(batch.deep_view()[i]));
                    let w = choose|w: int|
                        0 <= w < batch_models.len() && batch_models[w] == batch.deep_view()[i];
                    assert(rem0[w] == batch_models[w]);
                }
                broadcast use vstd::seq_lib::group_to_multiset_ensures;

                assert(batch.deep_view().to_multiset().len() == batch.deep_view().len());
                assert(batch_models.to_multiset().len() == batch_models.len());
            }
            let out = self.collate_fn.collate(batch);
            let r = Some(out);
            proof {
                let w = if rem0.len() >= self.spec_batch_size() {
                    rem0.take(self.spec_batch_size() as int)
                } else {
                    rem0
                };
                assert(w =~= batch_models);
                assert(r->0.deep_view() == out.deep_view());
                assert(batch.deep_view().to_multiset() == w.to_multiset());
                assert(step_yield(
                    old(self).spec_collate(),
                    rem0,
                    old(self).spec_batch_size(),
                    old(self).spec_drop_last(),
                    old(self).spec_shuffle(),
                    r,
                    r->0.deep_view(),
                ));
            }
            r
        } else {
            proof {
                assert forall|i: int|
                    0 <= i < batch.deep_view().len() implies rem0.contains(
                    #[trigger] batch.deep_view()[i],
                ) by {
                    assert(batch.deep_view()[i] == rem0[i]);
                }
            }
            let out = self.collate_fn.collate(batch);
            let r = Some(out);
            proof {
                let w = if rem0.len() >= self.spec_batch_size() {
                    rem0.take(self.spec_batch_size() as int)
                } else {
                    rem0
                };
                assert(w =~= rem0.take(take_count as int));
                assert(r->0.deep_view() == out.deep_view());
                assert(step_yield(
                    old(self).spec_collate(),
                    rem0,
                    old(self).spec_batch_size(),
                    old(self).spec_drop_last(),
                    old(self).spec_shuffle(),
                    r,
                    r->0.deep_view(),
                ));
            }
            r
        }
    }
}

/// Iterator returned by the `iter` function: walks the borrowed dataset,
/// copying each batch's samples.
pub struct Iter<'dataset, T, C> {
    /// The underlying dataset.
    dataset: &'dataset Vec<T>,
    /// How many samples have been consumed.
    pos: usize,
    /// The number of samples a batch will contain.
    batch_size: usize,
    /// If `true`, a final batch smaller than `batch_size` is dropped.
    drop_last: bool,
    /// Collate function.
    collate_fn: &'dataset C,
    /// If `true` the samples within each batch are shuffled.
    shuffle: bool,
}

impl<'dataset, T: DeepView + CloneSample, C: Collate<T>> Iter<'dataset, T, C> {
    /// The models of the not yet consumed samples.
    pub closed spec fn spec_remaining(&self) -> Seq<T::V> {
        self.dataset.deep_view().skip(self.pos as int)
    }

    /// The configured batch size.
    pub closed spec fn spec_batch_size(&self) -> nat {
        self.batch_size as nat
    }

    /// Whether an incomplete final batch is dropped.
    pub closed spec fn spec_drop_last(&self) -> bool {
        self.drop_last
    }

    /// Whether samples are shuffled within each batch.
    pub closed spec fn spec_shuffle(&self) -> bool {
        self.shuffle
    }

    /// The collate capability.
    pub closed spec fn spec_collate(&self) -> C {
        *self.collate_fn
    }

    /// The iterator's invariant.
    pub closed spec fn wf(&self) -> bool {
        &&& self.batch_size >= 1
        &&& self.pos <= self.dataset.deep_view().len()
        &&& all_draws_collatable(
            self.dataset.deep_view(),
            self.spec_batch_size(),
            self.spec_collate(),
        )
    }

    /// Yield the collate of a copy of the next batch of samples, or
    /// `None` once the samples are out or a final partial batch is
    /// dropped.
    #[verifier::loop_isolation(false)]
    pub fn next(&mut self) -> (r: Option<C::Output>)
        requires
            old(self).wf(),
        ensures
            final(self).wf(),
            final(self).spec_batch_size() == old(self).spec_batch_size(),
            final(self).spec_drop_last() == old(self).spec_drop_last(),
            final(self).spec_shuffle() == old(self).spec_shuffle(),
            final(self).spec_collate() == old(self).spec_collate(),
            final(self).spec_remaining() == old(self).spec_remaining().skip(
                vstd::math::min(
                    old(self).spec_remaining().len() as int,
                    old(self).spec_batch_size() as int,
                ),
            ),
            r is Some ==> exists|m: <C::Output as DeepView>::V|
                (#[trigger] r->0.deep_view()) == m && step_yield(
                    old(self).spec_collate(),
                    old(self).spec_remaining(),
                    old(self).spec_batch_size(),
                    old(self).spec_drop_last(),
                    old(self).spec_shuffle(),
                    r,
                    m,
                ),
            r is None ==> step_yield(
                old(self).spec_collate(),
                old(self).spec_remaining(),
                old(self).spec_batch_size(),
                old(self).spec_drop_last(),
                old(self).spec_shuffle(),
                r,
                vstd::prelude::arbitrary(),
            ),
    {
        let ghost rem0 = self.spec_remaining();
        let ghost all = self.dataset.deep_view();
        let len = self.dataset.len();
        if self.pos >= len {
            proof {
                assert(rem0.skip(0) =~= rem0);
            }
            return None;
        }
        let left = len - self.pos;
        let take_count = if left >= self.batch_size {
            self.batch_size
        } else {
            left
        };
        let mut batch: Vec<T> = Vec::with_capacity(take_count);
        let mut j: usize = 0;
        while j < take_count
            invariant
                j <= take_count,
                batch@.len() == j,
                batch.deep_view() =~= rem0.take(take_count as int).take(j as int),
            decreases take_count - j,
        {
            let ghost batch_before = batch.deep_view();
            let x = self.dataset[self.pos + j].clone_sample();
            batch.push(x);
            proof {
                assert(x.deep_view() == rem0[j as int]);
                assert(batch.deep_view() =~= batch_before.push(x.deep_view()));
                assert(batch.deep_view() =~= rem0.take(take_count as int).take(j + 1));
            }
            j += 1;
        }
        proof {
            assert(batch.deep_view() =~= rem0.take(take_count as int));
        }
        self.pos = self.pos + take_count;
        proof {
            assert(self.spec_remaining() =~= rem0.skip(take_count as int));
        }
        if take_count < self.batch_size && self.drop_last {
            return None;
        }
        let ghost batch_models = batch.deep_view();
        proof {
            assert forall|i: int|
                0 <= i < batch_models.len() implies all.contains(#[trigger] batch_models[i]) by {
                assert(batch_models[i] == all[old(self).pos + i]);
            }
        }
        if self.shuffle {
            shuffle_in_place(&mut batch);
            proof {
                assert forall|i: int|
                    0 <= i < batch.deep_view().len() implies all.contains(
                    #[trigger] batch.deep_view()[i],
                ) by {
                    broadcast use vstd::seq_lib::group_to_multiset_ensures;

                    assert(batch.deep_view().to_multiset().count(batch.deep_view()[i]) > 0);
                    assert(batch_models.contains(batch.deep_view()[i]));
                }
                broadcast use vstd::seq_lib::group_to_multiset_ensures;

                assert(batch.deep_view().to_multiset().len() == batch.deep_view().len());
                assert(batch_models.to_multiset().len() == batch_models.len());
            }
            let out = self.collate_fn.collate(batch);
            let r = Some(out);
            proof {
                let w = if rem0.len() >= self.spec_batch_size() {
                    rem0.take(self.spec_batch_size() as int)
                } else {
                    rem0
                };
                assert(w =~= batch_models);
                assert(r->0.deep_view() == out.deep_view());
                assert(batch.deep_view().to_multiset() == w.to_multiset());
                assert(step_yield(
                    old(self).spec_collate(),
                    rem0,
                    old(self).spec_batch_size(),
                    old(self).spec_drop_last(),
                    old(self).spec_shuffle(),
                    r,
                    r->0.deep_view(),
                ));
            }
            r
        } else {
            let out = self.collate_fn.collate(batch);
            let r = Some(out);
            proof {
                let w = if rem0.len() >= self.spec_batch_size() {
                    rem0.take(self.spec_batch_size() as int)
                } else {
                    rem0
                };
                assert(w =~= batch_models);
                assert(r->0.deep_view() == out.deep_view());
                assert(step_yield(
                    old(self).spec_collate(),
                    rem0,
                    old(self).spec_batch_size(),
                    old(self).spec_drop_last(),
                    old(self).spec_shuffle(),
                    r,
                    r->0.deep_view(),
                ));
            }
            r
        }
    }
}

/// Builder for creating an iterable [`DataLoader`].
pub struct Builder<T, C = DefaultCollate> {
    /// The dataset from which the loader will yield the data.
    dataset: Vec<T>,
    /// The number of samples a batch will contain.
    batch_size: usize,
    /// If `true`, a final batch smaller than `batch_size` is dropped.
    drop_last: bool,
    /// Used to collate the data together.
    collate_fn: C,
    /// If `true` the samples within each batch are shuffled.
    shuffle: bool,
}

impl<T: DeepView, C> Builder<T, C> {
    /// The models of the samples, in arrival order.
    pub closed spec fn spec_samples(&self) -> Seq<T::V> {
        self.dataset.deep_view()
    }

    /// The configured batch size.
    pub closed spec fn spec_batch_size(&self) -> nat {
        self.batch_size as nat
    }

    /// Whether an incomplete final batch is dropped.
    pub closed spec fn spec_drop_last(&self) -> bool {
        self.drop_last
    }

    /// Whether samples are shuffled within each batch.
    pub closed spec fn spec_shuffle(&self) -> bool {
        self.shuffle
    }

    /// The collate capability.
    pub closed spec fn spec_collate(&self) -> C {
        self.collate_fn
    }
}

impl<T: DeepView> Builder<T, DefaultCollate> {
    /// Create a new [`Builder`] with default settings: batch size one,
    /// nothing dropped, no shuffling, default collate.
    pub fn new(dataset: Vec<T>) -> (b: Self)
        ensures
            b.spec_samples() == dataset.deep_view(),
            b.spec_batch_size() == 1,
            !b.spec_drop_last(),
            !b.spec_shuffle(),
            b.spec_collate() == DefaultCollate,
    {
        Builder {
            dataset,
            batch_size: 1,
            drop_last: false,
            collate_fn: DefaultCollate,
            shuffle: false,
        }
    }
}

impl<T: DeepView, C> Builder<T, C> {
    /// Shuffle the samples within each batch.
    pub fn shuffle(self) -> (b: Builder<T, C>)
        ensures
            b.spec_samples() == self.spec_samples(),
            b.spec_batch_size() == self.spec_batch_size(),
            b.spec_drop_last() == self.spec_drop_last(),
            b.spec_shuffle(),
            b.spec_collate() == self.spec_collate(),
    {
        Builder { shuffle: true, ..self }
    }

    /// Set the number of samples in a batch; a batch size of zero is
    /// coerced to one.
    pub fn batch_size(self, batch_size: usize) -> (b: Self)
        ensures
            b.spec_samples() == self.spec_samples(),
            b.spec_batch_size() == if batch_size >= 1 {
                batch_size as nat
            } else {
                1nat
            },
            b.spec_drop_last() == self.spec_drop_last(),
            b.spec_shuffle() == self.spec_shuffle(),
            b.spec_collate() == self.spec_collate(),
    {
        let coerced = if batch_size >= 1 {
            batch_size
        } else {
            1
        };
        Builder { batch_size: coerced, ..self }
    }

    /// Drop the last samples if they do not fill a whole batch.
    pub fn drop_last(self) -> (b: Self)
        ensures
            b.spec_samples() == self.spec_samples(),
            b.spec_batch_size() == self.spec_batch_size(),
            b.spec_drop_last(),
            b.spec_shuffle() == self.spec_shuffle(),
            b.spec_collate() == self.spec_collate(),
    {
        Builder { drop_last: true, ..self }
    }

    /// Set a custom collate function.
    pub fn collate_fn<CF>(self, collate_fn: CF) -> (b: Builder<T, CF>)
        ensures
            b.spec_samples() == self.spec_samples(),
            b.spec_batch_size() == self.spec_batch_size(),
            b.spec_drop_last() == self.spec_drop_last(),
            b.spec_shuffle() == self.spec_shuffle(),
            b.spec_collate() == collate_fn,
    {
        Builder {
            dataset: self.dataset,
            batch_size: self.batch_size,
            drop_last: self.drop_last,
            collate_fn,
            shuffle: self.shuffle,
        }
    }

    /// Create a [`DataLoader`] from this [`Builder`].
    pub fn build(self) -> (loader: DataLoader<T, C>) where T: DeepView, C: Collate<T>
        ensures
            loader.spec_samples() == self.spec_samples(),
            loader.spec_batch_size() == self.spec_batch_size(),
            loader.spec_drop_last() == self.spec_drop_last(),
            loader.spec_shuffle() == self.spec_shuffle(),
            loader.spec_collate() == self.spec_collate(),
    {
        DataLoader {
            dataset: self.dataset,
            batch_size: self.batch_size,
            drop_last: self.drop_last,
            collate_fn: self.collate_fn,
            shuffle: self.shuffle,
        }
    }
}


/// With well-formed samples all shaped like the first one — what
/// [`crate::collate::batch_mergeable`] checks of the whole sample list —
/// every draw this loader can form meets the default collate's
/// precondition.
pub proof fn lemma_uniform_draws_collatable<T: DeepView>(
    samples: Seq<crate::collate::ValueView<T::V>>,
    batch_size: nat,
)
    requires
        samples.len() > 0,
        crate::collate::mergeable(samples),
    ensures
        all_draws_collatable::<crate::collate::Value<T>, DefaultCollate>(
            samples,
            batch_size,
            DefaultCollate,
        ),
{
    assert forall|p: int, q: int|
        0 <= p < samples.len() && 0 <= q < samples.len() implies crate::collate::same_shape(
        #[trigger] samples[p],
        #[trigger] samples[q],
    ) by {
        assert(crate::collate::well_formed(samples[0]));
        assert(crate::collate::well_formed(samples[p]));
        assert(crate::collate::same_shape(samples[0], samples[p]));
        assert(crate::collate::same_shape(samples[0], samples[q]));
        crate::collate::lemma_same_shape_sym(samples[0], samples[p]);
        crate::collate::lemma_same_shape_trans(samples[p], samples[0], samples[q]);
    }
    let c = DefaultCollate;
    assert forall|b: Seq<crate::collate::ValueView<T::V>>|
        (1 <= b.len() <= batch_size && (forall|i: int|
            0 <= i < b.len() ==> samples.contains(#[trigger] b[i]))) implies #[trigger] <
    DefaultCollate as Collate<crate::collate::Value<T>>>::collate_pre(&c, b) by {
        assert forall|i: int|
            0 <= i < b.len() implies crate::collate::well_formed(#[trigger] b[i]) by {
            let w = choose|w: int| 0 <= w < samples.len() && samples[w] == b[i];
            assert(crate::collate::well_formed(samples[w]));
        }
        assert forall|i: int|
            0 <= i < b.len() implies crate::collate::same_shape(b[0], #[trigger] b[i]) by {
            let w0 = choose|w: int| 0 <= w < samples.len() && samples[w] == b[0];
            let wi = choose|w: int| 0 <= w < samples.len() && samples[w] == b[i];
            assert(crate::collate::same_shape(samples[w0], samples[wi]));
        }
    }
}


impl<M: DeepView> DataLoader<crate::collate::Value<M>, DefaultCollate> {
    /// Iterate after checking, consuming the dataset: hands out the
    /// iterator exactly when the batch size is positive and the samples
    /// are checked to merge — every sample well-formed and shaped like
    /// the first, or no sample at all. On any other loader the loader
    /// itself comes back unchanged.
    pub fn try_into_iter(self) -> (r: Result<
        IntoIter<crate::collate::Value<M>, DefaultCollate>,
        Self,
    >)
        ensures
            r is Ok <==> {
                &&& self.spec_batch_size() >= 1
                &&& (self.spec_samples().len() == 0 || crate::collate::mergeable(
                    self.spec_samples(),
                ))
            },
            r matches Ok(it) ==> {
                &&& it.wf()
                &&& it.spec_remaining() == self.spec_samples()
                &&& it.spec_batch_size() == self.spec_batch_size()
                &&& it.spec_drop_last() == self.spec_drop_last()
                &&& it.spec_shuffle() == self.spec_shuffle()
            },
            r matches Err(loader) ==> loader == self,
    {
        let ghost samples = self.spec_samples();
        proof {
            assert(samples =~= crate::collate::value_views(self.dataset@));
        }
        if self.batch_size < 1 {
            return Err(self);
        }
        if self.dataset.len() == 0 {
            proof {
                assert forall|b: Seq<crate::collate::ValueView<M::V>>|
                    (1 <= b.len() <= self.spec_batch_size() && (forall|i: int|
                        0 <= i < b.len() ==> samples.contains(#[trigger] b[i]))) implies #[trigger] <
                DefaultCollate as Collate<crate::collate::Value<M>>>::collate_pre(
                    &DefaultCollate,
                    b,
                ) by {
                    assert(samples.contains(b[0]));
                    let w = choose|w: int| 0 <= w < samples.len() && samples[w] == b[0];
                    assert(false);
                }
            }
            return Ok(self.into_iter());
        }
        if crate::collate::batch_mergeable(&self.dataset) {
            proof {
                lemma_uniform_draws_collatable::<M>(samples, self.spec_batch_size());
            }
            Ok(self.into_iter())
        } else {
            Err(self)
        }
    }
}

} // verus!
