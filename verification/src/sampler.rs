//! Defines the strategy to draw sample indices from the dataset: the order
//! of one full pass, and the grouping of indices into batches.
use vstd::prelude::*;
use vstd::seq_lib::group_to_multiset_ensures;

use rand::seq::SliceRandom;

use crate::dataset::Len;

verus! {

/// The identity index sequence `0, 1, ..., n - 1`.
pub open spec fn sequential_indices(n: nat) -> Seq<usize> {
    Seq::new(n, |i: int| i as usize)
}

/// A full pass of some sampler holds each index below `n` exactly once.
pub open spec fn is_permutation_of(v: Seq<usize>, n: nat) -> bool {
    v.to_multiset() == sequential_indices(n).to_multiset()
}

/// Every sampler has a length and can produce one full pass of indices:
/// each index below the length, each exactly once.
pub trait Sampler: Len + Copy + Sized {
    /// The passes this sampler can draw: its order strategy. The
    /// sequential sampler admits only the identity pass; the random
    /// sampler admits every permutation.
    spec fn spec_possible_pass(&self, pass: Seq<usize>) -> bool;

    /// Create a new sampler from the dataset length.
    fn new(data_source_len: usize) -> (s: Self)
        ensures
            s.spec_len() == data_source_len,
    ;

    /// Produce one full pass of sample indices: a permutation of
    /// `0..self.len()`, drawn by this sampler's order strategy. Two calls
    /// may order the pass differently.
    fn indices(&self) -> (v: Vec<usize>)
        ensures
            v@.len() == self.spec_len(),
            is_permutation_of(v@, self.spec_len()),
            self.spec_possible_pass(v@),
    ;
}

/// A permutation of `0..n` only holds indices below `n`.
pub broadcast proof fn lemma_permutation_in_range(v: Seq<usize>, n: nat)
    requires
        #[trigger] is_permutation_of(v, n),
    ensures
        forall|i: int| 0 <= i < v.len() ==> #[trigger] v[i] < n,
{
    broadcast use group_to_multiset_ensures;

    assert forall|i: int| 0 <= i < v.len() implies #[trigger] v[i] < n by {
        assert(v.to_multiset().count(v[i]) > 0);
        assert(sequential_indices(n).to_multiset().count(v[i]) > 0);
        assert(sequential_indices(n).contains(v[i]));
        let j = choose|j: int| 0 <= j < n && sequential_indices(n)[j] == v[i];
        assert(sequential_indices(n)[j] == j as usize);
    }
}

/// Yields indices from zero to `data_source_len`, in ascending order.
#[derive(Debug, Clone, Copy, PartialEq, Eq, Hash, Structural)]
pub struct SequentialSampler {
    /// The length of the dataset that will be sampled.
    pub data_source_len: usize,
}

impl Len for SequentialSampler {
    open spec fn spec_len(&self) -> nat {
        self.data_source_len as nat
    }

    fn len(&self) -> (r: usize) {
        self.data_source_len
    }

    fn is_empty(&self) -> (r: bool) {
        self.data_source_len == 0
    }
}

impl Sampler for SequentialSampler {
    /// The sequential sampler is stateless: every pass is the identity.
    open spec fn spec_possible_pass(&self, pass: Seq<usize>) -> bool {
        pass == sequential_indices(self.spec_len())
    }

    fn new(data_source_len: usize) -> (s: Self) {
        SequentialSampler { data_source_len }
    }

    /// Yields `0, 1, ..., data_source_len - 1`: strictly increasing, with
    /// no gap and no repeat.
    fn indices(&self) -> (v: Vec<usize>)
        ensures
            v@ == sequential_indices(self.spec_len()),
            forall|i: int| 0 <= i < v@.len() ==> #[trigger] v@[i] == i,
    {
        let n = self.data_source_len;
        let mut v: Vec<usize> = Vec::new();
        let mut idx: usize = 0;
        while idx < n
            invariant
                idx <= n,
                v@.len() == idx,
                forall|i: int| 0 <= i < idx ==> #[trigger] v@[i] == i,
            decreases n - idx,
        {
            v.push(idx);
            idx += 1;
        }
        proof {
            assert(v@ =~= sequential_indices(n as nat));
        }
        v
    }
}

/// Default sampler of the data loaders: the sequential one.
pub type DefaultSampler = SequentialSampler;

/// Relies on rand's `SliceRandom::shuffle` with `thread_rng`: a
/// Fisher-Yates pass of in-place swaps, so the slice afterwards holds
/// exactly the elements it held before, in some order; their models are
/// then also the same, in that order.
#[verifier::external_body]
pub(crate) fn shuffle_in_place<T: DeepView>(v: &mut Vec<T>)
    ensures
        final(v)@.to_multiset() == old(v)@.to_multiset(),
        final(v).deep_view().to_multiset() == old(v).deep_view().to_multiset(),
{
    v.shuffle(&mut rand::thread_rng());
}

/// Yields the indices from zero to `data_source_len` in a fresh uniformly
/// random order on every pass.
#[derive(Debug, Clone, Copy, PartialEq, Eq, Hash, Structural)]
pub struct RandomSampler {
    /// The length of the data source.
    data_source_len: usize,
    /// Whether an index may be drawn twice in one pass. Drawing with
    /// replacement is an extension point, not implemented: it is always
    /// `false`, and each index appears exactly once per pass.
    replacement: bool,
}

impl Len for RandomSampler {
    closed spec fn spec_len(&self) -> nat {
        self.data_source_len as nat
    }

    fn len(&self) -> (r: usize) {
        self.data_source_len
    }

    fn is_empty(&self) -> (r: bool) {
        self.data_source_len == 0
    }
}

impl Sampler for RandomSampler {
    /// The random sampler may draw any permutation of the index range.
    open spec fn spec_possible_pass(&self, pass: Seq<usize>) -> bool {
        is_permutation_of(pass, self.spec_len())
    }

    fn new(data_source_len: usize) -> (s: Self) {
        RandomSampler { data_source_len, replacement: false }
    }

    /// Draws one uniformly random permutation of `0..data_source_len`;
    /// a second call draws an independent one.
    fn indices(&self) -> (v: Vec<usize>) {
        let seq = SequentialSampler { data_source_len: self.data_source_len };
        let mut v = seq.indices();
        let ghost before = v@;
        shuffle_in_place(&mut v);
        proof {
            broadcast use group_to_multiset_ensures;

            assert(v@.to_multiset().len() == v@.len());
            assert(before.to_multiset().len() == before.len());
        }
        v
    }
}

/// One pass of a [`RandomSampler`]: a drawn permutation, walked front to
/// back.
#[derive(Debug)]
pub struct RandomSamplerIter {
    /// The length of the data source.
    data_source_len: usize,
    /// A permutation of the dataset's indices.
    indexes: Vec<usize>,
    /// The current position in the permutation.
    idx: usize,
}

impl RandomSamplerIter {
    /// The drawn permutation.
    pub closed spec fn spec_indexes(&self) -> Seq<usize> {
        self.indexes@
    }

    /// The current position in the permutation.
    pub closed spec fn spec_pos(&self) -> int {
        self.idx as int
    }

    /// The iterator's invariant: the position is within bounds and the
    /// stored length is the permutation's.
    pub closed spec fn wf(&self) -> bool {
        self.idx <= self.indexes@.len() && self.data_source_len == self.indexes@.len()
    }

    /// Create a new `RandomSamplerIter` over a freshly drawn permutation.
    fn new(data_source_len: usize) -> (it: RandomSamplerIter)
        ensures
            it.wf(),
            it.spec_pos() == 0,
            it.spec_indexes().len() == data_source_len,
            is_permutation_of(it.spec_indexes(), data_source_len as nat),
    {
        let sampler = RandomSampler { data_source_len, replacement: false };
        let indexes = sampler.indices();
        RandomSamplerIter { data_source_len, indexes, idx: 0 }
    }

    /// Yield the next index of the pass, or `None` once the pass is over.
    pub fn next(&mut self) -> (r: Option<usize>)
        requires
            old(self).wf(),
        ensures
            final(self).wf(),
            final(self).spec_indexes() == old(self).spec_indexes(),
            old(self).spec_pos() < old(self).spec_indexes().len() ==> r == Some(
                old(self).spec_indexes()[old(self).spec_pos()],
            ) && final(self).spec_pos() == old(self).spec_pos() + 1,
            old(self).spec_pos() >= old(self).spec_indexes().len() ==> r == None::<usize>
                && final(self).spec_pos() == old(self).spec_pos(),
    {
        if self.idx < self.data_source_len {
            self.idx += 1;
            Some(self.indexes[self.idx - 1])
        } else {
            None
        }
    }
}

impl RandomSampler {
    /// Return an iterator over one pass of this sampler.
    pub fn iter(&self) -> (it: RandomSamplerIter)
        ensures
            it.wf(),
            it.spec_pos() == 0,
            it.spec_indexes().len() == self.spec_len(),
            is_permutation_of(it.spec_indexes(), self.spec_len()),
    {
        RandomSamplerIter::new(self.data_source_len)
    }
}


/// The grouping of one index pass into batches: full batches of
/// `batch_size` in pass order, then the final partial batch, kept only
/// when it is non-empty and `drop_last` is not set.
pub open spec fn index_batches(s: Seq<usize>, batch_size: nat, drop_last: bool) -> Seq<Seq<usize>>
    decreases s.len(),
        when batch_size > 0
{
    if s.len() >= batch_size {
        seq![s.take(batch_size as int)] + index_batches(
            s.skip(batch_size as int),
            batch_size,
            drop_last,
        )
    } else if s.len() > 0 && !drop_last {
        seq![s]
    } else {
        Seq::empty()
    }
}

/// The number of batches of a pass of `len` indices: `len / batch_size`
/// rounded down with `drop_last`, rounded up without.
pub open spec fn batch_count(len: nat, batch_size: nat, drop_last: bool) -> nat {
    if batch_size == 0 {
        0
    } else if drop_last {
        len / batch_size
    } else {
        ((len as int + batch_size as int - 1) / (batch_size as int)) as nat
    }
}

/// The computed batch count equals the number of batches the grouping
/// actually yields.
pub proof fn lemma_index_batches_count(s: Seq<usize>, batch_size: nat, drop_last: bool)
    requires
        batch_size >= 1,
    ensures
        index_batches(s, batch_size, drop_last).len() == batch_count(s.len(), batch_size, drop_last),
    decreases s.len(),
{
    let bs = batch_size as int;
    let l = s.len() as int;
    if s.len() >= batch_size {
        lemma_index_batches_count(s.skip(bs), batch_size, drop_last);
        if drop_last {
            assert(1 + (l - bs) / bs == (bs + (l - bs)) / bs) by {
                vstd::arithmetic::div_mod::lemma_div_plus_one(l - bs, bs);
            }
        } else {
            assert(1 + (l - bs + bs - 1) / bs == (bs + (l - bs + bs - 1)) / bs) by {
                vstd::arithmetic::div_mod::lemma_div_plus_one(l - bs + bs - 1, bs);
            }
        }
    } else if s.len() > 0 && !drop_last {
        assert((bs * 1 + (l - 1)) / bs == 1) by {
            vstd::arithmetic::div_mod::lemma_div_multiples_vanish_fancy(1, l - 1, bs);
        }
    } else {
        assert((bs * 0 + l) / bs == 0) by {
            vstd::arithmetic::div_mod::lemma_div_multiples_vanish_fancy(0, l, bs);
        }
        if !drop_last {
            assert((bs * 0 + (l + bs - 1 - bs * 0)) / bs == 0) by {
                vstd::arithmetic::div_mod::lemma_div_multiples_vanish_fancy(0, l + bs - 1, bs);
            }
        }
    }
}

/// Batch `k` of the grouping is the pass's window starting at `k` times
/// the batch size, cut off at the end of the pass.
pub proof fn lemma_index_batches_get(s: Seq<usize>, batch_size: nat, drop_last: bool, k: int)
    requires
        batch_size >= 1,
        0 <= k < index_batches(s, batch_size, drop_last).len(),
    ensures
        ({
            let start = k * batch_size;
            let stop = if start + batch_size <= s.len() {
                start + batch_size
            } else {
                s.len() as int
            };
            &&& 0 <= start < stop <= s.len()
            &&& index_batches(s, batch_size, drop_last)[k] == s.subrange(start, stop)
        }),
    decreases k,
{
    let bs = batch_size as int;
    if k == 0 {
        if s.len() >= batch_size {
            assert(s.take(bs) =~= s.subrange(0, bs));
        } else {
            assert(s =~= s.subrange(0, s.len() as int));
        }
    } else {
        assert(s.len() >= batch_size);
        lemma_index_batches_get(s.skip(bs), batch_size, drop_last, k - 1);
        let start0 = (k - 1) * bs;
        let stop0 = if start0 + bs <= s.skip(bs).len() {
            start0 + bs
        } else {
            s.skip(bs).len() as int
        };
        assert(k * bs == (k - 1) * bs + bs) by (nonlinear_arith);
        assert(s.skip(bs).subrange(start0, stop0) =~= s.subrange(start0 + bs, stop0 + bs));
    }
}

/// With `drop_last`, no batch is short; without it, every batch but the
/// last is full, and no batch is empty or longer than the batch size.
pub proof fn lemma_index_batches_sizes(s: Seq<usize>, batch_size: nat, drop_last: bool)
    requires
        batch_size >= 1,
    ensures
        forall|k: int|
            0 <= k < index_batches(s, batch_size, drop_last).len() ==> 0 < (
            #[trigger] index_batches(s, batch_size, drop_last)[k]).len() <= batch_size,
        forall|k: int|
            0 <= k < index_batches(s, batch_size, drop_last).len() - 1 ==> (
            #[trigger] index_batches(s, batch_size, drop_last)[k]).len() == batch_size,
        drop_last ==> forall|k: int|
            0 <= k < index_batches(s, batch_size, drop_last).len() ==> (
            #[trigger] index_batches(s, batch_size, drop_last)[k]).len() == batch_size,
    decreases s.len(),
{
    let bs = batch_size as int;
    let batches = index_batches(s, batch_size, drop_last);
    if s.len() >= batch_size {
        lemma_index_batches_sizes(s.skip(bs), batch_size, drop_last);
        let rest = index_batches(s.skip(bs), batch_size, drop_last);
        assert forall|k: int| 0 <= k < batches.len() implies 0 < (#[trigger] batches[k]).len()
            <= batch_size by {
            if k > 0 {
                assert(batches[k] == rest[k - 1]);
            }
        }
        assert forall|k: int| 0 <= k < batches.len() - 1 implies (#[trigger] batches[k]).len()
            == batch_size by {
            if k > 0 {
                assert(batches[k] == rest[k - 1]);
            }
        }
        if drop_last {
            assert forall|k: int| 0 <= k < batches.len() implies (#[trigger] batches[k]).len()
                == batch_size by {
                if k > 0 {
                    assert(batches[k] == rest[k - 1]);
                }
            }
        }
    }
}

/// Wraps another sampler to yield a mini-batch of indices at a time.
///
/// `sampler` is the base sampler, `batch_size` the number of indices per
/// batch, and `drop_last` suppresses a final batch shorter than
/// `batch_size`.
#[derive(Debug, Clone, Copy, PartialEq, Eq, Hash, Structural)]
pub struct BatchSampler<S = SequentialSampler> {
    /// Base sampler.
    pub sampler: S,
    /// Size of one mini-batch.
    pub batch_size: usize,
    /// If `true`, the sampler will drop the last batch if its size would
    /// be less than `batch_size`.
    pub drop_last: bool,
}

impl<S: Sampler> Len for BatchSampler<S> {
    /// The number of batches of one pass; an incomplete final batch counts
    /// unless `drop_last` is set. A batch size of zero lies outside the
    /// configured domain; since verified code may not abort, the count is
    /// defined as zero there, and `iter` refuses such a sampler.
    open spec fn spec_len(&self) -> nat {
        batch_count(self.sampler.spec_len(), self.batch_size as nat, self.drop_last)
    }

    fn len(&self) -> (r: usize) {
        let l = self.sampler.len();
        if self.batch_size == 0 {
            0
        } else if self.drop_last {
            l / self.batch_size
        } else if l == 0 {
            proof {
                let bs = self.batch_size as int;
                assert((bs * 0 + (bs - 1)) / bs == 0) by {
                    vstd::arithmetic::div_mod::lemma_div_multiples_vanish_fancy(0, bs - 1, bs);
                }
            }
            0
        } else {
            proof {
                let bs = self.batch_size as int;
                assert(1 + (l - 1) / bs == (bs + (l - 1)) / bs) by {
                    vstd::arithmetic::div_mod::lemma_div_plus_one(l - 1, bs);
                }
                assert((l - 1) / bs <= l - 1) by {
                    vstd::arithmetic::div_mod::lemma_div_nonincreasing(l - 1, bs);
                }
            }
            1 + (l - 1) / self.batch_size
        }
    }

    fn is_empty(&self) -> (r: bool) {
        self.len() == 0
    }
}

/// An iterator over a [`BatchSampler`]: one drawn pass of the base
/// sampler, grouped into batches and yielded front to back.
pub struct BatchIterator {
    /// The drawn pass of the base sampler.
    indices: Vec<usize>,
    /// The size of one batch.
    batch_size: usize,
    /// Whether to drop an incomplete final batch.
    drop_last: bool,
    /// How many indices have been consumed.
    pos: usize,
    /// How many batches have been yielded.
    emitted: Ghost<int>,
}

impl BatchIterator {
    /// The drawn pass of the base sampler.
    pub closed spec fn spec_indices(&self) -> Seq<usize> {
        self.indices@
    }

    /// The size of one batch.
    pub closed spec fn spec_batch_size(&self) -> nat {
        self.batch_size as nat
    }

    /// Whether an incomplete final batch is dropped.
    pub closed spec fn spec_drop_last(&self) -> bool {
        self.drop_last
    }

    /// How many batches have been yielded so far.
    pub closed spec fn spec_emitted(&self) -> int {
        self.emitted@
    }

    /// The batches this iterator yields, in order.
    pub open spec fn spec_batches(&self) -> Seq<Seq<usize>> {
        index_batches(self.spec_indices(), self.spec_batch_size(), self.spec_drop_last())
    }

    /// The iterator's invariant.
    pub closed spec fn wf(&self) -> bool {
        &&& self.batch_size >= 1
        &&& self.pos <= self.indices@.len()
        &&& 0 <= self.emitted@ <= self.spec_batches().len()
        &&& if self.pos < self.indices@.len() {
            self.pos == self.emitted@ * self.batch_size
        } else {
            self.emitted@ == self.spec_batches().len()
        }
    }

    /// Yield the next index batch: batch `spec_emitted()` of
    /// `spec_batches()`, or `None` once all batches are out.
    #[verifier::loop_isolation(false)]
    pub fn next(&mut self) -> (r: Option<Vec<usize>>)
        requires
            old(self).wf(),
        ensures
            final(self).wf(),
            final(self).spec_indices() == old(self).spec_indices(),
            final(self).spec_batch_size() == old(self).spec_batch_size(),
            final(self).spec_drop_last() == old(self).spec_drop_last(),
            old(self).spec_emitted() < old(self).spec_batches().len() ==> {
                &&& r matches Some(b) && b@ == old(self).spec_batches()[old(self).spec_emitted()]
                &&& final(self).spec_emitted() == old(self).spec_emitted() + 1
            },
            old(self).spec_emitted() >= old(self).spec_batches().len() ==> r == None::<Vec<usize>>
                && final(self).spec_emitted() == old(self).spec_emitted(),
    {
        proof {
            lemma_index_batches_count(self.indices@, self.batch_size as nat, self.drop_last);
        }
        let len = self.indices.len();
        let bs = self.batch_size;
        if self.pos >= len {
            return None;
        }
        let ghost k = self.emitted@;
        let ghost l = len as int;
        let ghost bsi = bs as int;
        let ghost count = self.spec_batches().len() as int;
        let remaining = len - self.pos;
        if remaining >= bs {
            proof {
                // The next window is full, so batch `k` exists and is full.
                assert(bsi * (k + 1) <= l) by (nonlinear_arith)
                    requires
                        self.pos == k * bsi,
                        remaining == l - self.pos,
                        remaining >= bsi,
                ;
                assert((bsi * (k + 1)) / bsi == k + 1) by {
                    vstd::arithmetic::div_mod::lemma_div_multiples_vanish_fancy(k + 1, 0, bsi);
                }
                vstd::arithmetic::div_mod::lemma_div_is_ordered(bsi * (k + 1), l, bsi);
                assert(k + 1 <= l / bsi);
                if self.drop_last {
                    assert(count == l / bsi);
                } else {
                    assert(count == (l + bsi - 1) / bsi);
                    vstd::arithmetic::div_mod::lemma_div_is_ordered(l, l + bsi - 1, bsi);
                }
                assert(k < count);
                lemma_index_batches_get(self.indices@, self.batch_size as nat, self.drop_last, k);
            }
            let mut batch: Vec<usize> = Vec::with_capacity(bs);
            let mut j: usize = 0;
            while j < bs
                invariant
                    j <= bs,
                    self.pos + bs <= self.indices@.len(),
                    batch@.len() == j,
                    forall|i: int|
                        0 <= i < j ==> #[trigger] batch@[i] == self.indices@[self.pos + i],
                decreases bs - j,
            {
                batch.push(self.indices[self.pos + j]);
                j += 1;
            }
            proof {
                assert(batch@ =~= self.indices@.subrange(
                    self.pos as int,
                    self.pos as int + bsi,
                ));
            }
            self.pos += bs;
            proof {
                self.emitted@ = k + 1;
                if self.pos < len {
                    assert(self.pos == (k + 1) * bsi) by (nonlinear_arith)
                        requires
                            self.pos == k * bsi + bsi,
                    ;
                } else {
                    // The pass ended exactly at a batch boundary.
                    assert(l == bsi * (k + 1)) by (nonlinear_arith)
                        requires
                            self.pos == k * bsi + bsi,
                            self.pos == l,
                    ;
                    if self.drop_last {
                        assert((bsi * (k + 1) + 0) / bsi == k + 1) by {
                            vstd::arithmetic::div_mod::lemma_div_multiples_vanish_fancy(
                                k + 1,
                                0,
                                bsi,
                            );
                        }
                    } else {
                        assert((bsi * (k + 1) + (bsi - 1)) / bsi == k + 1) by {
                            vstd::arithmetic::div_mod::lemma_div_multiples_vanish_fancy(
                                k + 1,
                                bsi - 1,
                                bsi,
                            );
                        }
                    }
                }
            }
            Some(batch)
        } else if !self.drop_last {
            proof {
                // A non-empty final partial batch: it is the last batch.
                assert(count == (l + bsi - 1) / bsi);
                assert(count == k + 1) by {
                    assert((bsi * (k + 1) + (remaining as int - 1)) / bsi == k + 1) by {
                        vstd::arithmetic::div_mod::lemma_div_multiples_vanish_fancy(
                            k + 1,
                            remaining as int - 1,
                            bsi,
                        );
                    }
                    assert(bsi * (k + 1) + (remaining as int - 1) == l + bsi - 1)
                        by (nonlinear_arith)
                        requires
                            self.pos == k * bsi,
                            remaining == l - self.pos,
                    ;
                }
                lemma_index_batches_get(self.indices@, self.batch_size as nat, self.drop_last, k);
            }
            let mut batch: Vec<usize> = Vec::with_capacity(remaining);
            let mut j: usize = 0;
            while j < remaining
                invariant
                    j <= remaining,
                    remaining == self.indices@.len() - self.pos,
                    batch@.len() == j,
                    forall|i: int|
                        0 <= i < j ==> #[trigger] batch@[i] == self.indices@[self.pos + i],
                decreases remaining - j,
            {
                batch.push(self.indices[self.pos + j]);
                j += 1;
            }
            proof {
                assert(batch@ =~= self.indices@.subrange(self.pos as int, l));
            }
            self.pos = len;
            proof {
                self.emitted@ = k + 1;
            }
            Some(batch)
        } else {
            proof {
                // The remaining indices cannot fill a batch and are dropped.
                assert(count == l / bsi);
                assert(count == k) by {
                    assert((bsi * k + remaining as int) / bsi == k) by {
                        vstd::arithmetic::div_mod::lemma_div_multiples_vanish_fancy(
                            k,
                            remaining as int,
                            bsi,
                        );
                    }
                    assert(bsi * k + remaining as int == l) by (nonlinear_arith)
                        requires
                            self.pos == k * bsi,
                            remaining == l - self.pos,
                    ;
                }
            }
            self.pos = len;
            None
        }
    }
}

impl<S: Sampler> BatchSampler<S> {
    /// Return an iterator over the [`BatchSampler`]: it draws one pass of
    /// the base sampler and yields its grouping into batches.
    pub fn iter(&self) -> (it: BatchIterator)
        requires
            self.batch_size >= 1,
        ensures
            it.wf(),
            it.spec_emitted() == 0,
            it.spec_batch_size() == self.batch_size,
            it.spec_drop_last() == self.drop_last,
            it.spec_indices().len() == self.sampler.spec_len(),
            is_permutation_of(it.spec_indices(), self.sampler.spec_len()),
            self.sampler.spec_possible_pass(it.spec_indices()),
            it.spec_batches().len() == self.spec_len(),
    {
        let indices = self.sampler.indices();
        let it = BatchIterator {
            indices,
            batch_size: self.batch_size,
            drop_last: self.drop_last,
            pos: 0,
            emitted: Ghost(0),
        };
        proof {
            lemma_index_batches_count(it.indices@, self.batch_size as nat, self.drop_last);
        }
        it
    }
}

} // verus!
