//! A batch-loading pipeline for training loops: samplers that order dataset
//! indices, a batch sampler that groups them, a structural collate algorithm
//! that merges samples into batches, and a data loader that ties them together.
use vstd::prelude::*;

pub mod collate;
pub mod dataset;
pub mod fetch;
pub mod indexable;
pub mod iterable;
pub mod prefetch;
pub mod sampler;

pub use collate::{BatchValue, MapKey, Value};
pub use dataset::{CloneSample, Dataset, GetItem, GetSample, Len, NdarrayDataset};
pub use sampler::{
    BatchIterator, BatchSampler, DefaultSampler, RandomSampler, RandomSamplerIter, Sampler,
    SequentialSampler,
};

verus! {

} // verus!
