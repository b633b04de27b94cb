//! Tests of the samplers and the batch sampler.
use ai_dataloader::{BatchSampler, Len, RandomSampler, Sampler, SequentialSampler};

#[test]
fn sequential_sampler() {
    let dataset = vec![1, 2, 3];
    let sampler = SequentialSampler {
        data_source_len: dataset.len(),
    };
    let indices = sampler.indices();
    let mut iter = indices.iter();
    assert_eq!(iter.next(), Some(&0));
    assert_eq!(iter.next(), Some(&1));
    assert_eq!(iter.next(), Some(&2));
    assert_eq!(iter.next(), None);
}

#[test]
fn random_sampler_random_sampler() {
    let random_sampler = RandomSampler::new(10);
    for idx in random_sampler.indices() {
        println!("{idx}");
    }
}

#[test]
fn test_random_sampler() {}

#[test]
fn random_sampler_is_permutation() {
    // One pass of the random sampler holds each index exactly once.
    let sampler = RandomSampler::new(100);
    let mut pass = sampler.indices();
    assert_eq!(pass.len(), 100);
    pass.sort();
    let expected: Vec<usize> = (0..100).collect();
    assert_eq!(pass, expected);
}

#[test]
fn random_sampler_iter_walks_a_permutation() {
    let sampler = RandomSampler::new(10);
    let mut iter = sampler.iter();
    let mut seen = Vec::new();
    while let Some(idx) = iter.next() {
        seen.push(idx);
    }
    seen.sort();
    let expected: Vec<usize> = (0..10).collect();
    assert_eq!(seen, expected);
}

#[test]
fn random_two_passes_differ() {
    // Two fresh passes over the same sampler are, with overwhelming
    // probability, differently ordered.
    let sampler = RandomSampler::new(64);
    let first = sampler.indices();
    let second = sampler.indices();
    assert_ne!(first, second);
}

#[test]
fn batch_sampler_basics() {
    let dataset = vec![1, 2, 3, 4, 5, 6, 7, 8, 9, 10];
    let batch_sampler = BatchSampler {
        sampler: SequentialSampler {
            data_source_len: dataset.len(),
        },
        batch_size: 3,
        drop_last: false,
    };
    let mut iter = batch_sampler.iter();
    let mut i = 0;
    while let Some(batch_indices) = iter.next() {
        println!("Batch #{} indices: {:?}", i, batch_indices);
        i += 1;
    }
    let mut iter = batch_sampler.iter();
    assert_eq!(iter.next(), Some(vec![0, 1, 2]));
    assert_eq!(iter.next(), Some(vec![3, 4, 5]));
    assert_eq!(iter.next(), Some(vec![6, 7, 8]));
}

#[test]
fn batch_sampler_batch_sampler() {
    let mut batches = Vec::new();
    for i in (0..20).step_by(5) {
        batches.push([i..i + 2]);
        batches.push([i + 2..i + 5]);
    }
}

#[test]
fn batch_sampler_len() {
    let dataset = vec![1, 2, 3, 4, 5, 6, 7, 8, 9, 10];
    let batch_sampler = BatchSampler {
        sampler: SequentialSampler {
            data_source_len: dataset.len(),
        },
        batch_size: 2,
        drop_last: false,
    };
    assert_eq!(batch_sampler.len(), 5);

    let dataset = vec![1, 2, 3, 4, 5, 6, 7, 8, 9, 10, 11];
    let batch_sampler = BatchSampler {
        sampler: SequentialSampler {
            data_source_len: dataset.len(),
        },
        batch_size: 2,
        drop_last: false,
    };
    assert_eq!(batch_sampler.len(), 6);

    let dataset = vec![1, 2, 3, 4, 5, 6, 7, 8, 9, 10, 11];
    let batch_sampler = BatchSampler {
        sampler: SequentialSampler {
            data_source_len: dataset.len(),
        },
        batch_size: 2,
        drop_last: true,
    };
    assert_eq!(batch_sampler.len(), 5);
}

#[test]
fn batch_sampler_doc_example() {
    let dataset = vec![0, 1, 2, 3];
    let batch_sampler = BatchSampler {
        sampler: SequentialSampler {
            data_source_len: dataset.len(),
        },
        batch_size: 2,
        drop_last: false,
    };
    let mut iter = batch_sampler.iter();
    assert_eq!(iter.next(), Some(vec![0, 1]));
    assert_eq!(iter.next(), Some(vec![2, 3]));
    assert_eq!(iter.next(), None);
}

#[test]
fn batch_sampler_drop_last_never_short() {
    // With drop_last, every yielded batch is full; the leftover index is
    // suppressed.
    let batch_sampler = BatchSampler {
        sampler: SequentialSampler { data_source_len: 11 },
        batch_size: 2,
        drop_last: true,
    };
    let mut iter = batch_sampler.iter();
    let mut count = 0;
    while let Some(batch) = iter.next() {
        assert_eq!(batch.len(), 2);
        count += 1;
    }
    assert_eq!(count, 5);
}

#[test]
fn batch_sampler_at_most_one_short_batch() {
    // Without drop_last, only the final batch may be short.
    let batch_sampler = BatchSampler {
        sampler: SequentialSampler { data_source_len: 11 },
        batch_size: 4,
        drop_last: false,
    };
    let mut iter = batch_sampler.iter();
    assert_eq!(iter.next(), Some(vec![0, 1, 2, 3]));
    assert_eq!(iter.next(), Some(vec![4, 5, 6, 7]));
    assert_eq!(iter.next(), Some(vec![8, 9, 10]));
    assert_eq!(iter.next(), None);
}

#[test]
fn batch_sampler_len_matches_batches_yielded() {
    // The computed length equals the number of batches iterated, with and
    // without drop_last, over several lengths and batch sizes.
    for len in 0..12usize {
        for batch_size in 1..5usize {
            for drop_last in [false, true] {
                let batch_sampler = BatchSampler {
                    sampler: SequentialSampler {
                        data_source_len: len,
                    },
                    batch_size,
                    drop_last,
                };
                let mut iter = batch_sampler.iter();
                let mut count = 0;
                while let Some(_batch) = iter.next() {
                    count += 1;
                }
                assert_eq!(batch_sampler.len(), count);
            }
        }
    }
}
