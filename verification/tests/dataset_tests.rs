//! Tests of the dataset traits, the paired-column dataset, and the
//! prefetch pipeline's decision core.
use ai_dataloader::prefetch::{PrefetchPipeline, WorkerAction, WorkerPhase};
use ai_dataloader::{GetItem, GetSample, Len, NdarrayDataset};

struct CustomDataset {
    pub content: Vec<i32>,
}

impl GetItem for CustomDataset {
    type Output = i32;

    // The model of the items; never called at run time.
    fn spec_items(&self) -> vstd::prelude::Seq<i32> {
        panic!()
    }

    fn get_item(&self, index: usize) -> i32 {
        self.content[index]
    }
}

impl Len for CustomDataset {
    // The model of the length; never called at run time.
    fn spec_len(&self) -> vstd::prelude::nat {
        panic!()
    }

    fn len(&self) -> usize {
        self.content.len()
    }

    fn is_empty(&self) -> bool {
        self.content.is_empty()
    }
}

#[test]
fn test_custom_dataset() {
    let dataset = CustomDataset {
        content: vec![1, 2, 3, 4, 5],
    };
    println!("{}", dataset.get_item(1));
    println!("{}", dataset.len());
    assert_eq!(dataset.get_item(1), 2);
    assert_eq!(dataset.len(), 5);
}

#[test]
fn dataset_ndarray_dataset() {
    let dataset = NdarrayDataset {
        ndarrays: (vec![1, 2], vec![3, 4]),
    };
    let sample = dataset.get_item(1);
    println!("{sample:?}");
    assert_eq!(sample, (2, 4));
}

#[test]
fn ndarray_dataset_ndarray_dataset() {
    let dataset = NdarrayDataset {
        ndarrays: (vec![1, 2], vec![3, 4]),
    };
    let sample = dataset.get_sample(1);
    println!("{sample:?}");
    assert_eq!(sample, (2, 4));
    assert_eq!(dataset.len(), 2);
}

#[test]
fn backpressure_bound_holds_through_a_run() {
    // With a prefetch size of 2, the pipeline never holds more than 3
    // completed unconsumed batches: 2 queued plus 1 in the worker's hand.
    let capacity = 2;
    let total = 5;
    let mut p = PrefetchPipeline::new(capacity, total);
    let mut computed = 0;
    let mut consumed = 0;
    while consumed < total {
        if computed < total && !p.holding {
            p.worker_compute();
            computed += 1;
        }
        assert!(p.queued + usize::from(p.holding) <= capacity + 1);
        if p.holding {
            let action = p.worker_checkpoint(false);
            if action == WorkerAction::Wait {
                // Queue full: the consumer must take a batch first.
                p.consumer_receive();
                consumed += 1;
            }
        } else if p.queued > 0 {
            p.consumer_receive();
            consumed += 1;
        }
        assert!(p.queued + usize::from(p.holding) <= capacity + 1);
    }
    p.worker_finish();
    assert_eq!(p.phase, WorkerPhase::Exhausted);
}

#[test]
fn cancellation_wins_at_the_checkpoint() {
    // A worker holding a batch that observes cancellation discards it and
    // exits at once, even with queue space available.
    let mut p = PrefetchPipeline::new(4, 10);
    p.worker_compute();
    let action = p.worker_checkpoint(true);
    assert_eq!(action, WorkerAction::Exit);
    assert_eq!(p.phase, WorkerPhase::Cancelled);
    assert!(!p.holding);
}
