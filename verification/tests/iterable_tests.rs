//! Tests of the iterable data loader.
use ai_dataloader::collate::NoOpCollate;
use ai_dataloader::iterable::DataLoader;
use ai_dataloader::{BatchValue, Value};

fn s(i: i64) -> Value<i64> {
    Value::Scalar(i)
}

fn values(xs: &[i64]) -> Vec<Value<i64>> {
    xs.iter().map(|x| s(*x)).collect()
}

fn arr(xs: &[i64]) -> BatchValue<i64> {
    BatchValue::Array(xs.to_vec())
}

#[test]
fn multiple_iteration() {
    let dataset = values(&[0, 1, 2, 3, 4, 5, 6, 7, 8, 9, 10]);
    let loader = DataLoader::builder(dataset).batch_size(2).build();

    let mut iter = loader.iter();
    while let Some(sample) = iter.next() {
        println!("{sample:?}");
    }

    let mut iter = loader.iter();
    while let Some(sample) = iter.next() {
        println!("{sample:?}");
    }

    let mut into_iter = loader.into_iter();
    assert_eq!(into_iter.next(), Some(arr(&[0, 1])));
    assert_eq!(into_iter.next(), Some(arr(&[2, 3])));
    assert_eq!(into_iter.next(), Some(arr(&[4, 5])));
    assert_eq!(into_iter.next(), Some(arr(&[6, 7])));
    assert_eq!(into_iter.next(), Some(arr(&[8, 9])));
    assert_eq!(into_iter.next(), Some(arr(&[10])));
    assert_eq!(into_iter.next(), None);
}

#[test]
fn drop_last() {
    let dataset = values(&[0, 1, 2, 3, 4, 5, 6, 7, 8, 9, 10]);
    let loader = DataLoader::builder(dataset)
        .batch_size(2)
        .drop_last()
        .build();

    let mut into_iter = loader.into_iter();
    assert_eq!(into_iter.next(), Some(arr(&[0, 1])));
    assert_eq!(into_iter.next(), Some(arr(&[2, 3])));
    assert_eq!(into_iter.next(), Some(arr(&[4, 5])));
    assert_eq!(into_iter.next(), Some(arr(&[6, 7])));
    assert_eq!(into_iter.next(), Some(arr(&[8, 9])));
    assert_eq!(into_iter.next(), None);
}

#[test]
fn custom_collate() {
    let dataset: Vec<i64> = vec![0, 1, 2, 3, 4, 5, 6, 7, 8, 9, 10];
    let loader = DataLoader::builder(dataset)
        .batch_size(2)
        .collate_fn(NoOpCollate)
        .build();
    let mut into_iter = loader.into_iter();
    assert_eq!(into_iter.next(), Some(vec![0, 1]));
    assert_eq!(into_iter.next(), Some(vec![2, 3]));
    assert_eq!(into_iter.next(), Some(vec![4, 5]));
    assert_eq!(into_iter.next(), Some(vec![6, 7]));
    assert_eq!(into_iter.next(), Some(vec![8, 9]));
    assert_eq!(into_iter.next(), Some(vec![10]));
    assert_eq!(into_iter.next(), None);
}

#[test]
fn shuffled_batches_hold_the_window() {
    // In-batch shuffling permutes each window but never mixes windows.
    let dataset = values(&[1, 2, 3, 4, 5, 6]);
    let loader = DataLoader::builder(dataset).batch_size(3).shuffle().build();
    let mut iter = loader.into_iter();
    let mut first = match iter.next() {
        Some(BatchValue::Array(xs)) => xs,
        _ => panic!("scalar batch expected"),
    };
    let mut second = match iter.next() {
        Some(BatchValue::Array(xs)) => xs,
        _ => panic!("scalar batch expected"),
    };
    assert_eq!(iter.next(), None);
    first.sort();
    second.sort();
    assert_eq!(first, vec![1, 2, 3]);
    assert_eq!(second, vec![4, 5, 6]);
}

#[test]
fn try_into_iter_accepts_uniform_datasets() {
    let dataset = values(&[1, 2, 3]);
    let loader = DataLoader::builder(dataset).batch_size(2).build();
    let mut iter = match loader.try_into_iter() {
        Ok(iter) => iter,
        Err(_) => panic!("a uniform scalar dataset must pass the check"),
    };
    assert_eq!(iter.next(), Some(arr(&[1, 2])));
    assert_eq!(iter.next(), Some(arr(&[3])));
    assert_eq!(iter.next(), None);
}

#[test]
fn try_into_iter_rejects_ragged_sequences() {
    let dataset = vec![
        Value::Sequence(vec![s(1), s(2)]),
        Value::Sequence(vec![s(3)]),
    ];
    let loader = DataLoader::builder(dataset).batch_size(2).build();
    assert!(loader.try_into_iter().is_err());
}
