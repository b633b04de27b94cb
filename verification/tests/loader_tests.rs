//! Tests of the indexable data loader and its builders.
use ai_dataloader::collate::{NoOpCollate, NoOpCollator};
use ai_dataloader::indexable::{Builder, DataLoader, DataLoaderBuilder, DataLoaderBuilder2};
use ai_dataloader::SequentialSampler;
use ai_dataloader::{BatchValue, Len, RandomSampler, Value};

fn s(i: i64) -> Value<i64> {
    Value::Scalar(i)
}

fn values(xs: &[i64]) -> Vec<Value<i64>> {
    xs.iter().map(|x| s(*x)).collect()
}

fn arr(xs: &[i64]) -> BatchValue<i64> {
    BatchValue::Array(xs.to_vec())
}

fn text_pair(label: i64, text: &str) -> Value<i64> {
    Value::Tuple(vec![s(label), Value::Text(String::from(text))])
}

fn text_batch(labels: &[i64], lines: &[&str]) -> BatchValue<i64> {
    BatchValue::Tuple(vec![
        BatchValue::Array(labels.to_vec()),
        BatchValue::Texts(lines.iter().map(|t| String::from(*t)).collect()),
    ])
}

#[test]
fn dataloader_one_dimension_basic() {
    let dataset = values(&[1, 2, 3, 4, 5, 6, 7, 8, 9, 10]);
    let dataloader: DataLoader<_> = DataLoaderBuilder::new(dataset).with_batch_size(2).build();
    let mut iter = dataloader.iter();
    assert_eq!(iter.next(), Some(arr(&[1, 2])));
    assert_eq!(iter.next(), Some(arr(&[3, 4])));
    assert_eq!(iter.next(), Some(arr(&[5, 6])));
    assert_eq!(iter.next(), Some(arr(&[7, 8])));
    assert_eq!(iter.next(), Some(arr(&[9, 10])));
    assert_eq!(iter.next(), None);
}

#[test]
fn dataloader_two_iteration() {
    let dataset = values(&[1, 2, 3, 4]);
    let dataloader: DataLoader<_> = DataLoaderBuilder::new(dataset).with_batch_size(2).build();
    let mut iter = dataloader.clone().iter();
    assert_eq!(iter.next(), Some(arr(&[1, 2])));
    assert_eq!(iter.next(), Some(arr(&[3, 4])));
    assert_eq!(iter.next(), None);
    let mut iter = dataloader.iter();
    assert_eq!(iter.next(), Some(arr(&[1, 2])));
    assert_eq!(iter.next(), Some(arr(&[3, 4])));
    assert_eq!(iter.next(), None);
}

#[test]
fn dataloader_one_dimension_basic_string() {
    let dataset = vec![
        Value::<i64>::Text(String::from("a")),
        Value::<i64>::Text(String::from("b")),
    ];
    let dataloader: DataLoader<_> = DataLoaderBuilder::new(dataset).with_batch_size(1).build();
    let mut iter = dataloader.iter();
    assert_eq!(iter.next(), Some(BatchValue::Texts(vec![String::from("a")])));
    assert_eq!(iter.next(), Some(BatchValue::Texts(vec![String::from("b")])));
    assert_eq!(iter.next(), None);
}

#[test]
fn dataloader_test_collator() {
    let dataset: Vec<i64> = vec![1, 2, 3, 4, 5, 6, 7, 8, 9, 10];
    let dataloader: DataLoader<_, SequentialSampler, NoOpCollator> = DataLoaderBuilder::new(
        dataset,
    )
        .with_collate_fn(NoOpCollator)
        .with_batch_size(2)
        .build();
    let mut iter = dataloader.iter();
    assert_eq!(iter.next(), Some(vec![1, 2]));
    assert_eq!(iter.next(), Some(vec![3, 4]));
    assert_eq!(iter.next(), Some(vec![5, 6]));
    assert_eq!(iter.next(), Some(vec![7, 8]));
    assert_eq!(iter.next(), Some(vec![9, 10]));
    assert_eq!(iter.next(), None);
}

#[test]
fn builder_api() {
    let _loader = Builder::new(values(&[1, 2, 3, 4])).build();
    let _loader = Builder::new(values(&[1, 2, 3, 4])).shuffle().build();

    let _loader = Builder::new(values(&[1, 2, 3, 4])).batch_size(2).build();

    let _loader = Builder::new(values(&[1, 2, 3, 4]))
        .batch_size(2)
        .drop_last()
        .build();

    let _loader = Builder::new(values(&[1, 2, 3, 4]))
        .batch_size(2)
        .drop_last()
        .collate_fn(NoOpCollate)
        .build();

    let _loader = Builder::new(values(&[1, 2, 3, 4]))
        .batch_size(2)
        .drop_last()
        .sampler::<RandomSampler>()
        .build();

    let _loader = Builder::new(values(&[1, 2, 3, 4]))
        .batch_size(2)
        .drop_last()
        .sampler::<RandomSampler>()
        .collate_fn(NoOpCollate)
        .build();

    let _loader = Builder::new(values(&[1, 2, 3, 4]))
        .shuffle()
        .batch_size(2)
        .drop_last()
        .collate_fn(NoOpCollate)
        .build();

    let _loader = Builder::new(values(&[1, 2, 3, 4]))
        .collate_fn(NoOpCollate)
        .batch_size(2)
        .build();
}

#[test]
fn builder2_api() {
    let _loader = DataLoaderBuilder2::new(values(&[1, 2, 3, 4])).build();
    let _loader = DataLoaderBuilder2::new(values(&[1, 2, 3, 4])).shuffle().build();

    let _loader = DataLoaderBuilder2::new(values(&[1, 2, 3, 4]))
        .with_batch_size(2)
        .build();

    let _loader = DataLoaderBuilder2::new(values(&[1, 2, 3, 4]))
        .with_batch_size(2)
        .drop_last(true)
        .build();

    let _loader = DataLoaderBuilder2::new(values(&[1, 2, 3, 4]))
        .with_batch_size(2)
        .drop_last(true)
        .with_collate_fn(NoOpCollate)
        .build();

    let _loader = DataLoaderBuilder2::new(values(&[1, 2, 3, 4]))
        .with_batch_size(2)
        .drop_last(true)
        .with_sampler::<RandomSampler>()
        .build();
}

#[test]
fn mod_len() {
    let dataset = values(&[1, 2, 3, 4, 5, 6, 7, 8, 9, 10]);
    let dataloader = DataLoader::builder(dataset)
        .batch_size(2)
        .drop_last()
        .build();
    assert_eq!(dataloader.len(), 5);
    let mut iter = dataloader.iter();
    assert_eq!(iter.len(), 5);
    iter.next();
    assert_eq!(iter.len(), 4);
}

#[test]
fn mod_one_dimension_basic() {
    let dataset = values(&[1, 2, 3, 4, 5, 6, 7, 8, 9, 10]);
    let dataloader = DataLoader::builder(dataset).batch_size(2).build();
    let mut iter = dataloader.iter();
    assert_eq!(iter.next(), Some(arr(&[1, 2])));
    assert_eq!(iter.next(), Some(arr(&[3, 4])));
    assert_eq!(iter.next(), Some(arr(&[5, 6])));
    assert_eq!(iter.next(), Some(arr(&[7, 8])));
    assert_eq!(iter.next(), Some(arr(&[9, 10])));
    assert_eq!(iter.next(), None);
}

#[test]
fn mod_two_iteration() {
    let dataset = values(&[1, 2, 3, 4]);
    let dataloader = DataLoader::builder(dataset).batch_size(2).build();
    let mut iter = dataloader.clone().iter();
    assert_eq!(iter.next(), Some(arr(&[1, 2])));
    assert_eq!(iter.next(), Some(arr(&[3, 4])));
    assert_eq!(iter.next(), None);
    let mut iter = dataloader.iter();
    assert_eq!(iter.next(), Some(arr(&[1, 2])));
    assert_eq!(iter.next(), Some(arr(&[3, 4])));
    assert_eq!(iter.next(), None);
}

#[test]
fn mod_one_dimension_basic_string() {
    let dataset = vec![
        Value::<i64>::Text(String::from("a")),
        Value::<i64>::Text(String::from("b")),
    ];
    let dataloader = DataLoader::builder(dataset).build();
    let mut iter = dataloader.iter();
    assert_eq!(iter.next(), Some(BatchValue::Texts(vec![String::from("a")])));
    assert_eq!(iter.next(), Some(BatchValue::Texts(vec![String::from("b")])));
    assert_eq!(iter.next(), None);
}

#[test]
fn collate() {
    let dataset: Vec<i64> = vec![1, 2, 3, 4, 5, 6, 7, 8, 9, 10];
    let dataloader = DataLoader::builder(dataset)
        .batch_size(2)
        .collate_fn(NoOpCollate)
        .build();
    let mut iter = dataloader.iter();
    assert_eq!(iter.next(), Some(vec![1, 2]));
    assert_eq!(iter.next(), Some(vec![3, 4]));
    assert_eq!(iter.next(), Some(vec![5, 6]));
    assert_eq!(iter.next(), Some(vec![7, 8]));
    assert_eq!(iter.next(), Some(vec![9, 10]));
    assert_eq!(iter.next(), None);
}

#[test]
fn mod_vec_of_token() {
    let rows: [(i64, [i64; 4]); 4] = [
        (0, [1, 23, 4, 0]),
        (1, [4, 0, 0, 0]),
        (1, [8, 23, 12, 3]),
        (0, [2, 45, 4, 0]),
    ];
    let dataset: Vec<Value<i64>> = rows
        .iter()
        .map(|(label, tokens)| {
            Value::Tuple(vec![
                s(*label),
                Value::Sequence(tokens.iter().map(|t| s(*t)).collect()),
            ])
        })
        .collect();
    let loader = DataLoader::builder(dataset).batch_size(2).build();
    let mut iter = loader.iter();
    assert_eq!(
        iter.next(),
        Some(BatchValue::Tuple(vec![
            arr(&[0, 1]),
            BatchValue::Sequence(vec![arr(&[1, 4]), arr(&[23, 0]), arr(&[4, 0]), arr(&[0, 0])]),
        ]))
    );
}

#[test]
fn shuffled_pass_covers_every_sample() {
    // A shuffled loader yields every sample exactly once per pass.
    let dataset = values(&[10, 11, 12, 13, 14, 15, 16]);
    let loader = DataLoader::builder(dataset).shuffle().build();
    let mut iter = loader.iter();
    let mut seen: Vec<i64> = Vec::new();
    while let Some(batch) = iter.next() {
        match batch {
            BatchValue::Array(xs) => seen.extend(xs),
            _ => panic!("scalar batches expected"),
        }
    }
    seen.sort();
    assert_eq!(seen, vec![10, 11, 12, 13, 14, 15, 16]);
}

#[test]
fn integration_tests_text_classification() {
    let dataset = vec![
        text_pair(0, "I'm happy"),
        text_pair(1, "I'm sad"),
        text_pair(0, "It feel goo"),
        text_pair(0, "Let's go!"),
    ];
    let loader = DataLoader::builder(dataset).build();
    let mut loader = loader.iter();
    assert_eq!(loader.next(), Some(text_batch(&[0], &["I'm happy"])));
    assert_eq!(loader.next(), Some(text_batch(&[1], &["I'm sad"])));
    assert_eq!(loader.next(), Some(text_batch(&[0], &["It feel goo"])));
    assert_eq!(loader.next(), Some(text_batch(&[0], &["Let's go!"])));
    assert_eq!(loader.next(), None);
}

#[test]
fn integration_tests_text_classification_batch() {
    let dataset = vec![
        text_pair(0, "I'm happy"),
        text_pair(1, "I'm sad"),
        text_pair(0, "It feel goo"),
        text_pair(0, "Let's go!"),
    ];
    let loader = DataLoader::builder(dataset).batch_size(2).build();
    let mut loader = loader.iter();
    assert_eq!(
        loader.next(),
        Some(text_batch(&[0, 1], &["I'm happy", "I'm sad"]))
    );
    assert_eq!(
        loader.next(),
        Some(text_batch(&[0, 0], &["It feel goo", "Let's go!"]))
    );
}

#[test]
fn dataloader_text_classification() {
    let dataset = vec![
        text_pair(0, "I'm happy"),
        text_pair(1, "I'm sad"),
        text_pair(0, "It feel goo"),
        text_pair(0, "Let's go!"),
    ];
    let loader = DataLoader::builder(dataset).build();
    let mut loader = loader.iter();
    assert_eq!(loader.next(), Some(text_batch(&[0], &["I'm happy"])));
    assert_eq!(loader.next(), Some(text_batch(&[1], &["I'm sad"])));
    assert_eq!(loader.next(), Some(text_batch(&[0], &["It feel goo"])));
    assert_eq!(loader.next(), Some(text_batch(&[0], &["Let's go!"])));
    assert_eq!(loader.next(), None);
}

#[test]
fn dataloader_text_classification_batch() {
    let dataset = vec![
        text_pair(0, "I'm happy"),
        text_pair(1, "I'm sad"),
        text_pair(0, "It feel goo"),
        text_pair(0, "Let's go!"),
    ];
    let loader = DataLoader::builder(dataset).batch_size(2).build();
    let mut loader = loader.iter();
    assert_eq!(
        loader.next(),
        Some(text_batch(&[0, 1], &["I'm happy", "I'm sad"]))
    );
    assert_eq!(
        loader.next(),
        Some(text_batch(&[0, 0], &["It feel goo", "Let's go!"]))
    );
}

#[test]
fn mod_test_collator() {
    let dataset: Vec<i64> = vec![1, 2, 3, 4, 5, 6, 7, 8, 9, 10];
    let dataloader: DataLoader<_, SequentialSampler, NoOpCollator> = DataLoaderBuilder::new(
        dataset,
    )
        .with_collate_fn(NoOpCollator)
        .with_batch_size(2)
        .build();
    let mut iter = dataloader.iter();
    assert_eq!(iter.next(), Some(vec![1, 2]));
    assert_eq!(iter.next(), Some(vec![3, 4]));
    assert_eq!(iter.next(), Some(vec![5, 6]));
    assert_eq!(iter.next(), Some(vec![7, 8]));
    assert_eq!(iter.next(), Some(vec![9, 10]));
    assert_eq!(iter.next(), None);
}

#[test]
fn try_iter_accepts_uniform_datasets() {
    let dataset = values(&[1, 2, 3, 4]);
    let loader = DataLoader::builder(dataset).batch_size(2).build();
    let mut iter = match loader.try_iter() {
        Ok(iter) => iter,
        Err(_) => panic!("a uniform scalar dataset must pass the check"),
    };
    assert_eq!(iter.next(), Some(arr(&[1, 2])));
    assert_eq!(iter.next(), Some(arr(&[3, 4])));
    assert_eq!(iter.next(), None);
}

#[test]
fn try_iter_rejects_mixed_shapes() {
    let dataset = vec![s(1), Value::Text(String::from("a"))];
    let loader = DataLoader::builder(dataset).batch_size(2).build();
    assert!(loader.try_iter().is_err());
}

#[test]
fn with_batch_size_zero_is_coerced_to_one() {
    // A batch size of zero is coerced to one by every builder.
    let dataset = values(&[1, 2, 3, 4]);
    let loader = DataLoaderBuilder2::new(dataset).with_batch_size(0).build();
    assert_eq!(loader.len(), 4);
    let dataset = values(&[1, 2, 3, 4]);
    let loader: DataLoader<_> = DataLoaderBuilder::new(dataset).with_batch_size(0).build();
    assert_eq!(loader.len(), 4);
    let dataset = values(&[1, 2, 3, 4]);
    let loader = DataLoader::builder(dataset).batch_size(0).build();
    assert_eq!(loader.len(), 4);
}
