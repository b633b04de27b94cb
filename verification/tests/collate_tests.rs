//! Tests of the structure-driven collate: scalars into arrays, tuples and
//! sequences component-wise, maps key by key, texts kept as lists.
use ai_dataloader::collate::{
    Collate, Collect, DefaultCollate, DefaultCollator, DefaultCollector, NoOpCollate,
    NoOpCollator, NoOpCollector, Opaque,
};
use ai_dataloader::{BatchValue, MapKey, Value};

fn s(i: i32) -> Value<i32> {
    Value::Scalar(i)
}

fn sf(x: f64) -> Value<Opaque<f64>> {
    Value::Scalar(Opaque(x))
}

fn sb(b: bool) -> Value<bool> {
    Value::Scalar(b)
}

fn txt(t: &str) -> Value<i32> {
    Value::Text(String::from(t))
}

fn key(k: &str) -> MapKey {
    MapKey::Text(String::from(k))
}

fn arr(xs: &[i32]) -> BatchValue<i32> {
    BatchValue::Array(xs.to_vec())
}

fn arrf(xs: &[f64]) -> BatchValue<Opaque<f64>> {
    BatchValue::Array(xs.iter().map(|x| Opaque(*x)).collect())
}

fn arrb(xs: &[bool]) -> BatchValue<bool> {
    BatchValue::Array(xs.to_vec())
}

fn texts(xs: &[&str]) -> BatchValue<i32> {
    BatchValue::Texts(xs.iter().map(|x| String::from(*x)).collect())
}

#[test]
fn default_collate_primitive_type() {
    assert_eq!(
        DefaultCollector::collect(vec![s(0), s(1), s(2), s(3), s(4), s(5)]),
        arr(&[0, 1, 2, 3, 4, 5])
    );
    assert_eq!(
        DefaultCollector::collect(vec![sf(0.), sf(1.), sf(2.), sf(3.), sf(4.), sf(5.)]),
        arrf(&[0., 1., 2., 3., 4., 5.])
    );
    assert_eq!(
        DefaultCollector::collect(vec![s(1), s(2), s(3)]),
        arr(&[1, 2, 3])
    );
    assert_eq!(
        DefaultCollector::collect(vec![s(1), s(-2), s(3)]),
        arr(&[1, -2, 3])
    );
    assert_eq!(
        DefaultCollector::collect(vec![sf(1.), sf(2.), sf(3.)]),
        arrf(&[1., 2., 3.])
    );
    assert_eq!(
        DefaultCollector::collect(vec![sb(true), sb(false), sb(true)]),
        arrb(&[true, false, true])
    );
}

#[test]
fn default_collect_map() {
    let map1 = Value::Mapping(vec![(key("A"), s(0)), (key("B"), s(1))]);
    let map2 = Value::Mapping(vec![(key("A"), s(100)), (key("B"), s(100))]);
    let expected_result =
        BatchValue::Mapping(vec![(key("A"), arr(&[0, 100])), (key("B"), arr(&[1, 100]))]);
    assert_eq!(DefaultCollector::collect(vec![map1, map2]), expected_result);
}

#[test]
fn collate_default_collect_specialized() {
    // Cases that keep textual leaves as plain lists.
    assert_eq!(
        DefaultCollector::collect(vec![txt("a"), txt("b")]),
        texts(&["a", "b"])
    );
}

#[test]
fn default_collate_multi_dimensional() {
    assert_eq!(
        DefaultCollector::collect(vec![
            Value::Sequence(vec![s(1), s(2)]),
            Value::Sequence(vec![s(3), s(4)]),
        ]),
        BatchValue::Sequence(vec![arr(&[1, 3]), arr(&[2, 4])])
    );
    assert_eq!(
        DefaultCollector::collect(vec![
            Value::Sequence(vec![s(1), s(2), s(3)]),
            Value::Sequence(vec![s(4), s(5), s(6)]),
        ]),
        BatchValue::Sequence(vec![arr(&[1, 4]), arr(&[2, 5]), arr(&[3, 6])])
    );
    assert_eq!(
        DefaultCollector::collect(vec![
            Value::Sequence(vec![s(1), s(2)]),
            Value::Sequence(vec![s(3), s(4)]),
            Value::Sequence(vec![s(5), s(6)]),
        ]),
        BatchValue::Sequence(vec![arr(&[1, 3, 5]), arr(&[2, 4, 6])])
    );
    assert_eq!(
        DefaultCollector::collect(vec![
            Value::Sequence(vec![s(1), s(2)]),
            Value::Sequence(vec![s(3), s(4)]),
            Value::Sequence(vec![s(5), s(6)]),
        ]),
        BatchValue::Sequence(vec![arr(&[1, 3, 5]), arr(&[2, 4, 6])])
    );
}

#[test]
fn collate_no_op_collate() {
    assert_eq!(NoOpCollector::collect(vec![1, 2]), vec![1, 2]);
}

#[test]
fn mod_no_op_collate() {
    assert_eq!(NoOpCollate.collate(vec![1, 2]), vec![1, 2]);
}

#[test]
fn primitive_type() {
    assert_eq!(
        DefaultCollator.collate(vec![s(0), s(1), s(2), s(3), s(4), s(5)]),
        arr(&[0, 1, 2, 3, 4, 5])
    );
    assert_eq!(
        DefaultCollator.collate(vec![sf(0.), sf(1.), sf(2.), sf(3.), sf(4.), sf(5.)]),
        arrf(&[0., 1., 2., 3., 4., 5.])
    );
    assert_eq!(DefaultCollator.collate(vec![s(1), s(2), s(3)]), arr(&[1, 2, 3]));
    assert_eq!(
        DefaultCollator.collate(vec![s(1), s(-2), s(3)]),
        arr(&[1, -2, 3])
    );
    assert_eq!(
        DefaultCollator.collate(vec![sf(1.), sf(2.), sf(3.)]),
        arrf(&[1., 2., 3.])
    );
    assert_eq!(
        DefaultCollator.collate(vec![sb(true), sb(false), sb(true)]),
        arrb(&[true, false, true])
    );
}

#[test]
fn tuple() {
    assert_eq!(DefaultCollator.collate(vec![s(1)]), arr(&[1]));
    assert_eq!(DefaultCollator.collate(vec![s(-1)]), arr(&[-1]));
    assert_eq!(DefaultCollator.collate(vec![sf(1.0)]), arrf(&[1.0]));
    assert_eq!(DefaultCollator.collate(vec![sb(true)]), arrb(&[true]));
    assert_eq!(DefaultCollator.collate(vec![s(1), s(2)]), arr(&[1, 2]));
    assert_eq!(DefaultCollator.collate(vec![s(-1), s(2)]), arr(&[-1, 2]));
    assert_eq!(DefaultCollator.collate(vec![sf(1.0), sf(2.0)]), arrf(&[1.0, 2.0]));
    assert_eq!(
        DefaultCollator.collate(vec![sb(true), sb(false)]),
        arrb(&[true, false])
    );
    assert_eq!(DefaultCollator.collate(vec![s(1), s(2), s(3)]), arr(&[1, 2, 3]));
    assert_eq!(
        DefaultCollator.collate(vec![s(-1), s(2), s(3)]),
        arr(&[-1, 2, 3])
    );
    assert_eq!(
        DefaultCollator.collate(vec![sf(1.0), sf(2.0), sf(3.0)]),
        arrf(&[1.0, 2.0, 3.0])
    );
    assert_eq!(
        DefaultCollator.collate(vec![sb(true), sb(false), sb(true)]),
        arrb(&[true, false, true])
    );
}

#[test]
fn tuple_of_tuple() {}

#[test]
fn default_collate_vec_of_tuple() {
    assert_eq!(
        DefaultCollator.collate(vec![Value::Tuple(vec![s(1), s(2)])]),
        BatchValue::Tuple(vec![arr(&[1]), arr(&[2])])
    );
    assert_eq!(
        DefaultCollator.collate(vec![
            Value::Tuple(vec![sf(1.0), sf(2.0)]),
            Value::Tuple(vec![sf(3.0), sf(4.0)]),
        ]),
        BatchValue::Tuple(vec![arrf(&[1.0, 3.0]), arrf(&[2.0, 4.0])])
    );
    assert_eq!(
        DefaultCollator.collate(vec![
            Value::Tuple(vec![s(1), s(2)]),
            Value::Tuple(vec![s(3), s(4)]),
        ]),
        BatchValue::Tuple(vec![arr(&[1, 3]), arr(&[2, 4])])
    );
    assert_eq!(
        DefaultCollator.collate(vec![
            Value::Tuple(vec![s(-1), s(2)]),
            Value::Tuple(vec![s(3), s(4)]),
        ]),
        BatchValue::Tuple(vec![arr(&[-1, 3]), arr(&[2, 4])])
    );
    assert_eq!(
        DefaultCollator.collate(vec![
            Value::Tuple(vec![sf(1.0), sf(2.0)]),
            Value::Tuple(vec![sf(3.0), sf(4.0)]),
            Value::Tuple(vec![sf(5.0), sf(6.0)]),
        ]),
        BatchValue::Tuple(vec![arrf(&[1.0, 3.0, 5.0]), arrf(&[2.0, 4.0, 6.0])])
    );
}

#[test]
fn default_collate_vec_of_tuple_with_len_1() {
    assert_eq!(
        DefaultCollator.collate(vec![Value::Tuple(vec![s(1)])]),
        BatchValue::Tuple(vec![arr(&[1])])
    );
}

#[derive(Debug, Clone, Copy, PartialEq)]
enum Mixed {
    I(i64),
    F(f64),
    B(bool),
}

fn mi(i: i64) -> Value<Opaque<Mixed>> {
    Value::Scalar(Opaque(Mixed::I(i)))
}

fn mf(x: f64) -> Value<Opaque<Mixed>> {
    Value::Scalar(Opaque(Mixed::F(x)))
}

fn mb(b: bool) -> Value<Opaque<Mixed>> {
    Value::Scalar(Opaque(Mixed::B(b)))
}

fn marr(xs: &[Mixed]) -> BatchValue<Opaque<Mixed>> {
    BatchValue::Array(xs.iter().map(|x| Opaque(*x)).collect())
}

#[test]
fn default_collate_vec_of_tuple_with_len_2() {
    assert_eq!(
        DefaultCollator.collate(vec![Value::Tuple(vec![mi(1), mf(2.0)])]),
        BatchValue::Tuple(vec![marr(&[Mixed::I(1)]), marr(&[Mixed::F(2.0)])])
    );
    assert_eq!(
        DefaultCollator.collate(vec![
            Value::Tuple(vec![mi(1), mf(2.0)]),
            Value::Tuple(vec![mi(3), mf(4.0)]),
        ]),
        BatchValue::Tuple(vec![
            marr(&[Mixed::I(1), Mixed::I(3)]),
            marr(&[Mixed::F(2.0), Mixed::F(4.0)]),
        ])
    );
    assert_eq!(
        DefaultCollator.collate(vec![
            Value::Tuple(vec![mi(-1), mb(true)]),
            Value::Tuple(vec![mi(-3), mb(false)]),
        ]),
        BatchValue::Tuple(vec![
            marr(&[Mixed::I(-1), Mixed::I(-3)]),
            marr(&[Mixed::B(true), Mixed::B(false)]),
        ])
    );
    assert_eq!(
        DefaultCollator.collate(vec![
            Value::Tuple(vec![mi(-1), mb(true)]),
            Value::Tuple(vec![mi(3), mb(false)]),
        ]),
        BatchValue::Tuple(vec![
            marr(&[Mixed::I(-1), Mixed::I(3)]),
            marr(&[Mixed::B(true), Mixed::B(false)]),
        ])
    );
    assert_eq!(
        DefaultCollator.collate(vec![
            Value::Tuple(vec![mi(1), mf(2.0)]),
            Value::Tuple(vec![mi(3), mf(4.0)]),
            Value::Tuple(vec![mi(5), mf(6.0)]),
        ]),
        BatchValue::Tuple(vec![
            marr(&[Mixed::I(1), Mixed::I(3), Mixed::I(5)]),
            marr(&[Mixed::F(2.0), Mixed::F(4.0), Mixed::F(6.0)]),
        ])
    );
}

#[test]
fn default_collate_vec_of_tuple_with_len_3() {
    assert_eq!(
        DefaultCollator.collate(vec![Value::Tuple(vec![mi(1), mf(2.0), mb(true)])]),
        BatchValue::Tuple(vec![
            marr(&[Mixed::I(1)]),
            marr(&[Mixed::F(2.0)]),
            marr(&[Mixed::B(true)]),
        ])
    );
    assert_eq!(
        DefaultCollator.collate(vec![
            Value::Tuple(vec![mi(1), mf(2.0), mb(true)]),
            Value::Tuple(vec![mi(3), mf(4.0), mb(true)]),
        ]),
        BatchValue::Tuple(vec![
            marr(&[Mixed::I(1), Mixed::I(3)]),
            marr(&[Mixed::F(2.0), Mixed::F(4.0)]),
            marr(&[Mixed::B(true), Mixed::B(true)]),
        ])
    );
    assert_eq!(
        DefaultCollator.collate(vec![
            Value::Tuple(vec![mi(1), mf(2.0), mb(true)]),
            Value::Tuple(vec![mi(3), mf(4.0), mb(false)]),
            Value::Tuple(vec![mi(5), mf(6.0), mb(true)]),
        ]),
        BatchValue::Tuple(vec![
            marr(&[Mixed::I(1), Mixed::I(3), Mixed::I(5)]),
            marr(&[Mixed::F(2.0), Mixed::F(4.0), Mixed::F(6.0)]),
            marr(&[Mixed::B(true), Mixed::B(false), Mixed::B(true)]),
        ])
    );
}

#[test]
fn default_collate_vec_of_vec() {
    assert_eq!(
        DefaultCollator.collate(vec![Value::Sequence(vec![s(1)])]),
        BatchValue::Sequence(vec![arr(&[1])])
    );
    assert_eq!(
        DefaultCollator.collate(vec![
            Value::Sequence(vec![s(1), s(2)]),
            Value::Sequence(vec![s(3), s(4)]),
        ]),
        BatchValue::Sequence(vec![arr(&[1, 3]), arr(&[2, 4])])
    );
    assert_eq!(
        DefaultCollator.collate(vec![
            Value::Sequence(vec![sb(true), sb(false)]),
            Value::Sequence(vec![sb(true), sb(false)]),
        ]),
        BatchValue::Sequence(vec![arrb(&[true, true]), arrb(&[false, false])])
    );
    assert_eq!(
        DefaultCollator.collate(vec![
            Value::Sequence(vec![s(1), s(2), s(3)]),
            Value::Sequence(vec![s(4), s(5), s(6)]),
        ]),
        BatchValue::Sequence(vec![arr(&[1, 4]), arr(&[2, 5]), arr(&[3, 6])])
    );
    assert_eq!(
        DefaultCollator.collate(vec![
            Value::Sequence(vec![s(1), s(2)]),
            Value::Sequence(vec![s(3), s(4)]),
            Value::Sequence(vec![s(5), s(6)]),
        ]),
        BatchValue::Sequence(vec![arr(&[1, 3, 5]), arr(&[2, 4, 6])])
    );
}

#[test]
fn default_collate_vec_of_array() {
    assert_eq!(
        DefaultCollator.collate(vec![
            Value::Sequence(vec![s(1), s(2)]),
            Value::Sequence(vec![s(3), s(4)]),
            Value::Sequence(vec![s(5), s(6)]),
        ]),
        BatchValue::Sequence(vec![arr(&[1, 3, 5]), arr(&[2, 4, 6])])
    );
}

#[test]
fn default_collate_vec_of_hash_map() {
    let map1 = Value::Mapping(vec![(key("A"), s(0)), (key("B"), s(1))]);
    let map2 = Value::Mapping(vec![(key("A"), s(100)), (key("B"), s(100))]);
    let expected_result =
        BatchValue::Mapping(vec![(key("A"), arr(&[0, 100])), (key("B"), arr(&[1, 100]))]);
    assert_eq!(DefaultCollator.collate(vec![map1, map2]), expected_result);
}

#[test]
fn default_collate_default_collect_specialized() {
    assert_eq!(
        DefaultCollator.collate(vec![txt("a"), txt("b")]),
        texts(&["a", "b"])
    );
}

#[test]
fn array_vec_of_array() {
    assert_eq!(
        DefaultCollate.collate(vec![
            Value::Sequence(vec![s(1), s(2)]),
            Value::Sequence(vec![s(3), s(4)]),
            Value::Sequence(vec![s(5), s(6)]),
        ]),
        BatchValue::Sequence(vec![arr(&[1, 3, 5]), arr(&[2, 4, 6])])
    );
}

#[test]
fn hash_map_vec_of_hash_map() {
    let map1 = Value::Mapping(vec![(key("A"), s(0)), (key("B"), s(1))]);
    let map2 = Value::Mapping(vec![(key("A"), s(100)), (key("B"), s(100))]);
    let expected_result =
        BatchValue::Mapping(vec![(key("A"), arr(&[0, 100])), (key("B"), arr(&[1, 100]))]);
    assert_eq!(DefaultCollate.collate(vec![map1, map2]), expected_result);

    // Same value type but different keys.
    let map1 = Value::Mapping(vec![(MapKey::Int(1), s(0)), (MapKey::Int(2), s(1))]);
    let map2 = Value::Mapping(vec![(MapKey::Int(1), s(100)), (MapKey::Int(2), s(100))]);
    let expected_result = BatchValue::Mapping(vec![
        (MapKey::Int(1), arr(&[0, 100])),
        (MapKey::Int(2), arr(&[1, 100])),
    ]);
    assert_eq!(DefaultCollate.collate(vec![map1, map2]), expected_result);

    let map1 = Value::Mapping(vec![(key("A"), sf(0.0)), (key("B"), sf(1.0))]);
    let map2 = Value::Mapping(vec![(key("A"), sf(100.0)), (key("B"), sf(100.0))]);
    let expected_result = BatchValue::Mapping(vec![
        (key("A"), arrf(&[0.0, 100.0])),
        (key("B"), arrf(&[1.0, 100.0])),
    ]);
    assert_eq!(DefaultCollate.collate(vec![map1, map2]), expected_result);
}

#[test]
fn hash_map_specialized() {
    let map1 = Value::Mapping(vec![(key("A"), txt("0")), (key("B"), txt("1"))]);
    let map2 = Value::Mapping(vec![(key("A"), txt("100")), (key("B"), txt("100"))]);
    let expected_result = BatchValue::Mapping(vec![
        (key("A"), texts(&["0", "100"])),
        (key("B"), texts(&["1", "100"])),
    ]);
    assert_eq!(DefaultCollate.collate(vec![map1, map2]), expected_result);
}

#[test]
fn primitive_scalar_type() {
    assert_eq!(
        DefaultCollate.collate(vec![s(0), s(1), s(2), s(3), s(4), s(5)]),
        arr(&[0, 1, 2, 3, 4, 5])
    );
    assert_eq!(
        DefaultCollate.collate(vec![sf(0.), sf(1.), sf(2.), sf(3.), sf(4.), sf(5.)]),
        arrf(&[0., 1., 2., 3., 4., 5.])
    );
}

#[test]
fn scalar_scalar_type() {
    assert_eq!(
        DefaultCollate.collate(vec![s(0), s(1), s(2), s(3), s(4), s(5)]),
        arr(&[0, 1, 2, 3, 4, 5])
    );
    assert_eq!(
        DefaultCollate.collate(vec![sf(0.), sf(1.), sf(2.), sf(3.), sf(4.), sf(5.)]),
        arrf(&[0., 1., 2., 3., 4., 5.])
    );
}

#[test]
fn string_no_op() {
    assert_eq!(
        DefaultCollate.collate(vec![txt("a"), txt("b")]),
        texts(&["a", "b"])
    );
}

#[test]
fn tuple_vec_of_tuple() {
    assert_eq!(
        DefaultCollate.collate(vec![Value::Tuple(vec![s(1), s(2)])]),
        BatchValue::Tuple(vec![arr(&[1]), arr(&[2])])
    );
    assert_eq!(
        DefaultCollate.collate(vec![
            Value::Tuple(vec![sf(1.0), sf(2.0)]),
            Value::Tuple(vec![sf(3.0), sf(4.0)]),
        ]),
        BatchValue::Tuple(vec![arrf(&[1.0, 3.0]), arrf(&[2.0, 4.0])])
    );
    assert_eq!(
        DefaultCollate.collate(vec![
            Value::Tuple(vec![s(1), s(2)]),
            Value::Tuple(vec![s(3), s(4)]),
        ]),
        BatchValue::Tuple(vec![arr(&[1, 3]), arr(&[2, 4])])
    );
    assert_eq!(
        DefaultCollate.collate(vec![
            Value::Tuple(vec![s(-1), s(2)]),
            Value::Tuple(vec![s(3), s(4)]),
        ]),
        BatchValue::Tuple(vec![arr(&[-1, 3]), arr(&[2, 4])])
    );
    assert_eq!(
        DefaultCollate.collate(vec![
            Value::Tuple(vec![sf(1.0), sf(2.0)]),
            Value::Tuple(vec![sf(3.0), sf(4.0)]),
            Value::Tuple(vec![sf(5.0), sf(6.0)]),
        ]),
        BatchValue::Tuple(vec![arrf(&[1.0, 3.0, 5.0]), arrf(&[2.0, 4.0, 6.0])])
    );
}

#[test]
fn tuple_vec_of_tuple_with_len_1() {
    assert_eq!(
        DefaultCollate.collate(vec![Value::Tuple(vec![s(1)])]),
        BatchValue::Tuple(vec![arr(&[1])])
    );
}

#[test]
fn tuple_vec_of_tuple_with_len_2() {
    assert_eq!(
        DefaultCollate.collate(vec![Value::Tuple(vec![mi(1), mf(2.0)])]),
        BatchValue::Tuple(vec![marr(&[Mixed::I(1)]), marr(&[Mixed::F(2.0)])])
    );
    assert_eq!(
        DefaultCollate.collate(vec![
            Value::Tuple(vec![mi(1), mf(2.0)]),
            Value::Tuple(vec![mi(3), mf(4.0)]),
        ]),
        BatchValue::Tuple(vec![
            marr(&[Mixed::I(1), Mixed::I(3)]),
            marr(&[Mixed::F(2.0), Mixed::F(4.0)]),
        ])
    );
    assert_eq!(
        DefaultCollate.collate(vec![
            Value::Tuple(vec![mi(-1), mb(true)]),
            Value::Tuple(vec![mi(-3), mb(false)]),
        ]),
        BatchValue::Tuple(vec![
            marr(&[Mixed::I(-1), Mixed::I(-3)]),
            marr(&[Mixed::B(true), Mixed::B(false)]),
        ])
    );
    assert_eq!(
        DefaultCollate.collate(vec![
            Value::Tuple(vec![mi(-1), mb(true)]),
            Value::Tuple(vec![mi(3), mb(false)]),
        ]),
        BatchValue::Tuple(vec![
            marr(&[Mixed::I(-1), Mixed::I(3)]),
            marr(&[Mixed::B(true), Mixed::B(false)]),
        ])
    );
    assert_eq!(
        DefaultCollate.collate(vec![
            Value::Tuple(vec![mi(1), mf(2.0)]),
            Value::Tuple(vec![mi(3), mf(4.0)]),
            Value::Tuple(vec![mi(5), mf(6.0)]),
        ]),
        BatchValue::Tuple(vec![
            marr(&[Mixed::I(1), Mixed::I(3), Mixed::I(5)]),
            marr(&[Mixed::F(2.0), Mixed::F(4.0), Mixed::F(6.0)]),
        ])
    );
}

#[test]
fn tuple_vec_of_tuple_with_len_3() {
    assert_eq!(
        DefaultCollate.collate(vec![Value::Tuple(vec![mi(1), mf(2.0), mb(true)])]),
        BatchValue::Tuple(vec![
            marr(&[Mixed::I(1)]),
            marr(&[Mixed::F(2.0)]),
            marr(&[Mixed::B(true)]),
        ])
    );
    assert_eq!(
        DefaultCollate.collate(vec![
            Value::Tuple(vec![mi(1), mf(2.0), mb(true)]),
            Value::Tuple(vec![mi(3), mf(4.0), mb(true)]),
        ]),
        BatchValue::Tuple(vec![
            marr(&[Mixed::I(1), Mixed::I(3)]),
            marr(&[Mixed::F(2.0), Mixed::F(4.0)]),
            marr(&[Mixed::B(true), Mixed::B(true)]),
        ])
    );
    assert_eq!(
        DefaultCollate.collate(vec![
            Value::Tuple(vec![mi(1), mf(2.0), mb(true)]),
            Value::Tuple(vec![mi(3), mf(4.0), mb(false)]),
            Value::Tuple(vec![mi(5), mf(6.0), mb(true)]),
        ]),
        BatchValue::Tuple(vec![
            marr(&[Mixed::I(1), Mixed::I(3), Mixed::I(5)]),
            marr(&[Mixed::F(2.0), Mixed::F(4.0), Mixed::F(6.0)]),
            marr(&[Mixed::B(true), Mixed::B(false), Mixed::B(true)]),
        ])
    );
}

#[test]
fn vector_vec_of_vec() {
    assert_eq!(
        DefaultCollate.collate(vec![Value::Sequence(vec![s(1)])]),
        BatchValue::Sequence(vec![arr(&[1])])
    );
    assert_eq!(
        DefaultCollate.collate(vec![
            Value::Sequence(vec![s(1), s(2)]),
            Value::Sequence(vec![s(3), s(4)]),
        ]),
        BatchValue::Sequence(vec![arr(&[1, 3]), arr(&[2, 4])])
    );
    assert_eq!(
        DefaultCollate.collate(vec![
            Value::Sequence(vec![sb(true), sb(false)]),
            Value::Sequence(vec![sb(true), sb(false)]),
        ]),
        BatchValue::Sequence(vec![arrb(&[true, true]), arrb(&[false, false])])
    );
    assert_eq!(
        DefaultCollate.collate(vec![
            Value::Sequence(vec![s(1), s(2), s(3)]),
            Value::Sequence(vec![s(4), s(5), s(6)]),
        ]),
        BatchValue::Sequence(vec![arr(&[1, 4]), arr(&[2, 5]), arr(&[3, 6])])
    );
    assert_eq!(
        DefaultCollate.collate(vec![
            Value::Sequence(vec![s(1), s(2)]),
            Value::Sequence(vec![s(3), s(4)]),
            Value::Sequence(vec![s(5), s(6)]),
        ]),
        BatchValue::Sequence(vec![arr(&[1, 3, 5]), arr(&[2, 4, 6])])
    );
    assert_eq!(
        DefaultCollate.collate(vec![
            Value::Sequence(vec![s(1), s(2)]),
            Value::Sequence(vec![s(3), s(4)]),
            Value::Sequence(vec![s(5), s(6)]),
            Value::Sequence(vec![s(7), s(8)]),
            Value::Sequence(vec![s(9), s(10)]),
            Value::Sequence(vec![s(11), s(12)]),
            Value::Sequence(vec![s(13), s(14)]),
            Value::Sequence(vec![s(15), s(16)]),
            Value::Sequence(vec![s(17), s(18)]),
            Value::Sequence(vec![s(19), s(20)]),
        ]),
        BatchValue::Sequence(vec![
            arr(&[1, 3, 5, 7, 9, 11, 13, 15, 17, 19]),
            arr(&[2, 4, 6, 8, 10, 12, 14, 16, 18, 20]),
        ])
    );
}

#[test]
fn vector_specialized() {
    assert_eq!(
        DefaultCollate.collate(vec![
            Value::Sequence(vec![txt("a"), txt("b")]),
            Value::Sequence(vec![txt("c"), txt("d")]),
        ]),
        BatchValue::Sequence(vec![texts(&["a", "c"]), texts(&["b", "d"])])
    );
}

#[test]
fn map_specialized() {
    let map1 = Value::Mapping(vec![(key("A"), txt("0")), (key("B"), txt("1"))]);
    let map2 = Value::Mapping(vec![(key("A"), txt("100")), (key("B"), txt("100"))]);
    let expected_result = BatchValue::Mapping(vec![
        (key("A"), texts(&["0", "100"])),
        (key("B"), texts(&["1", "100"])),
    ]);
    assert_eq!(DefaultCollate.collate(vec![map1, map2]), expected_result);
}

#[test]
fn map_merge_ignores_key_order() {
    // The same key set listed in a different order merges by key, keyed in
    // first-sample order.
    let map1 = Value::Mapping(vec![(key("A"), s(1)), (key("B"), s(2))]);
    let map2 = Value::Mapping(vec![(key("B"), s(20)), (key("A"), s(10))]);
    let expected_result =
        BatchValue::Mapping(vec![(key("A"), arr(&[1, 10])), (key("B"), arr(&[2, 20]))]);
    assert_eq!(DefaultCollate.collate(vec![map1, map2]), expected_result);
}

#[test]
fn scalar_merge_first_element_round_trip() {
    // Merging scalar samples and taking the first array element recovers
    // the first sample.
    let merged = DefaultCollate.collate(vec![s(7), s(8), s(9)]);
    match merged {
        BatchValue::Array(xs) => assert_eq!(xs[0], 7),
        _ => panic!("scalar batch must merge into an array"),
    }
}

#[test]
fn tuple_merge_zip_round_trip() {
    // Merging tuples and zipping the merged components recovers the
    // original list of tuples.
    let original = vec![(1, 10), (2, 20), (3, 30)];
    let batch: Vec<Value<i32>> = original
        .iter()
        .map(|(a, b)| Value::Tuple(vec![s(*a), s(*b)]))
        .collect();
    let merged = DefaultCollate.collate(batch);
    match merged {
        BatchValue::Tuple(comps) => match (&comps[0], &comps[1]) {
            (BatchValue::Array(xs), BatchValue::Array(ys)) => {
                let zipped: Vec<(i32, i32)> =
                    xs.iter().zip(ys.iter()).map(|(a, b)| (*a, *b)).collect();
                assert_eq!(zipped, original);
            }
            _ => panic!("tuple components must merge into arrays"),
        },
        _ => panic!("tuple batch must merge into a tuple"),
    }
}

#[test]
fn sequence_specialized() {
    assert_eq!(
        DefaultCollate.collate(vec![
            Value::Sequence(vec![txt("a"), txt("b")]),
            Value::Sequence(vec![txt("c"), txt("d")]),
        ]),
        BatchValue::Sequence(vec![texts(&["a", "c"]), texts(&["b", "d"])])
    );
}

#[test]
fn collate_checked_accepts_uniform_batches() {
    let merged = DefaultCollate.collate_checked(vec![s(1), s(2), s(3)]);
    assert_eq!(merged, Some(arr(&[1, 2, 3])));
}

#[test]
fn collate_checked_rejects_ragged_sequences() {
    // Sequence samples of unequal lengths do not share a shape.
    let merged = DefaultCollate.collate_checked(vec![
        Value::Sequence(vec![s(1), s(2)]),
        Value::Sequence(vec![s(3)]),
    ]);
    assert_eq!(merged, None);
}

#[test]
fn collate_checked_rejects_empty_batches() {
    let merged = DefaultCollate.collate_checked(Vec::<Value<i32>>::new());
    assert_eq!(merged, None);
}

#[test]
fn collate_checked_rejects_mismatched_key_sets() {
    let map1 = Value::Mapping(vec![(key("A"), s(1))]);
    let map2 = Value::Mapping(vec![(key("B"), s(2))]);
    assert_eq!(DefaultCollate.collate_checked(vec![map1, map2]), None);
}

#[test]
fn collate_checked_rejects_duplicate_keys() {
    let map1 = Value::Mapping(vec![(key("A"), s(1)), (key("A"), s(2))]);
    let map2 = Value::Mapping(vec![(key("A"), s(3)), (key("A"), s(4))]);
    assert_eq!(DefaultCollate.collate_checked(vec![map1, map2]), None);
}
