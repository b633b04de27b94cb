//! Merges a list of samples to form a batch.
//!
//! Samples are modelled by the recursive [`Value`] type: scalar and textual
//! leaves, with tuples, fixed-length sequences and keyed maps as interior
//! nodes. The merge is structure-driven: scalars are gathered into one
//! array, tuples and sequences are merged component-wise, maps are merged
//! key by key, and textual leaves are kept as a plain ordered list.
use vstd::prelude::*;

verus! {

/// Key of a map-shaped sample: either an integer or a textual key.
#[derive(Clone, Debug, Eq, Hash)]
pub enum MapKey {
    /// An integer key.
    Int(i64),
    /// A textual key.
    Text(String),
}

/// One sample, shaped as a tree. The scalar payload type `T` is opaque to
/// the merge: scalars are moved into arrays, never read.
#[derive(Debug, PartialEq)]
pub enum Value<T> {
    /// A scalar leaf, merged into an array.
    Scalar(T),
    /// A textual leaf, kept as text by the merge.
    Text(String),
    /// A tuple of component values, merged component-wise.
    Tuple(Vec<Value<T>>),
    /// A fixed-length sequence of values, merged position-wise.
    Sequence(Vec<Value<T>>),
    /// A map from keys to values, merged key by key.
    Mapping(Vec<(MapKey, Value<T>)>),
}

/// The merge of a batch of same-shaped [`Value`]s: each scalar position
/// holds the array of the samples' scalars, each textual position the list
/// of the samples' texts, and the interior structure is unchanged.
#[derive(Debug, PartialEq)]
pub enum BatchValue<T> {
    /// The scalars of the batch at one scalar position, in batch order.
    Array(Vec<T>),
    /// The texts of the batch at one textual position, in batch order.
    Texts(Vec<String>),
    /// Component-wise merge of tuple-shaped samples.
    Tuple(Vec<BatchValue<T>>),
    /// Position-wise merge of sequence-shaped samples.
    Sequence(Vec<BatchValue<T>>),
    /// Key-by-key merge of map-shaped samples, keyed in first-sample order.
    Mapping(Vec<(MapKey, BatchValue<T>)>),
}

/// Mathematical model of a [`MapKey`].
pub enum KeyView {
    Int(i64),
    Text(Seq<char>),
}

/// Mathematical model of a [`Value`]: the same tree over `Seq`.
pub enum ValueView<T> {
    Scalar(T),
    Text(Seq<char>),
    Tuple(Seq<ValueView<T>>),
    Sequence(Seq<ValueView<T>>),
    Mapping(Seq<(KeyView, ValueView<T>)>),
}

/// Mathematical model of a [`BatchValue`]: the same tree over `Seq`.
pub enum BatchView<T> {
    Array(Seq<T>),
    Texts(Seq<Seq<char>>),
    Tuple(Seq<BatchView<T>>),
    Sequence(Seq<BatchView<T>>),
    Mapping(Seq<(KeyView, BatchView<T>)>),
}

impl PartialEq for MapKey {
    fn eq(&self, other: &MapKey) -> (r: bool)
        ensures
            r == (key_view(*self) == key_view(*other)),
    {
        match (self, other) {
            (MapKey::Int(a), MapKey::Int(b)) => a == b,
            (MapKey::Text(a), MapKey::Text(b)) => a.eq(b),
            _ => {
                proof {
                    assert(key_view(*self) != key_view(*other));
                }
                false
            },
        }
    }
}

impl vstd::std_specs::cmp::PartialEqSpecImpl for MapKey {
    open spec fn obeys_eq_spec() -> bool {
        true
    }

    open spec fn eq_spec(&self, other: &MapKey) -> bool {
        key_view(*self) == key_view(*other)
    }
}

/// Wraps a scalar payload the merge carries through untouched and the
/// model treats as opaque: the wrapped value is its own model. Payload
/// types the model cannot inspect, floating-point numbers among them, ride
/// through the pipeline in this wrapper.
#[derive(Debug, Clone, Copy, PartialEq)]
pub struct Opaque<T>(pub T);

impl<T> DeepView for Opaque<T> {
    type V = Opaque<T>;

    open spec fn deep_view(&self) -> Opaque<T> {
        *self
    }
}

impl<T: Copy> crate::dataset::CloneSample for Opaque<T> {
    fn clone_sample(&self) -> (r: Opaque<T>) {
        *self
    }
}

/// Model of a [`MapKey`].
pub open spec fn key_view(k: MapKey) -> KeyView {
    match k {
        MapKey::Int(i) => KeyView::Int(i),
        MapKey::Text(s) => KeyView::Text(s@),
    }
}

/// Model of a [`Value`].
pub open spec fn value_view<T: DeepView>(v: Value<T>) -> ValueView<T::V>
    decreases v, 1int,
{
    match v {
        Value::Scalar(t) => ValueView::Scalar(t.deep_view()),
        Value::Text(s) => ValueView::Text(s@),
        Value::Tuple(vs) => ValueView::Tuple(Seq::new(vs@.len(), |i: int| value_view_at(vs@, i))),
        Value::Sequence(vs) => ValueView::Sequence(
            Seq::new(vs@.len(), |i: int| value_view_at(vs@, i)),
        ),
        Value::Mapping(es) => ValueView::Mapping(
            Seq::new(es@.len(), |i: int| (key_view(es@[i].0), value_view_at_entry(es@, i))),
        ),
    }
}

/// Model of one element of a list of values.
pub open spec fn value_view_at<T: DeepView>(s: Seq<Value<T>>, i: int) -> ValueView<T::V>
    decreases s, 0int,
        when 0 <= i < s.len()
{
    value_view(s[i])
}

/// Model of the value of one entry of a list of map entries.
pub open spec fn value_view_at_entry<T: DeepView>(s: Seq<(MapKey, Value<T>)>, i: int) -> ValueView<
    T::V,
>
    decreases s, 0int,
        when 0 <= i < s.len()
{
    value_view(s[i].1)
}

/// The models of all values of a list, element-wise.
pub open spec fn value_views<T: DeepView>(s: Seq<Value<T>>) -> Seq<ValueView<T::V>> {
    Seq::new(s.len(), |i: int| value_view_at(s, i))
}

/// Model of a [`BatchValue`].
pub open spec fn batch_view<T: DeepView>(b: BatchValue<T>) -> BatchView<T::V>
    decreases b, 1int,
{
    match b {
        BatchValue::Array(ts) => BatchView::Array(ts.deep_view()),
        BatchValue::Texts(ss) => BatchView::Texts(Seq::new(ss@.len(), |i: int| ss@[i]@)),
        BatchValue::Tuple(bs) => BatchView::Tuple(
            Seq::new(bs@.len(), |i: int| batch_view_at(bs@, i)),
        ),
        BatchValue::Sequence(bs) => BatchView::Sequence(
            Seq::new(bs@.len(), |i: int| batch_view_at(bs@, i)),
        ),
        BatchValue::Mapping(es) => BatchView::Mapping(
            Seq::new(es@.len(), |i: int| (key_view(es@[i].0), batch_view_at_entry(es@, i))),
        ),
    }
}

/// Model of one element of a list of batch values.
pub open spec fn batch_view_at<T: DeepView>(s: Seq<BatchValue<T>>, i: int) -> BatchView<T::V>
    decreases s, 0int,
        when 0 <= i < s.len()
{
    batch_view(s[i])
}

/// Model of the value of one entry of a list of merged map entries.
pub open spec fn batch_view_at_entry<T: DeepView>(s: Seq<(MapKey, BatchValue<T>)>, i: int) -> BatchView<
    T::V,
>
    decreases s, 0int,
        when 0 <= i < s.len()
{
    batch_view(s[i].1)
}

impl DeepView for MapKey {
    type V = KeyView;

    open spec fn deep_view(&self) -> KeyView {
        key_view(*self)
    }
}

impl<T: DeepView> DeepView for Value<T> {
    type V = ValueView<T::V>;

    open spec fn deep_view(&self) -> ValueView<T::V> {
        value_view(*self)
    }
}

impl<T: DeepView> DeepView for BatchValue<T> {
    type V = BatchView<T::V>;

    open spec fn deep_view(&self) -> BatchView<T::V> {
        batch_view(*self)
    }
}

/// Position of the first entry with key `k`, or `-1` when no entry has it.
pub open spec fn key_index<V>(es: Seq<(KeyView, V)>, k: KeyView) -> int
    decreases es.len(),
{
    if es.len() == 0 {
        -1
    } else if es[0].0 == k {
        0
    } else if key_index(es.drop_first(), k) == -1 {
        -1
    } else {
        1 + key_index(es.drop_first(), k)
    }
}

/// No two entries share a key.
pub open spec fn distinct_keys<V>(es: Seq<(KeyView, V)>) -> bool {
    forall|i: int, j: int| 0 <= i < j < es.len() ==> (#[trigger] es[i]).0 != (#[trigger] es[j]).0
}

/// A well-formed sample: every map node has pairwise distinct keys.
pub open spec fn well_formed<T>(v: ValueView<T>) -> bool
    decreases v, 1int,
{
    match v {
        ValueView::Scalar(_) => true,
        ValueView::Text(_) => true,
        ValueView::Tuple(xs) => forall|i: int| #![trigger xs[i]]
            0 <= i < xs.len() ==> well_formed_at(xs, i),
        ValueView::Sequence(xs) => forall|i: int| #![trigger xs[i]]
            0 <= i < xs.len() ==> well_formed_at(xs, i),
        ValueView::Mapping(es) => distinct_keys(es) && forall|i: int| #![trigger es[i]]
            0 <= i < es.len() ==> well_formed_at_entry(es, i),
    }
}

/// Well-formedness of one element of a list of models.
pub open spec fn well_formed_at<T>(xs: Seq<ValueView<T>>, i: int) -> bool
    decreases xs, 0int,
        when 0 <= i < xs.len()
{
    well_formed(xs[i])
}

/// Well-formedness of the value of one map entry.
pub open spec fn well_formed_at_entry<T>(es: Seq<(KeyView, ValueView<T>)>, i: int) -> bool
    decreases es, 0int,
        when 0 <= i < es.len()
{
    well_formed(es[i].1)
}

/// Two samples have the same shape. Map nodes must carry the same key set,
/// in any order, with same-shaped values key by key.
pub open spec fn same_shape<T>(a: ValueView<T>, b: ValueView<T>) -> bool
    decreases a, 1int,
{
    match (a, b) {
        (ValueView::Scalar(_), ValueView::Scalar(_)) => true,
        (ValueView::Text(_), ValueView::Text(_)) => true,
        (ValueView::Tuple(xs), ValueView::Tuple(ys)) => xs.len() == ys.len() && forall|i: int|
            #![trigger xs[i]]
            0 <= i < xs.len() ==> same_shape_at(xs, ys, i),
        (ValueView::Sequence(xs), ValueView::Sequence(ys)) => xs.len() == ys.len() && forall|i: int|
            #![trigger xs[i]]
            0 <= i < xs.len() ==> same_shape_at(xs, ys, i),
        (ValueView::Mapping(xs), ValueView::Mapping(ys)) => {
            &&& xs.len() == ys.len()
            &&& (forall|j: int| 0 <= j < ys.len() ==> key_index(xs, (#[trigger] ys[j]).0) >= 0)
            &&& (forall|i: int| 0 <= i < xs.len() ==> key_index(ys, (#[trigger] xs[i]).0) >= 0)
            &&& (forall|i: int| #![trigger xs[i]] 0 <= i < xs.len() ==> same_shape_entry_at(xs, ys, i))
        },
        _ => false,
    }
}

/// Same shape of the `i`-th elements of two lists of models.
pub open spec fn same_shape_at<T>(xs: Seq<ValueView<T>>, ys: Seq<ValueView<T>>, i: int) -> bool
    decreases xs, 0int,
        when 0 <= i < xs.len()
{
    0 <= i < ys.len() && same_shape(xs[i], ys[i])
}

/// Same shape of the `i`-th entry of `xs` and the like-keyed entry of `ys`.
pub open spec fn same_shape_entry_at<T>(
    xs: Seq<(KeyView, ValueView<T>)>,
    ys: Seq<(KeyView, ValueView<T>)>,
    i: int,
) -> bool
    decreases xs, 0int,
        when 0 <= i < xs.len()
{
    {
        let j = key_index(ys, xs[i].0);
        0 <= j < ys.len() && same_shape(xs[i].1, ys[j].1)
    }
}

/// The merge of a batch holding one sample.
pub open spec fn singleton_merge<T>(v: ValueView<T>) -> BatchView<T>
    decreases v, 1int,
{
    match v {
        ValueView::Scalar(t) => BatchView::Array(seq![t]),
        ValueView::Text(s) => BatchView::Texts(seq![s]),
        ValueView::Tuple(xs) => BatchView::Tuple(
            Seq::new(xs.len(), |i: int| singleton_merge_at(xs, i)),
        ),
        ValueView::Sequence(xs) => BatchView::Sequence(
            Seq::new(xs.len(), |i: int| singleton_merge_at(xs, i)),
        ),
        ValueView::Mapping(es) => BatchView::Mapping(
            Seq::new(es.len(), |i: int| (es[i].0, singleton_merge_at_entry(es, i))),
        ),
    }
}

/// Singleton merge of one element of a list of models.
pub open spec fn singleton_merge_at<T>(xs: Seq<ValueView<T>>, i: int) -> BatchView<T>
    decreases xs, 0int,
        when 0 <= i < xs.len()
{
    singleton_merge(xs[i])
}

/// Singleton merge of the value of one map entry.
pub open spec fn singleton_merge_at_entry<T>(
    es: Seq<(KeyView, ValueView<T>)>,
    i: int,
) -> BatchView<T>
    decreases es, 0int,
        when 0 <= i < es.len()
{
    singleton_merge(es[i].1)
}

/// A further sample fits an already-merged batch: same structure, and every
/// key of the merged map nodes is found among the sample's distinct keys.
pub open spec fn fits<T>(b: BatchView<T>, w: ValueView<T>) -> bool
    decreases w, 1int,
{
    match (b, w) {
        (BatchView::Array(_), ValueView::Scalar(_)) => true,
        (BatchView::Texts(_), ValueView::Text(_)) => true,
        (BatchView::Tuple(bs), ValueView::Tuple(xs)) => bs.len() == xs.len() && forall|i: int|
            #![trigger xs[i]]
            0 <= i < xs.len() ==> fits_at(bs, xs, i),
        (BatchView::Sequence(bs), ValueView::Sequence(xs)) => bs.len() == xs.len() && forall|i: int|
            #![trigger xs[i]]
            0 <= i < xs.len() ==> fits_at(bs, xs, i),
        (BatchView::Mapping(bes), ValueView::Mapping(es)) => {
            &&& bes.len() == es.len()
            &&& distinct_keys(bes)
            &&& distinct_keys(es)
            &&& (forall|i: int| 0 <= i < bes.len() ==> key_index(es, (#[trigger] bes[i]).0) >= 0)
            &&& (forall|i: int| #![trigger bes[i]] 0 <= i < bes.len() ==> fits_entry_at(bes, es, i))
        },
        _ => false,
    }
}

/// Fit of the `i`-th elements of a merged list and a sample list.
pub open spec fn fits_at<T>(bs: Seq<BatchView<T>>, xs: Seq<ValueView<T>>, i: int) -> bool
    decreases xs, 0int,
        when 0 <= i < xs.len()
{
    0 <= i < bs.len() && fits(bs[i], xs[i])
}

/// Fit of the `i`-th merged entry and the like-keyed sample entry.
pub open spec fn fits_entry_at<T>(
    bes: Seq<(KeyView, BatchView<T>)>,
    es: Seq<(KeyView, ValueView<T>)>,
    i: int,
) -> bool
    decreases es, 0int,
        when 0 <= i < bes.len()
{
    {
        let j = key_index(es, bes[i].0);
        0 <= j < es.len() && fits(bes[i].1, es[j].1)
    }
}

/// The merge of one further sample into an already-merged batch: every leaf
/// list of the batch gains the sample's leaf at its position; map values
/// are looked up by the batch's key, wherever the sample holds them.
pub open spec fn push_merge<T>(b: BatchView<T>, w: ValueView<T>) -> BatchView<T>
    decreases w, 1int,
{
    match (b, w) {
        (BatchView::Array(ts), ValueView::Scalar(t)) => BatchView::Array(ts.push(t)),
        (BatchView::Texts(ss), ValueView::Text(s)) => BatchView::Texts(ss.push(s)),
        (BatchView::Tuple(bs), ValueView::Tuple(xs)) => BatchView::Tuple(
            Seq::new(bs.len(), |i: int| push_merge_at(bs, xs, i)),
        ),
        (BatchView::Sequence(bs), ValueView::Sequence(xs)) => BatchView::Sequence(
            Seq::new(bs.len(), |i: int| push_merge_at(bs, xs, i)),
        ),
        (BatchView::Mapping(bes), ValueView::Mapping(es)) => BatchView::Mapping(
            Seq::new(bes.len(), |i: int| (bes[i].0, push_merge_at_entry(bes, es, i))),
        ),
        (other, _) => other,
    }
}

/// Merge of the `i`-th elements of a merged list and a sample list.
pub open spec fn push_merge_at<T>(
    bs: Seq<BatchView<T>>,
    xs: Seq<ValueView<T>>,
    i: int,
) -> BatchView<T>
    decreases xs, 0int,
        when 0 <= i < xs.len()
{
    if 0 <= i < bs.len() {
        push_merge(bs[i], xs[i])
    } else {
        BatchView::Tuple(Seq::empty())
    }
}

/// Merge of the `i`-th merged entry with the like-keyed sample entry.
pub open spec fn push_merge_at_entry<T>(
    bes: Seq<(KeyView, BatchView<T>)>,
    es: Seq<(KeyView, ValueView<T>)>,
    i: int,
) -> BatchView<T>
    decreases es, 0int,
        when 0 <= i < bes.len()
{
    {
        let j = key_index(es, bes[i].0);
        if 0 <= j < es.len() {
            push_merge(bes[i].1, es[j].1)
        } else {
            bes[i].1
        }
    }
}

/// The merge of a non-empty batch of samples: the first sample's singleton
/// merge, extended with each further sample in batch order.
pub open spec fn batch_merge<T>(batch: Seq<ValueView<T>>) -> BatchView<T>
    decreases batch.len(),
        when batch.len() > 0
{
    if batch.len() == 1 {
        singleton_merge(batch[0])
    } else {
        push_merge(batch_merge(batch.drop_last()), batch.last())
    }
}

/// The merge is defined on a batch: it is non-empty, every sample is
/// well-formed, and all samples share the first sample's shape.
pub open spec fn mergeable<T>(batch: Seq<ValueView<T>>) -> bool {
    &&& batch.len() > 0
    &&& forall|i: int| 0 <= i < batch.len() ==> well_formed(#[trigger] batch[i])
    &&& forall|i: int| 0 <= i < batch.len() ==> same_shape(batch[0], #[trigger] batch[i])
}

/// `key_index` returns either `-1` or a position that carries the key; it
/// returns `-1` exactly when no entry carries the key.
pub proof fn lemma_key_index<V>(es: Seq<(KeyView, V)>, k: KeyView)
    ensures
        -1 <= key_index(es, k) < es.len(),
        key_index(es, k) >= 0 ==> es[key_index(es, k)].0 == k,
        key_index(es, k) == -1 ==> forall|i: int| 0 <= i < es.len() ==> (#[trigger] es[i]).0 != k,
    decreases es.len(),
{
    if es.len() > 0 && es[0].0 != k {
        lemma_key_index(es.drop_first(), k);
        assert forall|i: int| key_index(es, k) == -1 && 0 <= i < es.len() implies (
        #[trigger] es[i]).0 != k by {
            if i > 0 {
                assert(es.drop_first()[i - 1] == es[i]);
            }
        }
    }
}

/// With pairwise distinct keys, looking a key up finds its own position.
pub proof fn lemma_key_index_of_position<V>(es: Seq<(KeyView, V)>, i: int)
    requires
        distinct_keys(es),
        0 <= i < es.len(),
    ensures
        key_index(es, es[i].0) == i,
    decreases es.len(),
{
    if i > 0 {
        assert(es[0].0 != es[i].0);
        assert(distinct_keys(es.drop_first())) by {
            assert forall|p: int, q: int|
                0 <= p < q < es.drop_first().len() implies (#[trigger] es.drop_first()[p]).0 != (
            #[trigger] es.drop_first()[q]).0 by {
                assert(es.drop_first()[p] == es[p + 1]);
                assert(es.drop_first()[q] == es[q + 1]);
            }
        }
        lemma_key_index_of_position(es.drop_first(), i - 1);
        assert(es.drop_first()[i - 1] == es[i]);
    }
}

/// The singleton merge of a sample fits every well-formed sample of the
/// same shape.
pub proof fn lemma_singleton_fits<T>(v: ValueView<T>, w: ValueView<T>)
    requires
        well_formed(v),
        well_formed(w),
        same_shape(v, w),
    ensures
        fits(singleton_merge(v), w),
    decreases v,
{
    match (v, w) {
        (ValueView::Tuple(xs), ValueView::Tuple(ys)) => {
            assert forall|i: int| #![trigger ys[i]]
                0 <= i < ys.len() implies fits_at(singleton_merge(v)->Tuple_0, ys, i) by {
                assert(same_shape_at(xs, ys, i));
                assert(well_formed_at(xs, i));
                assert(well_formed_at(ys, i));
                lemma_singleton_fits(xs[i], ys[i]);
            }
        },
        (ValueView::Sequence(xs), ValueView::Sequence(ys)) => {
            assert forall|i: int| #![trigger ys[i]]
                0 <= i < ys.len() implies fits_at(singleton_merge(v)->Sequence_0, ys, i) by {
                assert(same_shape_at(xs, ys, i));
                assert(well_formed_at(xs, i));
                assert(well_formed_at(ys, i));
                lemma_singleton_fits(xs[i], ys[i]);
            }
        },
        (ValueView::Mapping(xs), ValueView::Mapping(ys)) => {
            let bes = singleton_merge(v)->Mapping_0;
            assert(distinct_keys(bes)) by {
                assert(forall|i: int| 0 <= i < bes.len() ==> (#[trigger] bes[i]).0 == xs[i].0);
            }
            assert forall|i: int| 0 <= i < bes.len() implies key_index(ys, (#[trigger] bes[i]).0)
                >= 0 by {
                let xi = xs[i];
                assert(key_index(ys, xs[i].0) >= 0);
            }
            assert forall|i: int| #![trigger bes[i]] 0 <= i < bes.len() implies fits_entry_at(
                bes,
                ys,
                i,
            ) by {
                let xi = xs[i];
                let j = key_index(ys, xs[i].0);
                lemma_key_index(ys, xs[i].0);
                assert(same_shape_entry_at(xs, ys, i));
                assert(well_formed_at_entry(xs, i));
                assert(well_formed_at_entry(ys, j));
                lemma_singleton_fits(xs[i].1, ys[j].1);
            }
        },
        _ => {},
    }
}

/// Merging a fitting sample into a batch changes no structure: whatever
/// fitted the batch before still fits it afterwards.
pub proof fn lemma_push_preserves_fits<T>(b: BatchView<T>, u: ValueView<T>, w: ValueView<T>)
    requires
        fits(b, u),
        fits(b, w),
    ensures
        fits(push_merge(b, u), w),
    decreases b,
{
    match b {
        BatchView::Tuple(bs) => {
            let xs = u->Tuple_0;
            let ys = w->Tuple_0;
            let bs2 = push_merge(b, u)->Tuple_0;
            assert forall|i: int| #![trigger ys[i]] 0 <= i < ys.len() implies fits_at(
                bs2,
                ys,
                i,
            ) by {
                let xi = xs[i];
                assert(fits_at(bs, xs, i));
                assert(fits_at(bs, ys, i));
                assert(bs2[i] == push_merge_at(bs, xs, i));
                lemma_push_preserves_fits(bs[i], xs[i], ys[i]);
            }
        },
        BatchView::Sequence(bs) => {
            let xs = u->Sequence_0;
            let ys = w->Sequence_0;
            let bs2 = push_merge(b, u)->Sequence_0;
            assert forall|i: int| #![trigger ys[i]] 0 <= i < ys.len() implies fits_at(
                bs2,
                ys,
                i,
            ) by {
                let xi = xs[i];
                assert(fits_at(bs, xs, i));
                assert(fits_at(bs, ys, i));
                assert(bs2[i] == push_merge_at(bs, xs, i));
                lemma_push_preserves_fits(bs[i], xs[i], ys[i]);
            }
        },
        BatchView::Mapping(bes) => {
            let es_u = u->Mapping_0;
            let es_w = w->Mapping_0;
            let bes2 = push_merge(b, u)->Mapping_0;
            assert(bes2.len() == bes.len());
            assert(distinct_keys(bes2)) by {
                assert(forall|i: int| 0 <= i < bes2.len() ==> (#[trigger] bes2[i]).0 == bes[i].0);
            }
            assert forall|i: int| 0 <= i < bes2.len() implies key_index(es_w, (#[trigger] bes2[i]).0)
                >= 0 by {
                assert(bes2[i].0 == bes[i].0);
                assert(key_index(es_w, bes[i].0) >= 0);
            }
            assert forall|i: int| #![trigger bes2[i]] 0 <= i < bes2.len() implies fits_entry_at(
                bes2,
                es_w,
                i,
            ) by {
                let bi = bes[i];
                assert(fits_entry_at(bes, es_u, i));
                assert(fits_entry_at(bes, es_w, i));
                assert(bes2[i] == (bes[i].0, push_merge_at_entry(bes, es_u, i)));
                let ju = key_index(es_u, bes[i].0);
                let jw = key_index(es_w, bes[i].0);
                lemma_push_preserves_fits(bes[i].1, es_u[ju].1, es_w[jw].1);
            }
        },
        _ => {},
    }
}

/// Models of a list of map entries, entry-wise.
pub open spec fn entry_views<T: DeepView>(s: Seq<(MapKey, Value<T>)>) -> Seq<
    (KeyView, ValueView<T::V>),
> {
    Seq::new(s.len(), |i: int| (key_view(s[i].0), value_view_at_entry(s, i)))
}

/// `key_index` finds the first position carrying the key.
pub proof fn lemma_key_index_first<V>(es: Seq<(KeyView, V)>, k: KeyView, i: int)
    requires
        0 <= i < es.len(),
        es[i].0 == k,
        forall|p: int| 0 <= p < i ==> (#[trigger] es[p]).0 != k,
    ensures
        key_index(es, k) == i,
    decreases i,
{
    if i > 0 {
        assert(es[0].0 != k);
        assert forall|p: int| 0 <= p < i - 1 implies (#[trigger] es.drop_first()[p]).0 != k by {
            assert(es.drop_first()[p] == es[p + 1]);
        }
        assert(es.drop_first()[i - 1] == es[i]);
        lemma_key_index_first(es.drop_first(), k, i - 1);
    }
}

#[verifier::loop_isolation(false)]
fn merge_singleton<T: DeepView>(v: Value<T>) -> (b: BatchValue<T>)
    ensures
        batch_view(b) == singleton_merge(value_view(v)),
    decreases v,
{
    let ghost v0 = v;
    match v {
        Value::Scalar(t) => {
            let ghost tv = t.deep_view();
            let ts = vec![t];
            let r = BatchValue::Array(ts);
            proof {
                assert(batch_view(r)->Array_0 =~= seq![tv]);
            }
            r
        },
        Value::Text(s) => {
            let ghost sv = s@;
            let ss = vec![s];
            proof {
                assert(Seq::new(ss@.len(), |i: int| ss@[i]@) =~= seq![sv]);
            }
            BatchValue::Texts(ss)
        },
        Value::Tuple(mut vs) => {
            proof {
                assert(v0 == Value::Tuple(vs));
            }
            let ghost orig = vs@;
            let mut parts: Vec<BatchValue<T>> = Vec::new();
            let n = vs.len();
            let mut idx: usize = 0;
            while idx < n
                invariant
                    idx <= n,
                    n == orig.len(),
                    vs@ == orig.subrange(idx as int, n as int),
                    parts@.len() == idx,
                    forall|i: int| #![trigger parts@[i]]
                        0 <= i < idx ==> batch_view(parts@[i]) == singleton_merge(
                            value_view(orig[i]),
                        ),
                decreases n - idx,
            {
                let x = vs.remove(0);
                proof {
                    assert(x == orig[idx as int]);
                    assert(decreases_to!(v0 => x)) by {
                        assert(orig == v0->Tuple_0@);
                        assert(decreases_to!(v0 => v0->Tuple_0));
                        assert(decreases_to!(v0->Tuple_0 => v0->Tuple_0@));
                        assert(decreases_to!(v0->Tuple_0@ => v0->Tuple_0@[idx as int]));
                    }
                    assert(vs@ == orig.subrange(idx as int + 1, n as int));
                }
                parts.push(merge_singleton(x));
                idx += 1;
            }
            let b = BatchValue::Tuple(parts);
            proof {
                let xs = value_view(v0)->Tuple_0;
                assert(batch_view(b)->Tuple_0 =~= singleton_merge(value_view(v0))->Tuple_0) by {
                    assert forall|i: int| 0 <= i < n implies batch_view_at(parts@, i)
                        == singleton_merge_at(xs, i) by {
                        assert(batch_view(parts@[i]) == singleton_merge(value_view(orig[i])));
                        assert(xs[i] == value_view_at(orig, i));
                    }
                }
            }
            b
        },
        Value::Sequence(mut vs) => {
            proof {
                assert(v0 == Value::Sequence(vs));
            }
            let ghost orig = vs@;
            let mut parts: Vec<BatchValue<T>> = Vec::new();
            let n = vs.len();
            let mut idx: usize = 0;
            while idx < n
                invariant
                    idx <= n,
                    n == orig.len(),
                    vs@ == orig.subrange(idx as int, n as int),
                    parts@.len() == idx,
                    forall|i: int| #![trigger parts@[i]]
                        0 <= i < idx ==> batch_view(parts@[i]) == singleton_merge(
                            value_view(orig[i]),
                        ),
                decreases n - idx,
            {
                let x = vs.remove(0);
                proof {
                    assert(x == orig[idx as int]);
                    assert(decreases_to!(v0 => x)) by {
                        assert(orig == v0->Sequence_0@);
                        assert(decreases_to!(v0 => v0->Sequence_0));
                        assert(decreases_to!(v0->Sequence_0 => v0->Sequence_0@));
                        assert(decreases_to!(v0->Sequence_0@ => v0->Sequence_0@[idx as int]));
                    }
                    assert(vs@ == orig.subrange(idx as int + 1, n as int));
                }
                parts.push(merge_singleton(x));
                idx += 1;
            }
            let b = BatchValue::Sequence(parts);
            proof {
                let xs = value_view(v0)->Sequence_0;
                assert(batch_view(b)->Sequence_0 =~= singleton_merge(value_view(v0))->Sequence_0)
                    by {
                    assert forall|i: int| 0 <= i < n implies batch_view_at(parts@, i)
                        == singleton_merge_at(xs, i) by {
                        assert(batch_view(parts@[i]) == singleton_merge(value_view(orig[i])));
                        assert(xs[i] == value_view_at(orig, i));
                    }
                }
            }
            b
        },
        Value::Mapping(mut es) => {
            proof {
                assert(v0 == Value::Mapping(es));
            }
            let ghost orig = es@;
            let mut parts: Vec<(MapKey, BatchValue<T>)> = Vec::new();
            let n = es.len();
            let mut idx: usize = 0;
            while idx < n
                invariant
                    idx <= n,
                    n == orig.len(),
                    es@ == orig.subrange(idx as int, n as int),
                    parts@.len() == idx,
                    forall|i: int| #![trigger parts@[i]]
                        0 <= i < idx ==> parts@[i].0 == orig[i].0 && batch_view(parts@[i].1)
                            == singleton_merge(value_view(orig[i].1)),
                decreases n - idx,
            {
                let e = es.remove(0);
                proof {
                    assert(e == orig[idx as int]);
                    assert(decreases_to!(v0 => e.1)) by {
                        assert(orig == v0->Mapping_0@);
                        assert(decreases_to!(v0 => v0->Mapping_0));
                        assert(decreases_to!(v0->Mapping_0 => v0->Mapping_0@));
                        assert(decreases_to!(v0->Mapping_0@ => v0->Mapping_0@[idx as int]));
                        assert(decreases_to!(v0->Mapping_0@[idx as int] => e.1));
                    }
                    assert(es@ == orig.subrange(idx as int + 1, n as int));
                }
                let merged = merge_singleton(e.1);
                parts.push((e.0, merged));
                idx += 1;
            }
            let b = BatchValue::Mapping(parts);
            proof {
                let xs = value_view(v0)->Mapping_0;
                assert(batch_view(b)->Mapping_0 =~= singleton_merge(value_view(v0))->Mapping_0) by {
                    assert forall|i: int| 0 <= i < n implies (
                    key_view(parts@[i].0),
                    batch_view_at_entry(parts@, i),
                    ) == (xs[i].0, singleton_merge_at_entry(xs, i)) by {
                        assert(parts@[i].0 == orig[i].0);
                        assert(batch_view(parts@[i].1) == singleton_merge(value_view(orig[i].1)));
                        assert(xs[i] == (key_view(orig[i].0), value_view_at_entry(orig, i)));
                    }
                }
            }
            b
        },
    }
}


/// Removing entry `j` by swapping the last entry into its place keeps the
/// keys distinct and every other entry reachable under its key.
pub proof fn lemma_swap_remove_entries<V>(es: Seq<(KeyView, V)>, j: int)
    requires
        distinct_keys(es),
        0 <= j < es.len(),
    ensures
        distinct_keys(es.update(j, es.last()).drop_last()),
        forall|k: KeyView|
            (k != es[j].0 && #[trigger] key_index(es, k) >= 0) ==> {
                let es2 = es.update(j, es.last()).drop_last();
                &&& key_index(es2, k) >= 0
                &&& es2[key_index(es2, k)] == es[key_index(es, k)]
            },
{
    let n = es.len();
    let es2 = es.update(j, es.last()).drop_last();
    assert(es2.len() == n - 1);
    assert forall|p: int, q: int|
        0 <= p < q < es2.len() implies (#[trigger] es2[p]).0 != (#[trigger] es2[q]).0 by {
        let p2: int = if p == j { n - 1 } else { p };
        let q2: int = if q == j { n - 1 } else { q };
        assert(es2[p] == es[p2]);
        assert(es2[q] == es[q2]);
        assert(p2 != q2);
    }
    assert forall|k: KeyView|
        (k != es[j].0 && #[trigger] key_index(es, k) >= 0) implies {
            &&& key_index(es2, k) >= 0
            &&& es2[key_index(es2, k)] == es[key_index(es, k)]
        } by {
        let p = key_index(es, k);
        lemma_key_index(es, k);
        assert(es[p].0 == k);
        assert(p != j);
        if p == n - 1 {
            assert(j < n - 1);
            assert(es2[j] == es[p]);
            lemma_key_index_of_position(es2, j);
        } else {
            assert(es2[p] == es[p]);
            lemma_key_index_of_position(es2, p);
        }
    }
}

fn find_key<T: DeepView>(es: &Vec<(MapKey, Value<T>)>, k: &MapKey) -> (r: usize)
    requires
        key_index(entry_views(es@), key_view(*k)) >= 0,
    ensures
        r == key_index(entry_views(es@), key_view(*k)),
        r < es@.len(),
{
    let ghost evs = entry_views(es@);
    proof {
        lemma_key_index(evs, key_view(*k));
    }
    let n = es.len();
    let mut idx: usize = 0;
    while idx < n
        invariant
            idx <= n,
            n == es@.len(),
            evs == entry_views(es@),
            key_index(evs, key_view(*k)) >= 0,
            forall|p: int| 0 <= p < idx ==> (#[trigger] evs[p]).0 != key_view(*k),
        decreases n - idx,
    {
        if es[idx].0.eq(k) {
            proof {
                assert(evs[idx as int].0 == key_view(*k));
                lemma_key_index_first(evs, key_view(*k), idx as int);
            }
            return idx;
        }
        proof {
            assert(evs[idx as int].0 != key_view(*k));
        }
        idx += 1;
    }
    proof {
        let p = key_index(evs, key_view(*k));
        assert(evs[p].0 == key_view(*k));
        assert(false);
    }
    0
}

#[verifier::loop_isolation(false)]
fn merge_push<T: DeepView>(b: BatchValue<T>, v: Value<T>) -> (r: BatchValue<T>)
    requires
        fits(batch_view(b), value_view(v)),
    ensures
        batch_view(r) == push_merge(batch_view(b), value_view(v)),
    decreases v,
{
    let ghost b0 = b;
    let ghost v0 = v;
    match (b, v) {
        (BatchValue::Array(mut ts), Value::Scalar(t)) => {
            let ghost tsv = ts.deep_view();
            let ghost tv = t.deep_view();
            ts.push(t);
            let r = BatchValue::Array(ts);
            proof {
                assert(batch_view(r)->Array_0 =~= tsv.push(tv));
            }
            r
        },
        (BatchValue::Texts(mut ss), Value::Text(s)) => {
            let ghost sv = s@;
            ss.push(s);
            let r = BatchValue::Texts(ss);
            proof {
                assert(batch_view(r)->Texts_0 =~= batch_view(b0)->Texts_0.push(sv));
            }
            r
        },
        (BatchValue::Tuple(mut bs), Value::Tuple(mut vs)) => {
            proof {
                assert(b0 == BatchValue::Tuple(bs));
                assert(v0 == Value::Tuple(vs));
            }
            let ghost borig = bs@;
            let ghost vorig = vs@;
            let ghost bview = batch_view(b0)->Tuple_0;
            let ghost vview = value_view(v0)->Tuple_0;
            let n = bs.len();
            let mut out: Vec<BatchValue<T>> = Vec::new();
            let mut idx: usize = 0;
            while idx < n
                invariant
                    idx <= n,
                    n == borig.len() && n == vorig.len(),
                    bs@ == borig.subrange(idx as int, n as int),
                    vs@ == vorig.subrange(idx as int, n as int),
                    out@.len() == idx,
                    forall|i: int| #![trigger out@[i]]
                        0 <= i < idx ==> batch_view(out@[i]) == push_merge(bview[i], vview[i]),
                decreases n - idx,
            {
                let bi = bs.remove(0);
                let vi = vs.remove(0);
                proof {
                    assert(bi == borig[idx as int]);
                    assert(vi == vorig[idx as int]);
                    assert(vview[idx as int] == value_view_at(vorig, idx as int));
                    assert(bview[idx as int] == batch_view_at(borig, idx as int));
                    assert(fits_at(bview, vview, idx as int));
                    assert(decreases_to!(v0 => vi)) by {
                        assert(vorig == v0->Tuple_0@);
                        assert(decreases_to!(v0 => v0->Tuple_0));
                        assert(decreases_to!(v0->Tuple_0 => v0->Tuple_0@));
                        assert(decreases_to!(v0->Tuple_0@ => v0->Tuple_0@[idx as int]));
                    }
                }
                out.push(merge_push(bi, vi));
                idx += 1;
            }
            let r = BatchValue::Tuple(out);
            proof {
                assert(batch_view(r)->Tuple_0 =~= push_merge(batch_view(b0), value_view(v0))->Tuple_0)
                    by {
                    assert forall|i: int| 0 <= i < n implies batch_view_at(out@, i) == push_merge_at(
                        bview,
                        vview,
                        i,
                    ) by {
                        assert(batch_view(out@[i]) == push_merge(bview[i], vview[i]));
                    }
                }
            }
            r
        },
        (BatchValue::Sequence(mut bs), Value::Sequence(mut vs)) => {
            proof {
                assert(b0 == BatchValue::Sequence(bs));
                assert(v0 == Value::Sequence(vs));
            }
            let ghost borig = bs@;
            let ghost vorig = vs@;
            let ghost bview = batch_view(b0)->Sequence_0;
            let ghost vview = value_view(v0)->Sequence_0;
            let n = bs.len();
            let mut out: Vec<BatchValue<T>> = Vec::new();
            let mut idx: usize = 0;
            while idx < n
                invariant
                    idx <= n,
                    n == borig.len() && n == vorig.len(),
                    bs@ == borig.subrange(idx as int, n as int),
                    vs@ == vorig.subrange(idx as int, n as int),
                    out@.len() == idx,
                    forall|i: int| #![trigger out@[i]]
                        0 <= i < idx ==> batch_view(out@[i]) == push_merge(bview[i], vview[i]),
                decreases n - idx,
            {
                let bi = bs.remove(0);
                let vi = vs.remove(0);
                proof {
                    assert(bi == borig[idx as int]);
                    assert(vi == vorig[idx as int]);
                    assert(vview[idx as int] == value_view_at(vorig, idx as int));
                    assert(bview[idx as int] == batch_view_at(borig, idx as int));
                    assert(fits_at(bview, vview, idx as int));
                    assert(decreases_to!(v0 => vi)) by {
                        assert(vorig == v0->Sequence_0@);
                        assert(decreases_to!(v0 => v0->Sequence_0));
                        assert(decreases_to!(v0->Sequence_0 => v0->Sequence_0@));
                        assert(decreases_to!(v0->Sequence_0@ => v0->Sequence_0@[idx as int]));
                    }
                }
                out.push(merge_push(bi, vi));
                idx += 1;
            }
            let r = BatchValue::Sequence(out);
            proof {
                assert(batch_view(r)->Sequence_0 =~= push_merge(
                    batch_view(b0),
                    value_view(v0),
                )->Sequence_0) by {
                    assert forall|i: int| 0 <= i < n implies batch_view_at(out@, i) == push_merge_at(
                        bview,
                        vview,
                        i,
                    ) by {
                        assert(batch_view(out@[i]) == push_merge(bview[i], vview[i]));
                    }
                }
            }
            r
        },
        (BatchValue::Mapping(mut bes), Value::Mapping(mut es)) => {
            proof {
                assert(b0 == BatchValue::Mapping(bes));
                assert(v0 == Value::Mapping(es));
            }
            let ghost besorig = bes@;
            let ghost esorig = es@;
            let ghost bview = batch_view(b0)->Mapping_0;
            let ghost eview = value_view(v0)->Mapping_0;
            proof {
                assert(entry_views(es@) =~= eview);
            }
            let n = bes.len();
            let mut out: Vec<(MapKey, BatchValue<T>)> = Vec::new();
            let mut idx: usize = 0;
            while idx < n
                invariant
                    idx <= n,
                    n == besorig.len(),
                    bes@ == besorig.subrange(idx as int, n as int),
                    out@.len() == idx,
                    distinct_keys(entry_views(es@)),
                    forall|q: int| 0 <= q < es@.len() ==> esorig.contains(#[trigger] es@[q]),
                    forall|i: int| #![trigger bview[i]]
                        idx <= i < n ==> {
                            let p = key_index(entry_views(es@), bview[i].0);
                            &&& p >= 0
                            &&& entry_views(es@)[p] == eview[key_index(eview, bview[i].0)]
                        },
                    forall|i: int| #![trigger out@[i]]
                        0 <= i < idx ==> key_view(out@[i].0) == bview[i].0 && batch_view(out@[i].1)
                            == push_merge_at_entry(bview, eview, i),
                decreases n - idx,
            {
                let e = bes.remove(0);
                let ghost evs = entry_views(es@);
                let ghost es_before = es@;
                proof {
                    assert(e == besorig[idx as int]);
                    assert(bview[idx as int] == (
                        key_view(besorig[idx as int].0),
                        batch_view_at_entry(besorig, idx as int),
                    ));
                }
                let j = find_key(&es, &e.0);
                let taken = es.swap_remove(j);
                let ghost jj = key_index(eview, bview[idx as int].0);
                proof {
                    lemma_key_index(eview, bview[idx as int].0);
                    assert(taken == es_before[j as int]);
                    assert(evs[j as int] == eview[jj]);
                    assert(evs[j as int].1 == value_view(es_before[j as int].1));
                    assert(value_view(taken.1) == eview[jj].1);
                    assert(fits_entry_at(bview, eview, idx as int));
                    assert(fits(batch_view(e.1), value_view(taken.1)));
                    assert(esorig.contains(es_before[j as int]));
                    let p = choose|p: int| 0 <= p < esorig.len() && esorig[p] == es_before[j as int];
                    assert(decreases_to!(v0 => taken.1)) by {
                        assert(esorig == v0->Mapping_0@);
                        assert(decreases_to!(v0 => v0->Mapping_0));
                        assert(decreases_to!(v0->Mapping_0 => v0->Mapping_0@));
                        assert(decreases_to!(v0->Mapping_0@ => v0->Mapping_0@[p]));
                        assert(decreases_to!(v0->Mapping_0@[p] => v0->Mapping_0@[p].1));
                    }
                }
                let merged = merge_push(e.1, taken.1);
                out.push((e.0, merged));
                idx += 1;
                proof {
                    let evs2 = entry_views(es@);
                    assert(evs2 =~= evs.update(j as int, evs.last()).drop_last()) by {
                        assert(es@ == es_before.update(j as int, es_before.last()).drop_last());
                        assert forall|q: int| 0 <= q < evs2.len() implies evs2[q] == evs.update(
                            j as int,
                            evs.last(),
                        ).drop_last()[q] by {
                            assert(es@[q] == es_before.update(
                                j as int,
                                es_before.last(),
                            ).drop_last()[q]);
                        }
                    }
                    lemma_swap_remove_entries(evs, j as int);
                    assert forall|q: int| 0 <= q < es@.len() implies esorig.contains(
                        #[trigger] es@[q],
                    ) by {
                        if q == j as int && q < es_before.len() - 1 {
                            assert(es@[q] == es_before.last());
                        } else {
                            assert(es@[q] == es_before[q]);
                        }
                    }
                    assert forall|i: int| #![trigger bview[i]]
                        idx <= i < n implies {
                            let p = key_index(evs2, bview[i].0);
                            &&& p >= 0
                            &&& evs2[p] == eview[key_index(eview, bview[i].0)]
                        } by {
                        assert(key_index(evs, bview[i].0) >= 0);
                        assert(bview[i].0 != bview[idx - 1].0);
                        assert(evs[j as int].0 == bview[idx - 1].0);
                    }
                }
            }
            let r = BatchValue::Mapping(out);
            proof {
                assert(batch_view(r)->Mapping_0 =~= push_merge(
                    batch_view(b0),
                    value_view(v0),
                )->Mapping_0) by {
                    assert forall|i: int| 0 <= i < n implies (
                        key_view(out@[i].0),
                        batch_view_at_entry(out@, i),
                    ) == (bview[i].0, push_merge_at_entry(bview, eview, i)) by {
                        assert(key_view(out@[i].0) == bview[i].0);
                        assert(batch_view(out@[i].1) == push_merge_at_entry(bview, eview, i));
                    }
                }
            }
            r
        },
        (other, _) => {
            proof {
                assert(false);
            }
            other
        },
    }
}


/// Any collate gathers the samples of one batch into one batch value.
///
/// A [`DefaultCollate`] implementation is provided which covers the
/// structure-driven merge; callers may substitute their own.
pub trait Collate<T: DeepView> {
    /// The type of the collate function's output.
    type Output: DeepView;

    /// The batches on which this collate is defined, as a predicate over
    /// the models of the samples.
    spec fn collate_pre(&self, batch: Seq<T::V>) -> bool;

    /// How the model of the output relates to the models of the samples.
    spec fn collate_post(&self, batch: Seq<T::V>, output: <Self::Output as DeepView>::V) -> bool;

    /// Take a batch of samples and collate them.
    fn collate(&self, batch: Vec<T>) -> (r: Self::Output)
        requires
            self.collate_pre(batch.deep_view()),
        ensures
            self.collate_post(batch.deep_view(), r.deep_view()),
    ;
}

/// Simple collate that keeps the batch of samples as it is.
#[derive(Default, Debug, Clone, PartialEq, Eq)]
pub struct NoOpCollate;

impl<T: DeepView> Collate<T> for NoOpCollate {
    type Output = Vec<T>;

    open spec fn collate_pre(&self, batch: Seq<T::V>) -> bool {
        true
    }

    open spec fn collate_post(&self, batch: Seq<T::V>, output: Seq<T::V>) -> bool {
        output == batch
    }

    fn collate(&self, batch: Vec<T>) -> (r: Vec<T>) {
        batch
    }
}

#[verifier::loop_isolation(false)]
fn merge_batch<T: DeepView>(batch: Vec<Value<T>>) -> (r: BatchValue<T>)
    requires
        mergeable(value_views(batch@)),
    ensures
        batch_view(r) == batch_merge(value_views(batch@)),
{
    let ghost views = value_views(batch@);
    let ghost borig = batch@;
    let n = batch.len();
    let mut rest = batch;
    let first = rest.remove(0);
    proof {
        assert(value_view(first) == views[0]);
        assert(batch_merge(views.subrange(0, 1)) == singleton_merge(views.subrange(0, 1)[0]));
    }
    let mut acc = merge_singleton(first);
    proof {
        assert(batch_view(acc) == batch_merge(views.subrange(0, 1)));
        assert forall|j: int| 1 <= j < n implies fits(batch_view(acc), #[trigger] views[j]) by {
            assert(well_formed(views[0]));
            assert(well_formed(views[j]));
            assert(same_shape(views[0], views[j]));
            lemma_singleton_fits(views[0], views[j]);
        }
    }
    let mut idx: usize = 1;
    while idx < n
        invariant
            1 <= idx <= n,
            n == views.len(),
            rest@ == borig.subrange(idx as int, n as int),
            batch_view(acc) == batch_merge(views.subrange(0, idx as int)),
            forall|j: int| idx <= j < n ==> fits(batch_view(acc), #[trigger] views[j]),
        decreases n - idx,
    {
        let x = rest.remove(0);
        proof {
            assert(x == borig[idx as int]);
            assert(value_view(x) == views[idx as int]);
        }
        let ghost acc_view = batch_view(acc);
        acc = merge_push(acc, x);
        proof {
            let prefix = views.subrange(0, idx as int);
            let prefix2 = views.subrange(0, idx as int + 1);
            assert(prefix2.drop_last() =~= prefix);
            assert(prefix2.last() == views[idx as int]);
            assert(batch_view(acc) == batch_merge(prefix2));
            assert forall|j: int| idx + 1 <= j < n implies fits(
                batch_view(acc),
                #[trigger] views[j],
            ) by {
                lemma_push_preserves_fits(acc_view, views[idx as int], views[j]);
            }
        }
        idx += 1;
    }
    proof {
        assert(views.subrange(0, n as int) =~= views);
    }
    acc
}

/// Default collate that merges a batch of same-shaped [`Value`]s into one
/// [`BatchValue`]: scalars into arrays, texts into lists, tuples and
/// sequences component-wise, maps key by key in first-sample key order.
#[derive(Debug, Clone, PartialEq, Eq)]
pub struct DefaultCollate;

impl Default for DefaultCollate {
    fn default() -> (r: DefaultCollate)
        ensures
            r == DefaultCollate,
    {
        DefaultCollate
    }
}

impl<T: DeepView> Collate<Value<T>> for DefaultCollate {
    type Output = BatchValue<T>;

    open spec fn collate_pre(&self, batch: Seq<ValueView<T::V>>) -> bool {
        mergeable(batch)
    }

    open spec fn collate_post(&self, batch: Seq<ValueView<T::V>>, output: BatchView<T::V>) -> bool {
        output == batch_merge(batch)
    }

    fn collate(&self, batch: Vec<Value<T>>) -> (r: BatchValue<T>) {
        proof {
            assert(batch.deep_view() =~= value_views(batch@));
        }
        merge_batch(batch)
    }
}

/// Any collector gathers a whole batch value into one output, given the
/// batch as one argument.
pub trait Collect<T> {
    /// The type of the collect function's output.
    type Output;

    /// The batches on which this collector is defined.
    spec fn collect_pre(batch: T) -> bool;

    /// How the output relates to the batch.
    spec fn collect_post(batch: T, output: Self::Output) -> bool;

    /// Collate the given batch.
    fn collect(batch: T) -> (r: Self::Output)
        requires
            Self::collect_pre(batch),
        ensures
            Self::collect_post(batch, r),
    ;
}

/// Collector that keeps the batch as it is.
#[derive(Default, Debug, Clone, PartialEq, Eq)]
pub struct NoOpCollector;

impl<T> Collect<T> for NoOpCollector {
    type Output = T;

    open spec fn collect_pre(batch: T) -> bool {
        true
    }

    open spec fn collect_post(batch: T, output: T) -> bool {
        output == batch
    }

    fn collect(batch: T) -> (r: T) {
        batch
    }
}

/// Collector form of the default merge: one associated function over the
/// whole batch.
#[derive(Default, Debug, Clone, PartialEq, Eq)]
pub struct DefaultCollector;

impl<T: DeepView> Collect<Vec<Value<T>>> for DefaultCollector {
    type Output = BatchValue<T>;

    open spec fn collect_pre(batch: Vec<Value<T>>) -> bool {
        mergeable(value_views(batch@))
    }

    open spec fn collect_post(batch: Vec<Value<T>>, output: BatchValue<T>) -> bool {
        batch_view(output) == batch_merge(value_views(batch@))
    }

    fn collect(batch: Vec<Value<T>>) -> (r: BatchValue<T>) {
        merge_batch(batch)
    }
}

/// Method-style alias of [`DefaultCollate`], kept for callers of the older
/// collator interface.
#[derive(Default, Debug, Clone, PartialEq, Eq)]
pub struct DefaultCollator;

impl<T: DeepView> Collate<Value<T>> for DefaultCollator {
    type Output = BatchValue<T>;

    open spec fn collate_pre(&self, batch: Seq<ValueView<T::V>>) -> bool {
        mergeable(batch)
    }

    open spec fn collate_post(&self, batch: Seq<ValueView<T::V>>, output: BatchView<T::V>) -> bool {
        output == batch_merge(batch)
    }

    fn collate(&self, batch: Vec<Value<T>>) -> (r: BatchValue<T>) {
        proof {
            assert(batch.deep_view() =~= value_views(batch@));
        }
        merge_batch(batch)
    }
}

/// Method-style alias of [`NoOpCollate`], kept for callers of the older
/// collator interface.
#[derive(Default, Debug, Clone, PartialEq, Eq)]
pub struct NoOpCollator;

impl<T: DeepView> Collate<T> for NoOpCollator {
    type Output = Vec<T>;

    open spec fn collate_pre(&self, batch: Seq<T::V>) -> bool {
        true
    }

    open spec fn collate_post(&self, batch: Seq<T::V>, output: Seq<T::V>) -> bool {
        output == batch
    }

    fn collate(&self, batch: Vec<T>) -> (r: Vec<T>) {
        batch
    }
}


/// LAW of scalar round-trip: the merge of a batch of scalar samples is
/// exactly the array of their scalars, in batch order — so taking any
/// position of the merged array recovers that sample, and in particular
/// the first element recovers the first sample.
pub proof fn lemma_scalar_merge_round_trip<T>(batch: Seq<ValueView<T>>)
    requires
        batch.len() >= 1,
        forall|i: int| 0 <= i < batch.len() ==> (#[trigger] batch[i]) is Scalar,
    ensures
        batch_merge(batch) == BatchView::<T>::Array(
            Seq::new(batch.len(), |i: int| batch[i]->Scalar_0),
        ),
    decreases batch.len(),
{
    if batch.len() == 1 {
        assert(Seq::new(batch.len(), |i: int| batch[i]->Scalar_0) =~= seq![batch[0]->Scalar_0]);
    } else {
        let prefix = batch.drop_last();
        assert forall|i: int| 0 <= i < prefix.len() implies (#[trigger] prefix[i]) is Scalar by {
            assert(prefix[i] == batch[i]);
        }
        lemma_scalar_merge_round_trip(prefix);
        assert(Seq::new(batch.len(), |i: int| batch[i]->Scalar_0) =~= Seq::new(
            prefix.len(),
            |i: int| prefix[i]->Scalar_0,
        ).push(batch.last()->Scalar_0));
    }
}

/// The column of one tuple component across a batch of tuple samples.
pub open spec fn tuple_column<T>(batch: Seq<ValueView<T>>, j: int) -> Seq<ValueView<T>> {
    Seq::new(batch.len(), |i: int| batch[i]->Tuple_0[j])
}

/// LAW of tuple round-trip: the merge of a batch of same-arity tuple
/// samples is the tuple of the merges of their columns — the element-wise
/// transpose — so zipping the merged components recovers the original
/// list of tuples.
pub proof fn lemma_tuple_merge_transpose<T>(batch: Seq<ValueView<T>>)
    requires
        batch.len() >= 1,
        forall|i: int|
            0 <= i < batch.len() ==> (#[trigger] batch[i]) is Tuple && batch[i]->Tuple_0.len()
                == batch[0]->Tuple_0.len(),
    ensures
        batch_merge(batch) is Tuple,
        batch_merge(batch)->Tuple_0.len() == batch[0]->Tuple_0.len(),
        forall|j: int|
            0 <= j < batch[0]->Tuple_0.len() ==> #[trigger] batch_merge(batch)->Tuple_0[j]
                == batch_merge(tuple_column(batch, j)),
    decreases batch.len(),
{
    let k = batch[0]->Tuple_0.len() as int;
    if batch.len() == 1 {
        let xs = batch[0]->Tuple_0;
        assert forall|j: int| 0 <= j < k implies #[trigger] batch_merge(batch)->Tuple_0[j]
            == batch_merge(tuple_column(batch, j)) by {
            let col = tuple_column(batch, j);
            assert(col.len() == 1);
            assert(col[0] == xs[j]);
            assert(batch_merge(col) == singleton_merge(xs[j]));
            assert(batch_merge(batch)->Tuple_0[j] == singleton_merge_at(xs, j));
        }
    } else {
        let prefix = batch.drop_last();
        let last = batch.last();
        assert forall|i: int|
            0 <= i < prefix.len() implies (#[trigger] prefix[i]) is Tuple && prefix[i]->Tuple_0.len()
            == prefix[0]->Tuple_0.len() by {
            assert(prefix[i] == batch[i]);
            assert(prefix[0] == batch[0]);
        }
        lemma_tuple_merge_transpose(prefix);
        let merged_prefix = batch_merge(prefix);
        let bs = merged_prefix->Tuple_0;
        let xs = last->Tuple_0;
        assert(batch_merge(batch) == push_merge(merged_prefix, last));
        assert forall|j: int| 0 <= j < k implies #[trigger] batch_merge(batch)->Tuple_0[j]
            == batch_merge(tuple_column(batch, j)) by {
            let col = tuple_column(batch, j);
            let col_prefix = tuple_column(prefix, j);
            assert(col.len() == batch.len());
            assert(col.drop_last() =~= col_prefix);
            assert(col.last() == xs[j]);
            assert(batch_merge(col) == push_merge(batch_merge(col_prefix), xs[j]));
            assert(bs[j] == batch_merge(col_prefix));
            assert(batch_merge(batch)->Tuple_0[j] == push_merge_at(bs, xs, j));
        }
    }
}


fn position_of_key<T: DeepView>(es: &Vec<(MapKey, Value<T>)>, k: &MapKey) -> (r: Option<usize>)
    ensures
        r matches Some(j) ==> j == key_index(entry_views(es@), key_view(*k)) && j < es@.len(),
        r is None ==> key_index(entry_views(es@), key_view(*k)) == -1,
{
    let ghost evs = entry_views(es@);
    let n = es.len();
    let mut idx: usize = 0;
    while idx < n
        invariant
            idx <= n,
            n == es@.len(),
            evs == entry_views(es@),
            forall|p: int| 0 <= p < idx ==> (#[trigger] evs[p]).0 != key_view(*k),
        decreases n - idx,
    {
        if es[idx].0.eq(k) {
            proof {
                assert(evs[idx as int].0 == key_view(*k));
                lemma_key_index_first(evs, key_view(*k), idx as int);
            }
            return Some(idx);
        }
        proof {
            assert(evs[idx as int].0 != key_view(*k));
        }
        idx += 1;
    }
    proof {
        lemma_key_index(evs, key_view(*k));
        if key_index(evs, key_view(*k)) >= 0 {
            assert(evs[key_index(evs, key_view(*k))].0 == key_view(*k));
            assert(false);
        }
    }
    None
}

fn entry_keys_distinct<T: DeepView>(es: &Vec<(MapKey, Value<T>)>) -> (r: bool)
    ensures
        r == distinct_keys(entry_views(es@)),
{
    let ghost evs = entry_views(es@);
    let n = es.len();
    let mut i: usize = 0;
    while i < n
        invariant
            i <= n,
            n == es@.len(),
            evs == entry_views(es@),
            forall|p: int, q: int| 0 <= p < q < n && p < i ==> (#[trigger] evs[p]).0 != (
            #[trigger] evs[q]).0,
        decreases n - i,
    {
        let mut j: usize = i + 1;
        while j < n
            invariant
                i < j <= n || (i + 1 == j && j <= n),
                i < n,
                n == es@.len(),
                evs == entry_views(es@),
                forall|q: int| i < q < j ==> (#[trigger] evs[q]).0 != evs[i as int].0,
            decreases n - j,
        {
            if es[i].0.eq(&es[j].0) {
                proof {
                    assert(evs[i as int].0 == evs[j as int].0);
                }
                return false;
            }
            proof {
                assert(evs[j as int].0 != evs[i as int].0);
            }
            j += 1;
        }
        i += 1;
    }
    true
}

/// Checks well-formedness at run time: every map node of the sample has
/// pairwise distinct keys.
#[verifier::loop_isolation(false)]
pub fn well_formed_exec<T: DeepView>(v: &Value<T>) -> (r: bool)
    ensures
        r == well_formed(value_view(*v)),
    decreases v,
{
    match v {
        Value::Scalar(_) => true,
        Value::Text(_) => true,
        Value::Tuple(vs) => {
            let ghost xs = value_view(*v)->Tuple_0;
            let n = vs.len();
            let mut i: usize = 0;
            while i < n
                invariant
                    i <= n,
                    forall|p: int| 0 <= p < i ==> well_formed(#[trigger] xs[p]),
                decreases n - i,
            {
                proof {
                    assert(decreases_to!(*v => vs@[i as int])) by {
                        assert(*vs == (*v)->Tuple_0);
                        assert(decreases_to!(*v => (*v)->Tuple_0));
                        assert(decreases_to!((*v)->Tuple_0 => (*v)->Tuple_0@));
                        assert(decreases_to!((*v)->Tuple_0@ => (*v)->Tuple_0@[i as int]));
                    }
                }
                if !well_formed_exec(&vs[i]) {
                    proof {
                        assert(xs[i as int] == value_view(vs@[i as int]));
                        assert(!well_formed_at(xs, i as int));
                    }
                    return false;
                }
                proof {
                    assert(xs[i as int] == value_view(vs@[i as int]));
                }
                i += 1;
            }
            true
        },
        Value::Sequence(vs) => {
            let ghost xs = value_view(*v)->Sequence_0;
            let n = vs.len();
            let mut i: usize = 0;
            while i < n
                invariant
                    i <= n,
                    forall|p: int| 0 <= p < i ==> well_formed(#[trigger] xs[p]),
                decreases n - i,
            {
                proof {
                    assert(decreases_to!(*v => vs@[i as int])) by {
                        assert(*vs == (*v)->Sequence_0);
                        assert(decreases_to!(*v => (*v)->Sequence_0));
                        assert(decreases_to!((*v)->Sequence_0 => (*v)->Sequence_0@));
                        assert(decreases_to!((*v)->Sequence_0@ => (*v)->Sequence_0@[i as int]));
                    }
                }
                if !well_formed_exec(&vs[i]) {
                    proof {
                        assert(xs[i as int] == value_view(vs@[i as int]));
                        assert(!well_formed_at(xs, i as int));
                    }
                    return false;
                }
                proof {
                    assert(xs[i as int] == value_view(vs@[i as int]));
                }
                i += 1;
            }
            true
        },
        Value::Mapping(es) => {
            let ghost xs = value_view(*v)->Mapping_0;
            proof {
                assert(xs =~= entry_views(es@));
            }
            if !entry_keys_distinct(es) {
                return false;
            }
            let n = es.len();
            let mut i: usize = 0;
            while i < n
                invariant
                    i <= n,
                    forall|p: int| 0 <= p < i ==> well_formed((#[trigger] xs[p]).1),
                decreases n - i,
            {
                proof {
                    assert(decreases_to!(*v => es@[i as int].1)) by {
                        assert(*es == (*v)->Mapping_0);
                        assert(decreases_to!(*v => (*v)->Mapping_0));
                        assert(decreases_to!((*v)->Mapping_0 => (*v)->Mapping_0@));
                        assert(decreases_to!((*v)->Mapping_0@ => (*v)->Mapping_0@[i as int]));
                        assert(decreases_to!((*v)->Mapping_0@[i as int] => (*v)->Mapping_0@[i as int].1));
                    }
                }
                if !well_formed_exec(&es[i].1) {
                    proof {
                        assert(xs[i as int].1 == value_view(es@[i as int].1));
                        assert(!well_formed_at_entry(xs, i as int));
                    }
                    return false;
                }
                proof {
                    assert(xs[i as int].1 == value_view(es@[i as int].1));
                }
                i += 1;
            }
            true
        },
    }
}

/// Checks at run time whether two samples share a shape, map key sets
/// included.
#[verifier::loop_isolation(false)]
pub fn same_shape_exec<T: DeepView>(a: &Value<T>, b: &Value<T>) -> (r: bool)
    ensures
        r == same_shape(value_view(*a), value_view(*b)),
    decreases a,
{
    match (a, b) {
        (Value::Scalar(_), Value::Scalar(_)) => true,
        (Value::Text(_), Value::Text(_)) => true,
        (Value::Tuple(xs), Value::Tuple(ys)) => {
            let ghost xsv = value_view(*a)->Tuple_0;
            let ghost ysv = value_view(*b)->Tuple_0;
            if xs.len() != ys.len() {
                return false;
            }
            let n = xs.len();
            let mut i: usize = 0;
            while i < n
                invariant
                    i <= n,
                    forall|p: int| 0 <= p < i ==> same_shape(#[trigger] xsv[p], ysv[p]),
                decreases n - i,
            {
                proof {
                    assert(decreases_to!(*a => xs@[i as int])) by {
                        assert(*xs == (*a)->Tuple_0);
                        assert(decreases_to!(*a => (*a)->Tuple_0));
                        assert(decreases_to!((*a)->Tuple_0 => (*a)->Tuple_0@));
                        assert(decreases_to!((*a)->Tuple_0@ => (*a)->Tuple_0@[i as int]));
                    }
                }
                if !same_shape_exec(&xs[i], &ys[i]) {
                    proof {
                        assert(xsv[i as int] == value_view(xs@[i as int]));
                        assert(ysv[i as int] == value_view(ys@[i as int]));
                        assert(!same_shape_at(xsv, ysv, i as int));
                    }
                    return false;
                }
                proof {
                    assert(xsv[i as int] == value_view(xs@[i as int]));
                    assert(ysv[i as int] == value_view(ys@[i as int]));
                }
                i += 1;
            }
            proof {
                assert forall|p: int| 0 <= p < xsv.len() implies same_shape_at(
                    xsv,
                    ysv,
                    #[trigger] marked_pos(p),
                ) by {
                    assert(same_shape(xsv[p], ysv[p]));
                }
                assert forall|p: int| #![trigger xsv[p]]
                    0 <= p < xsv.len() implies same_shape_at(xsv, ysv, p) by {
                    assert(marked_pos(p) == p);
                }
            }
            true
        },
        (Value::Sequence(xs), Value::Sequence(ys)) => {
            let ghost xsv = value_view(*a)->Sequence_0;
            let ghost ysv = value_view(*b)->Sequence_0;
            if xs.len() != ys.len() {
                return false;
            }
            let n = xs.len();
            let mut i: usize = 0;
            while i < n
                invariant
                    i <= n,
                    forall|p: int| 0 <= p < i ==> same_shape(#[trigger] xsv[p], ysv[p]),
                decreases n - i,
            {
                proof {
                    assert(decreases_to!(*a => xs@[i as int])) by {
                        assert(*xs == (*a)->Sequence_0);
                        assert(decreases_to!(*a => (*a)->Sequence_0));
                        assert(decreases_to!((*a)->Sequence_0 => (*a)->Sequence_0@));
                        assert(decreases_to!((*a)->Sequence_0@ => (*a)->Sequence_0@[i as int]));
                    }
                }
                if !same_shape_exec(&xs[i], &ys[i]) {
                    proof {
                        assert(xsv[i as int] == value_view(xs@[i as int]));
                        assert(ysv[i as int] == value_view(ys@[i as int]));
                        assert(!same_shape_at(xsv, ysv, i as int));
                    }
                    return false;
                }
                proof {
                    assert(xsv[i as int] == value_view(xs@[i as int]));
                    assert(ysv[i as int] == value_view(ys@[i as int]));
                }
                i += 1;
            }
            proof {
                assert forall|p: int| 0 <= p < xsv.len() implies same_shape_at(
                    xsv,
                    ysv,
                    #[trigger] marked_pos(p),
                ) by {
                    assert(same_shape(xsv[p], ysv[p]));
                }
                assert forall|p: int| #![trigger xsv[p]]
                    0 <= p < xsv.len() implies same_shape_at(xsv, ysv, p) by {
                    assert(marked_pos(p) == p);
                }
            }
            true
        },
        (Value::Mapping(xs), Value::Mapping(ys)) => {
            let ghost xsv = value_view(*a)->Mapping_0;
            let ghost ysv = value_view(*b)->Mapping_0;
            proof {
                assert(xsv =~= entry_views(xs@));
                assert(ysv =~= entry_views(ys@));
            }
            if xs.len() != ys.len() {
                return false;
            }
            let n = xs.len();
            let mut j: usize = 0;
            while j < n
                invariant
                    j <= n,
                    forall|p: int| 0 <= p < j ==> key_index(xsv, (#[trigger] ysv[p]).0) >= 0,
                decreases n - j,
            {
                match position_of_key(xs, &ys[j].0) {
                    Some(_) => {
                        proof {
                            assert(ysv[j as int].0 == key_view(ys@[j as int].0));
                        }
                    },
                    None => {
                        proof {
                            assert(ysv[j as int].0 == key_view(ys@[j as int].0));
                            assert(key_index(xsv, ysv[j as int].0) == -1);
                        }
                        return false;
                    },
                }
                j += 1;
            }
            let mut i: usize = 0;
            while i < n
                invariant
                    i <= n,
                    forall|p: int| 0 <= p < i ==> key_index(ysv, (#[trigger] xsv[p]).0) >= 0,
                    forall|p: int| 0 <= p < i ==> same_shape_entry_at(xsv, ysv, #[trigger] marked_pos(p)),
                decreases n - i,
            {
                proof {
                    assert(xsv[i as int].0 == key_view(xs@[i as int].0));
                }
                match position_of_key(ys, &xs[i].0) {
                    Some(jj) => {
                        proof {
                            assert(decreases_to!(*a => xs@[i as int].1)) by {
                                assert(*xs == (*a)->Mapping_0);
                                assert(decreases_to!(*a => (*a)->Mapping_0));
                                assert(decreases_to!((*a)->Mapping_0 => (*a)->Mapping_0@));
                                assert(decreases_to!((*a)->Mapping_0@ => (*a)->Mapping_0@[i as int]));
                                assert(decreases_to!((*a)->Mapping_0@[i as int] => (*a)->Mapping_0@[i as int].1));
                            }
                        }
                        if !same_shape_exec(&xs[i].1, &ys[jj].1) {
                            proof {
                                assert(xsv[i as int].1 == value_view(xs@[i as int].1));
                                assert(ysv[jj as int].1 == value_view(ys@[jj as int].1));
                                assert(!same_shape_entry_at(xsv, ysv, i as int));
                            }
                            return false;
                        }
                        proof {
                            assert(xsv[i as int].1 == value_view(xs@[i as int].1));
                            assert(ysv[jj as int].1 == value_view(ys@[jj as int].1));
                            assert(same_shape_entry_at(xsv, ysv, i as int));
                        }
                    },
                    None => {
                        return false;
                    },
                }
                i += 1;
            }
            proof {
                assert forall|p: int| #![trigger xsv[p]]
                    0 <= p < xsv.len() implies same_shape_entry_at(xsv, ysv, p) by {
                    assert(same_shape_entry_at(xsv, ysv, marked_pos(p)));
                }
            }
            true
        },
        _ => {
            proof {
                assert(!same_shape(value_view(*a), value_view(*b)));
            }
            false
        },
    }
}

/// Identity on positions: a named handle that quantified invariants
/// instantiate on, where the position itself carries no other function
/// application to serve as a matching pattern.
pub open spec fn marked_pos(i: int) -> int {
    i
}

/// Checks at run time whether the default merge is defined on a batch:
/// non-empty, every sample well-formed, all samples of the first sample's
/// shape.
#[verifier::loop_isolation(false)]
pub fn batch_mergeable<T: DeepView>(batch: &Vec<Value<T>>) -> (r: bool)
    ensures
        r == mergeable(value_views(batch@)),
{
    let ghost views = value_views(batch@);
    let n = batch.len();
    if n == 0 {
        return false;
    }
    let mut i: usize = 0;
    while i < n
        invariant
            i <= n,
            forall|p: int| 0 <= p < i ==> well_formed(#[trigger] views[p]),
        decreases n - i,
    {
        if !well_formed_exec(&batch[i]) {
            proof {
                assert(views[i as int] == value_view(batch@[i as int]));
            }
            return false;
        }
        proof {
            assert(views[i as int] == value_view(batch@[i as int]));
        }
        i += 1;
    }
    let mut i: usize = 0;
    while i < n
        invariant
            i <= n,
            forall|p: int| 0 <= p < i ==> same_shape(views[0], #[trigger] views[p]),
        decreases n - i,
    {
        if !same_shape_exec(&batch[0], &batch[i]) {
            proof {
                assert(views[0] == value_view(batch@[0]));
                assert(views[i as int] == value_view(batch@[i as int]));
            }
            return false;
        }
        proof {
            assert(views[0] == value_view(batch@[0]));
            assert(views[i as int] == value_view(batch@[i as int]));
        }
        i += 1;
    }
    true
}

impl DefaultCollate {
    /// Collate after checking: `Some` of the merge exactly when the merge
    /// is defined on the batch, `None` on any other batch.
    pub fn collate_checked<T: DeepView>(&self, batch: Vec<Value<T>>) -> (r: Option<
        BatchValue<T>,
    >)
        ensures
            mergeable(value_views(batch@)) ==> (r matches Some(out) && batch_view(out)
                == batch_merge(value_views(batch@))),
            !mergeable(value_views(batch@)) ==> r is None,
    {
        if batch_mergeable(&batch) {
            Some(merge_batch(batch))
        } else {
            None
        }
    }
}


/// Sharing a shape is symmetric between well-formed samples.
pub proof fn lemma_same_shape_sym<T>(a: ValueView<T>, b: ValueView<T>)
    requires
        well_formed(a),
        well_formed(b),
        same_shape(a, b),
    ensures
        same_shape(b, a),
    decreases a,
{
    match (a, b) {
        (ValueView::Tuple(xs), ValueView::Tuple(ys)) => {
            assert forall|i: int| #![trigger ys[i]]
                0 <= i < ys.len() implies same_shape_at(ys, xs, i) by {
                let xi = xs[i];
                assert(same_shape_at(xs, ys, i));
                assert(well_formed_at(xs, i));
                assert(well_formed_at(ys, i));
                lemma_same_shape_sym(xs[i], ys[i]);
            }
        },
        (ValueView::Sequence(xs), ValueView::Sequence(ys)) => {
            assert forall|i: int| #![trigger ys[i]]
                0 <= i < ys.len() implies same_shape_at(ys, xs, i) by {
                let xi = xs[i];
                assert(same_shape_at(xs, ys, i));
                assert(well_formed_at(xs, i));
                assert(well_formed_at(ys, i));
                lemma_same_shape_sym(xs[i], ys[i]);
            }
        },
        (ValueView::Mapping(xs), ValueView::Mapping(ys)) => {
            assert forall|i: int| #![trigger ys[i]]
                0 <= i < ys.len() implies same_shape_entry_at(ys, xs, i) by {
                let yi = ys[i];
                let ki = key_index(xs, ys[i].0);
                lemma_key_index(xs, ys[i].0);
                assert(xs[ki].0 == ys[i].0);
                assert(same_shape_entry_at(xs, ys, ki));
                let ji = key_index(ys, xs[ki].0);
                lemma_key_index_of_position(ys, i);
                assert(ji == i);
                assert(well_formed_at_entry(xs, ki));
                assert(well_formed_at_entry(ys, i));
                assert(decreases_to!(a => xs[ki].1)) by {
                    assert(decreases_to!(a => xs));
                    assert(decreases_to!(xs => xs[ki]));
                    assert(decreases_to!(xs[ki] => xs[ki].1));
                }
                lemma_same_shape_sym(xs[ki].1, ys[i].1);
            }
        },
        _ => {},
    }
}

/// Sharing a shape is transitive.
pub proof fn lemma_same_shape_trans<T>(a: ValueView<T>, b: ValueView<T>, c: ValueView<T>)
    requires
        same_shape(a, b),
        same_shape(b, c),
    ensures
        same_shape(a, c),
    decreases a,
{
    match (a, b, c) {
        (ValueView::Tuple(xs), ValueView::Tuple(ys), ValueView::Tuple(zs)) => {
            assert forall|i: int| #![trigger xs[i]]
                0 <= i < xs.len() implies same_shape_at(xs, zs, i) by {
                let yi = ys[i];
                assert(same_shape_at(xs, ys, i));
                assert(same_shape_at(ys, zs, i));
                lemma_same_shape_trans(xs[i], ys[i], zs[i]);
            }
        },
        (ValueView::Sequence(xs), ValueView::Sequence(ys), ValueView::Sequence(zs)) => {
            assert forall|i: int| #![trigger xs[i]]
                0 <= i < xs.len() implies same_shape_at(xs, zs, i) by {
                let yi = ys[i];
                assert(same_shape_at(xs, ys, i));
                assert(same_shape_at(ys, zs, i));
                lemma_same_shape_trans(xs[i], ys[i], zs[i]);
            }
        },
        (ValueView::Mapping(xs), ValueView::Mapping(ys), ValueView::Mapping(zs)) => {
            assert forall|j: int| 0 <= j < zs.len() implies key_index(xs, (#[trigger] zs[j]).0)
                >= 0 by {
                let jy = key_index(ys, zs[j].0);
                lemma_key_index(ys, zs[j].0);
                assert(ys[jy].0 == zs[j].0);
                assert(key_index(xs, ys[jy].0) >= 0);
            }
            assert forall|i: int| 0 <= i < xs.len() implies key_index(zs, (#[trigger] xs[i]).0)
                >= 0 by {
                let jb = key_index(ys, xs[i].0);
                lemma_key_index(ys, xs[i].0);
                assert(ys[jb].0 == xs[i].0);
                assert(key_index(zs, ys[jb].0) >= 0);
            }
            assert forall|i: int| #![trigger xs[i]]
                0 <= i < xs.len() implies same_shape_entry_at(xs, zs, i) by {
                let jb = key_index(ys, xs[i].0);
                lemma_key_index(ys, xs[i].0);
                assert(ys[jb].0 == xs[i].0);
                assert(same_shape_entry_at(xs, ys, i));
                assert(same_shape_entry_at(ys, zs, jb));
                let kc = key_index(zs, ys[jb].0);
                lemma_key_index(zs, ys[jb].0);
                assert(same_shape(xs[i].1, ys[jb].1));
                assert(same_shape(ys[jb].1, zs[kc].1));
                lemma_same_shape_trans(xs[i].1, ys[jb].1, zs[kc].1);
            }
        },
        _ => {},
    }
}

} // verus!
