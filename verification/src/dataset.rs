//! Datasets: random-access collections of samples.
use vstd::prelude::*;

use crate::collate::{key_view, value_view, BatchValue, MapKey, Value};

verus! {

/// Basic trait for anything that has a length.
pub trait Len {
    /// The length in the mathematical model.
    spec fn spec_len(&self) -> nat;

    /// Returns the number of elements in the collection, also referred to
    /// as its length.
    fn len(&self) -> (r: usize)
        ensures
            r == self.spec_len(),
    ;

    /// Returns `true` if the collection has no element.
    fn is_empty(&self) -> (r: bool)
        ensures
            r == (self.spec_len() == 0),
    ;
}

/// Cloning a sample, with the guarantee that the copy has the original's
/// model.
pub trait CloneSample: Sized + DeepView {
    /// Return a copy of the sample.
    fn clone_sample(&self) -> (r: Self)
        ensures
            r.deep_view() == self.deep_view(),
    ;
}

/// Returns a sample from the dataset at a given index.
pub trait GetSample {
    /// Type of one sample of the dataset.
    type Sample: DeepView;

    /// The models of the samples, in dataset order.
    spec fn spec_samples(&self) -> Seq<<Self::Sample as DeepView>::V>;

    /// Return the dataset sample corresponding to the index.
    fn get_sample(&self, index: usize) -> (r: Self::Sample)
        requires
            index < self.spec_samples().len(),
        ensures
            r.deep_view() == self.spec_samples()[index as int],
    ;
}

/// A dataset is just something that has a length and is indexable.
pub trait Dataset: Len + GetSample {
}

impl CloneSample for bool {
    fn clone_sample(&self) -> (r: bool) {
        *self
    }
}

impl CloneSample for char {
    fn clone_sample(&self) -> (r: char) {
        *self
    }
}

impl CloneSample for u8 {
    fn clone_sample(&self) -> (r: u8) {
        *self
    }
}

impl CloneSample for u32 {
    fn clone_sample(&self) -> (r: u32) {
        *self
    }
}

impl CloneSample for u64 {
    fn clone_sample(&self) -> (r: u64) {
        *self
    }
}

impl CloneSample for usize {
    fn clone_sample(&self) -> (r: usize) {
        *self
    }
}

impl CloneSample for i32 {
    fn clone_sample(&self) -> (r: i32) {
        *self
    }
}

impl CloneSample for i64 {
    fn clone_sample(&self) -> (r: i64) {
        *self
    }
}

impl CloneSample for String {
    fn clone_sample(&self) -> (r: String) {
        self.clone()
    }
}

impl CloneSample for MapKey {
    fn clone_sample(&self) -> (r: MapKey) {
        match self {
            MapKey::Int(i) => MapKey::Int(*i),
            MapKey::Text(s) => MapKey::Text(s.clone()),
        }
    }
}

impl<A: CloneSample, B: CloneSample> CloneSample for (A, B) {
    fn clone_sample(&self) -> (r: (A, B)) {
        (self.0.clone_sample(), self.1.clone_sample())
    }
}

impl<T: CloneSample> CloneSample for Vec<T> {
    fn clone_sample(&self) -> (r: Vec<T>)
        decreases self@.len(),
    {
        let mut out: Vec<T> = Vec::new();
        let n = self.len();
        let mut idx: usize = 0;
        while idx < n
            invariant
                idx <= n,
                n == self@.len(),
                out@.len() == idx,
                forall|i: int|
                    0 <= i < idx ==> (#[trigger] out@[i]).deep_view() == self@[i].deep_view(),
            decreases n - idx,
        {
            out.push(self[idx].clone_sample());
            idx += 1;
        }
        proof {
            assert(out.deep_view() =~= self.deep_view());
        }
        out
    }
}

impl<T: CloneSample> CloneSample for Value<T> {
    #[verifier::loop_isolation(false)]
    fn clone_sample(&self) -> (r: Value<T>)
        decreases self,
    {
        match self {
            Value::Scalar(t) => Value::Scalar(t.clone_sample()),
            Value::Text(s) => Value::Text(s.clone()),
            Value::Tuple(vs) => {
                let mut out: Vec<Value<T>> = Vec::new();
                let n = vs.len();
                let mut idx: usize = 0;
                while idx < n
                    invariant
                        idx <= n,
                        n == vs@.len(),
                        out@.len() == idx,
                        forall|i: int|
                            0 <= i < idx ==> value_view(#[trigger] out@[i]) == value_view(vs@[i]),
                    decreases n - idx,
                {
                    proof {
                        assert(decreases_to!(*self => vs@[idx as int])) by {
                            assert(*vs == (*self)->Tuple_0);
                            assert(decreases_to!(*self => (*self)->Tuple_0));
                            assert(decreases_to!((*self)->Tuple_0 => (*self)->Tuple_0@));
                            assert(decreases_to!((*self)->Tuple_0@ => (*self)->Tuple_0@[idx as int]));
                        }
                    }
                    out.push(vs[idx].clone_sample());
                    idx += 1;
                }
                let r = Value::Tuple(out);
                proof {
                    assert(value_view(r)->Tuple_0 =~= value_view(*self)->Tuple_0);
                }
                r
            },
            Value::Sequence(vs) => {
                let mut out: Vec<Value<T>> = Vec::new();
                let n = vs.len();
                let mut idx: usize = 0;
                while idx < n
                    invariant
                        idx <= n,
                        n == vs@.len(),
                        out@.len() == idx,
                        forall|i: int|
                            0 <= i < idx ==> value_view(#[trigger] out@[i]) == value_view(vs@[i]),
                    decreases n - idx,
                {
                    proof {
                        assert(decreases_to!(*self => vs@[idx as int])) by {
                            assert(*vs == (*self)->Sequence_0);
                            assert(decreases_to!(*self => (*self)->Sequence_0));
                            assert(decreases_to!((*self)->Sequence_0 => (*self)->Sequence_0@));
                            assert(decreases_to!((*self)->Sequence_0@ => (*self)->Sequence_0@[idx as int]));
                        }
                    }
                    out.push(vs[idx].clone_sample());
                    idx += 1;
                }
                let r = Value::Sequence(out);
                proof {
                    assert(value_view(r)->Sequence_0 =~= value_view(*self)->Sequence_0);
                }
                r
            },
            Value::Mapping(es) => {
                let mut out: Vec<(MapKey, Value<T>)> = Vec::new();
                let n = es.len();
                let mut idx: usize = 0;
                while idx < n
                    invariant
                        idx <= n,
                        n == es@.len(),
                        out@.len() == idx,
                        forall|i: int|
                            0 <= i < idx ==> key_view((#[trigger] out@[i]).0) == key_view(es@[i].0)
                                && value_view(out@[i].1) == value_view(es@[i].1),
                    decreases n - idx,
                {
                    proof {
                        assert(decreases_to!(*self => es@[idx as int].1)) by {
                            assert(*es == (*self)->Mapping_0);
                            assert(decreases_to!(*self => (*self)->Mapping_0));
                            assert(decreases_to!((*self)->Mapping_0 => (*self)->Mapping_0@));
                            assert(decreases_to!((*self)->Mapping_0@ => (*self)->Mapping_0@[idx as int]));
                            assert(decreases_to!((*self)->Mapping_0@[idx as int] => (*self)->Mapping_0@[idx as int].1));
                        }
                    }
                    let key = es[idx].0.clone_sample();
                    let val = es[idx].1.clone_sample();
                    out.push((key, val));
                    idx += 1;
                }
                let r = Value::Mapping(out);
                proof {
                    assert(value_view(r)->Mapping_0 =~= value_view(*self)->Mapping_0);
                }
                r
            },
        }
    }
}

impl<T: CloneSample> CloneSample for BatchValue<T> {
    #[verifier::loop_isolation(false)]
    fn clone_sample(&self) -> (r: BatchValue<T>)
        decreases self,
    {
        match self {
            BatchValue::Array(ts) => BatchValue::Array(ts.clone_sample()),
            BatchValue::Texts(ss) => {
                let cloned = ss.clone_sample();
                proof {
                    assert(cloned.deep_view() == ss.deep_view());
                    assert(cloned.deep_view().len() == cloned@.len());
                    assert(ss.deep_view().len() == ss@.len());
                    assert forall|i: int| 0 <= i < cloned@.len() implies (
                    #[trigger] cloned@[i])@ == ss@[i]@ by {
                        assert(cloned.deep_view()[i] == cloned@[i].deep_view());
                        assert(ss.deep_view()[i] == ss@[i].deep_view());
                    }
                }
                let r = BatchValue::Texts(cloned);
                proof {
                    assert(crate::collate::batch_view(r)->Texts_0 =~= crate::collate::batch_view(
                        *self,
                    )->Texts_0);
                }
                r
            },
            BatchValue::Tuple(bs) => {
                let mut out: Vec<BatchValue<T>> = Vec::new();
                let n = bs.len();
                let mut idx: usize = 0;
                while idx < n
                    invariant
                        idx <= n,
                        n == bs@.len(),
                        out@.len() == idx,
                        forall|i: int|
                            0 <= i < idx ==> crate::collate::batch_view(#[trigger] out@[i])
                                == crate::collate::batch_view(bs@[i]),
                    decreases n - idx,
                {
                    proof {
                        assert(decreases_to!(*self => bs@[idx as int])) by {
                            assert(*bs == (*self)->Tuple_0);
                            assert(decreases_to!(*self => (*self)->Tuple_0));
                            assert(decreases_to!((*self)->Tuple_0 => (*self)->Tuple_0@));
                            assert(decreases_to!((*self)->Tuple_0@ => (*self)->Tuple_0@[idx as int]));
                        }
                    }
                    out.push(bs[idx].clone_sample());
                    idx += 1;
                }
                let r = BatchValue::Tuple(out);
                proof {
                    assert(crate::collate::batch_view(r)->Tuple_0 =~= crate::collate::batch_view(
                        *self,
                    )->Tuple_0);
                }
                r
            },
            BatchValue::Sequence(bs) => {
                let mut out: Vec<BatchValue<T>> = Vec::new();
                let n = bs.len();
                let mut idx: usize = 0;
                while idx < n
                    invariant
                        idx <= n,
                        n == bs@.len(),
                        out@.len() == idx,
                        forall|i: int|
                            0 <= i < idx ==> crate::collate::batch_view(#[trigger] out@[i])
                                == crate::collate::batch_view(bs@[i]),
                    decreases n - idx,
                {
                    proof {
                        assert(decreases_to!(*self => bs@[idx as int])) by {
                            assert(*bs == (*self)->Sequence_0);
                            assert(decreases_to!(*self => (*self)->Sequence_0));
                            assert(decreases_to!((*self)->Sequence_0 => (*self)->Sequence_0@));
                            assert(decreases_to!((*self)->Sequence_0@ => (*self)->Sequence_0@[idx as int]));
                        }
                    }
                    out.push(bs[idx].clone_sample());
                    idx += 1;
                }
                let r = BatchValue::Sequence(out);
                proof {
                    assert(crate::collate::batch_view(r)->Sequence_0 =~= crate::collate::batch_view(
                        *self,
                    )->Sequence_0);
                }
                r
            },
            BatchValue::Mapping(es) => {
                let mut out: Vec<(MapKey, BatchValue<T>)> = Vec::new();
                let n = es.len();
                let mut idx: usize = 0;
                while idx < n
                    invariant
                        idx <= n,
                        n == es@.len(),
                        out@.len() == idx,
                        forall|i: int|
                            0 <= i < idx ==> key_view((#[trigger] out@[i]).0) == key_view(es@[i].0)
                                && crate::collate::batch_view(out@[i].1)
                                == crate::collate::batch_view(es@[i].1),
                    decreases n - idx,
                {
                    proof {
                        assert(decreases_to!(*self => es@[idx as int].1)) by {
                            assert(*es == (*self)->Mapping_0);
                            assert(decreases_to!(*self => (*self)->Mapping_0));
                            assert(decreases_to!((*self)->Mapping_0 => (*self)->Mapping_0@));
                            assert(decreases_to!((*self)->Mapping_0@ => (*self)->Mapping_0@[idx as int]));
                            assert(decreases_to!((*self)->Mapping_0@[idx as int] => (*self)->Mapping_0@[idx as int].1));
                        }
                    }
                    let key = es[idx].0.clone_sample();
                    let val = es[idx].1.clone_sample();
                    out.push((key, val));
                    idx += 1;
                }
                let r = BatchValue::Mapping(out);
                proof {
                    assert(crate::collate::batch_view(r)->Mapping_0 =~= crate::collate::batch_view(
                        *self,
                    )->Mapping_0);
                }
                r
            },
        }
    }
}

impl<T> Len for Vec<T> {
    open spec fn spec_len(&self) -> nat {
        self@.len()
    }

    fn len(&self) -> (r: usize) {
        self.len()
    }

    fn is_empty(&self) -> (r: bool) {
        self.len() == 0
    }
}

impl<T: CloneSample> GetSample for Vec<T> {
    type Sample = T;

    open spec fn spec_samples(&self) -> Seq<T::V> {
        self.deep_view()
    }

    fn get_sample(&self, index: usize) -> (r: T) {
        self[index].clone_sample()
    }
}

impl<T: CloneSample> Dataset for Vec<T> {

}

/// Returns an item of a collection at a given index; kept beside
/// [`GetSample`] for callers of the older indexing interface.
pub trait GetItem {
    /// Type of one item of the collection.
    type Output: DeepView;

    /// The models of the items, in collection order.
    spec fn spec_items(&self) -> Seq<<Self::Output as DeepView>::V>;

    /// Return the item corresponding to the index.
    fn get_item(&self, index: usize) -> (r: Self::Output)
        requires
            index < self.spec_items().len(),
        ensures
            r.deep_view() == self.spec_items()[index as int],
    ;
}

impl<T: CloneSample> GetItem for Vec<T> {
    type Output = T;

    open spec fn spec_items(&self) -> Seq<T::V> {
        self.deep_view()
    }

    fn get_item(&self, index: usize) -> (r: T) {
        self[index].clone_sample()
    }
}

/// Dataset over a pair of equally indexed columns, such as inputs and
/// labels: sample `i` is the pair of the `i`-th element of each column.
#[derive(Debug, PartialEq)]
pub struct NdarrayDataset<A1, A2> {
    /// The two columns: sample `i` pairs `ndarrays.0[i]` with `ndarrays.1[i]`.
    pub ndarrays: (Vec<A1>, Vec<A2>),
}

impl<A1, A2> Len for NdarrayDataset<A1, A2> {
    open spec fn spec_len(&self) -> nat {
        self.ndarrays.0@.len()
    }

    fn len(&self) -> (r: usize) {
        self.ndarrays.0.len()
    }

    fn is_empty(&self) -> (r: bool) {
        self.ndarrays.0.len() == 0
    }
}

impl<A1: CloneSample, A2: CloneSample> GetSample for NdarrayDataset<A1, A2> {
    type Sample = (A1, A2);

    open spec fn spec_samples(&self) -> Seq<(A1::V, A2::V)> {
        if self.ndarrays.0@.len() <= self.ndarrays.1@.len() {
            Seq::new(
                self.ndarrays.0@.len(),
                |i: int| (self.ndarrays.0@[i].deep_view(), self.ndarrays.1@[i].deep_view()),
            )
        } else {
            Seq::new(
                self.ndarrays.1@.len(),
                |i: int| (self.ndarrays.0@[i].deep_view(), self.ndarrays.1@[i].deep_view()),
            )
        }
    }

    fn get_sample(&self, index: usize) -> (r: (A1, A2)) {
        (self.ndarrays.0[index].clone_sample(), self.ndarrays.1[index].clone_sample())
    }
}

impl<A1: CloneSample, A2: CloneSample> GetItem for NdarrayDataset<A1, A2> {
    type Output = (A1, A2);

    open spec fn spec_items(&self) -> Seq<(A1::V, A2::V)> {
        self.spec_samples()
    }

    fn get_item(&self, index: usize) -> (r: (A1, A2)) {
        self.get_sample(index)
    }
}

impl<A1: CloneSample, A2: CloneSample> Dataset for NdarrayDataset<A1, A2> {

}


impl<T: CloneSample> Clone for Value<T> {
    fn clone(&self) -> (r: Value<T>)
        ensures
            value_view(r) == value_view(*self),
    {
        self.clone_sample()
    }
}

impl<T: CloneSample> Clone for BatchValue<T> {
    fn clone(&self) -> (r: BatchValue<T>)
        ensures
            crate::collate::batch_view(r) == crate::collate::batch_view(*self),
    {
        self.clone_sample()
    }
}

} // verus!
