//! The buffer handle and its copy-on-write protocol.
use crate::shared::{exclusive, share, share_count};
use std::sync::Arc;
use std::cmp::Ordering;
use vstd::std_specs::cmp::{PartialEqSpec, PartialOrdSpec};
use vstd::prelude::*;

verus! {

/// A fresh vector holding a copy of the first `len` elements of `src`.
fn copy_prefix<T: Copy>(src: &[T], len: usize) -> (r: Vec<T>)
    requires
        len <= src@.len(),
    ensures
        r@ == src@.subrange(0, len as int),
{
    let mut out: Vec<T> = Vec::with_capacity(len);
    let mut i: usize = 0;
    while i < len
        invariant
            0 <= i <= len <= src@.len(),
            out@ == src@.subrange(0, i as int),
        decreases len - i,
    {
        out.push(src[i]);
        i = i + 1;
    }
    out
}

/// How `a` compares with `b` in lexicographic order: elements are compared
/// pairwise from the front by their own `partial_cmp`, the first pair that is
/// not equal decides, and where one sequence is a prefix of the other the
/// shorter one comes first.
pub open spec fn lex_cmp<T: PartialOrd>(a: Seq<T>, b: Seq<T>) -> Option<Ordering>
    decreases a.len(),
{
    if a.len() == 0 {
        if b.len() == 0 {
            Some(Ordering::Equal)
        } else {
            Some(Ordering::Less)
        }
    } else if b.len() == 0 {
        Some(Ordering::Greater)
    } else {
        match a[0].partial_cmp_spec(&b[0]) {
            Some(Ordering::Equal) => lex_cmp(a.drop_first(), b.drop_first()),
            other => other,
        }
    }
}

/// A handle to a shared, reference-counted sequence of `T`.
pub struct ArcBuffer<T> {
    inner: Arc<Vec<T>>,
}

impl<T> View for ArcBuffer<T> {
    type V = Seq<T>;

    /// The elements this handle reads, in order.
    closed spec fn view(&self) -> Seq<T> {
        self.inner@
    }
}

impl<T> ArcBuffer<T> {
    /// An empty buffer whose allocation no other handle shares.
    pub fn new() -> (r: Self)
        ensures
            r@ == Seq::<T>::empty(),
    {
        ArcBuffer { inner: Arc::new(Vec::new()) }
    }

    /// An empty buffer with room reserved for at least `cap` elements.
    pub fn with_capacity(cap: usize) -> (r: Self)
        ensures
            r@ == Seq::<T>::empty(),
    {
        ArcBuffer { inner: Arc::new(Vec::with_capacity(cap)) }
    }

    /// Takes over the elements of an owned vector; each element moves into
    /// the buffer once, so none is dropped twice and none is lost.
    pub fn from_vec(src: Vec<T>) -> (r: Self)
        ensures
            r@ == src@,
    {
        ArcBuffer { inner: Arc::new(src) }
    }

    /// Takes over the elements of an owned boxed slice.
    pub fn from_boxed_slice(src: Box<[T]>) -> (r: Self)
        ensures
            r@ == src@,
    {
        Self::from_vec(src.into_vec())
    }

    /// The number of elements.
    pub fn len(&self) -> (r: usize)
        ensures
            r == self@.len(),
    {
        self.inner.len()
    }

    /// The elements as a slice.
    pub fn as_slice(&self) -> (r: &[T])
        ensures
            r@ == self@,
    {
        let v: &Vec<T> = &*self.inner;
        v.as_slice()
    }

    /// The element at `index`.
    pub fn index(&self, index: usize) -> (r: &T)
        requires
            index < self@.len(),
        ensures
            *r == self@[index as int],
    {
        let v: &Vec<T> = &*self.inner;
        &v[index]
    }
}

impl<T: Copy> ArcBuffer<T> {
    /// Gives this handle an allocation that no other handle shares, copying
    /// the elements into a fresh one if the current allocation is shared,
    /// and hands out the elements for mutation.
    fn inner_unique(&mut self) -> (r: &mut Vec<T>)
        ensures
            r@ == old(self)@,
            final(self)@ == final(r)@,
    {
        if share_count(&self.inner) > 1 {
            let temp = self.copy_to_new();
            *self = temp;
        }
        exclusive(&mut self.inner)
    }

    /// A buffer with its own allocation, holding the same elements.
    pub fn copy_to_new(&self) -> (r: Self)
        ensures
            r@ == self@,
    {
        Self::copy_from_slice(self.as_slice())
    }

    /// A buffer with its own allocation, holding a copy of `src`.
    pub fn copy_from_slice(src: &[T]) -> (r: Self)
        ensures
            r@ == src@,
    {
        let r = Self::copy_from_ptr_unsafe(src, src.len());
        proof {
            assert(src@.subrange(0, src@.len() as int) =~= src@);
        }
        r
    }

    /// A buffer with its own allocation, holding a bulk copy of the first
    /// `len` elements of `src`. That `len` elements can be read there is a
    /// precondition, checked where the call is made, rather than a promise
    /// taken on trust.
    pub fn copy_from_ptr_unsafe(src: &[T], len: usize) -> (r: Self)
        requires
            len <= src@.len(),
        ensures
            r@ == src@.subrange(0, len as int),
    {
        ArcBuffer { inner: Arc::new(copy_prefix(src, len)) }
    }

    /// A buffer of `len` copies of `value`.
    pub fn filled(value: T, len: usize) -> (r: Self)
        ensures
            r@ == Seq::new(len as nat, |i: int| value),
    {
        let mut uninit = ArcBuffer::<Option<T>>::new_uninit(len);
        let mut i: usize = 0;
        while i < len
            invariant
                0 <= i <= len,
                uninit@.len() == len,
                forall|j: int| 0 <= j < i ==> #[trigger] uninit@[j] == Some(value),
            decreases len - i,
        {
            uninit.write(i, value);
            i = i + 1;
        }
        let r = uninit.assume_init();
        proof {
            assert(r@ =~= Seq::new(len as nat, |i: int| value));
        }
        r
    }

    /// An owned vector holding a copy of the elements.
    pub fn to_vec(&self) -> (r: Vec<T>)
        ensures
            r@ == self@,
    {
        let src = self.as_slice();
        let out = copy_prefix(src, src.len());
        proof {
            assert(src@.subrange(0, src@.len() as int) =~= src@);
        }
        out
    }

    /// The elements, for mutation in place.
    pub fn make_mut(&mut self) -> (r: &mut [T])
        ensures
            r@ == old(self)@,
            final(self)@ == final(r)@,
    {
        self.inner_unique().as_mut_slice()
    }

    /// Appends `value`.
    pub fn push(&mut self, value: T)
        ensures
            final(self)@ == old(self)@.push(value),
    {
        self.inner_unique().push(value);
    }

    /// Removes and returns the last element, or `None` when empty.
    pub fn pop(&mut self) -> (r: Option<T>)
        ensures
            old(self)@.len() > 0 ==> r == Some(old(self)@.last())
                && final(self)@ == old(self)@.drop_last(),
            old(self)@.len() == 0 ==> r is None && final(self)@ == old(self)@,
    {
        self.inner_unique().pop()
    }

    /// Inserts `value` at `index`, shifting the later elements right.
    pub fn insert(&mut self, index: usize, value: T)
        requires
            index <= old(self)@.len(),
        ensures
            final(self)@ == old(self)@.insert(index as int, value),
    {
        self.inner_unique().insert(index, value);
    }

    /// Removes and returns the element at `index`, shifting the later
    /// elements left; `None`, with nothing changed, when there is none.
    pub fn remove(&mut self, index: usize) -> (r: Option<T>)
        ensures
            index < old(self)@.len() ==> r == Some(old(self)@[index as int])
                && final(self)@ == old(self)@.remove(index as int),
            index >= old(self)@.len() ==> r is None && final(self)@ == old(self)@,
    {
        if index < self.len() {
            Some(self.inner_unique().remove(index))
        } else {
            None
        }
    }

    /// Removes and returns the element at `index`, moving the last element
    /// into its place; `None`, with nothing changed, when there is none.
    pub fn swap_remove(&mut self, index: usize) -> (r: Option<T>)
        ensures
            index < old(self)@.len() ==> r == Some(old(self)@[index as int])
                && final(self)@ == old(self)@.update(index as int, old(self)@.last()).drop_last(),
            index >= old(self)@.len() ==> r is None && final(self)@ == old(self)@,
    {
        if index < self.len() {
            Some(self.inner_unique().swap_remove(index))
        } else {
            None
        }
    }

    /// Appends a copy of every element of `src`, in order.
    pub fn extend_from_slice(&mut self, src: &[T])
        ensures
            final(self)@ == old(self)@ + src@,
    {
        let v = self.inner_unique();
        let ghost start = v@;
        let mut i: usize = 0;
        while i < src.len()
            invariant
                0 <= i <= src@.len(),
                v@ == start + src@.subrange(0, i as int),
            decreases src@.len() - i,
        {
            v.push(src[i]);
            i = i + 1;
            proof {
                assert(v@ =~= start + src@.subrange(0, i as int));
            }
        }
        proof {
            assert(src@.subrange(0, src@.len() as int) =~= src@);
        }
    }

    /// Replaces the element at `index` with `value`.
    pub fn set(&mut self, index: usize, value: T)
        requires
            index < old(self)@.len(),
        ensures
            final(self)@ == old(self)@.update(index as int, value),
    {
        self.inner_unique().set(index, value);
    }

    /// Appends every element that `src` holds, in order.
    pub fn extend(&mut self, src: Vec<T>)
        ensures
            final(self)@ == old(self)@ + src@,
    {
        self.extend_from_slice(src.as_slice());
    }

    /// A consuming iterator, which copies each element out in turn.
    pub fn into_iter(self) -> (r: IntoIter<T>)
        ensures
            r.well_formed(),
            r@ == self@,
    {
        proof {
            assert(self@.subrange(0, self@.len() as int) =~= self@);
        }
        IntoIter { inner: self, index: 0 }
    }
}

/// Iterates over a buffer by copying each element out, without taking the
/// allocation away from other handles that share it.
pub struct IntoIter<T> {
    inner: ArcBuffer<T>,
    index: usize,
}

impl<T> View for IntoIter<T> {
    type V = Seq<T>;

    /// The elements that are still to come.
    closed spec fn view(&self) -> Seq<T> {
        self.inner@.subrange(self.index as int, self.inner@.len() as int)
    }
}

impl<T> IntoIter<T> {
    /// Whether the position lies within the buffer.
    pub closed spec fn well_formed(&self) -> bool {
        self.index <= self.inner@.len()
    }
}

impl<T: Copy> IntoIter<T> {
    /// The next element, or `None` once all have been handed out.
    pub fn next(&mut self) -> (r: Option<T>)
        requires
            old(self).well_formed(),
        ensures
            final(self).well_formed(),
            old(self)@.len() > 0 ==> r == Some(old(self)@[0]) && final(self)@ == old(self)@.drop_first(),
            old(self)@.len() == 0 ==> r is None && final(self)@ == old(self)@,
    {
        if self.index < self.inner.len() {
            let index = self.index;
            self.index = self.index + 1;
            Some(*self.inner.index(index))
        } else {
            None
        }
    }

    /// The number of elements still to come, as a lower and an upper bound.
    pub fn size_hint(&self) -> (r: (usize, Option<usize>))
        requires
            self.well_formed(),
        ensures
            r.0 == self@.len(),
            r.1 == Some(self@.len() as usize),
    {
        let size = self.inner.len() - self.index;
        (size, Some(size))
    }
}

/// The slots of a buffer under construction: `None` is a slot that has not
/// been written yet.
impl<T: PartialEq> ArcBuffer<T> {
    /// Whether this buffer holds the same elements as `rhs`, in the same
    /// order, as the elements' own `==` judges them.
    pub fn eq(&self, rhs: &[T]) -> (r: bool)
        ensures
            T::obeys_eq_spec() ==> (r <==> self@.len() == rhs@.len() && forall|i: int|
                0 <= i < rhs@.len() ==> #[trigger] self@[i].eq_spec(&rhs@[i])),
    {
        let lhs = self.as_slice();
        if lhs.len() != rhs.len() {
            return false;
        }
        let mut i: usize = 0;
        while i < rhs.len()
            invariant
                0 <= i <= rhs@.len(),
                lhs@ == self@,
                lhs@.len() == rhs@.len(),
                T::obeys_eq_spec() ==> forall|j: int| 0 <= j < i ==> #[trigger] lhs@[j].eq_spec(&rhs@[j]),
            decreases rhs@.len() - i,
        {
            if !lhs[i].eq(&rhs[i]) {
                return false;
            }
            i = i + 1;
        }
        true
    }

    /// The negation of [`ArcBuffer::eq`].
    pub fn ne(&self, rhs: &[T]) -> (r: bool)
        ensures
            T::obeys_eq_spec() ==> (r <==> !(self@.len() == rhs@.len() && forall|i: int|
                0 <= i < rhs@.len() ==> #[trigger] self@[i].eq_spec(&rhs@[i]))),
    {
        !self.eq(rhs)
    }
}

impl<T: PartialOrd> ArcBuffer<T> {
    /// How this buffer compares with `rhs` in lexicographic order.
    pub fn partial_cmp(&self, rhs: &[T]) -> (r: Option<Ordering>)
        ensures
            T::obeys_partial_cmp_spec() ==> r == lex_cmp(self@, rhs@),
    {
        let lhs = self.as_slice();
        let mut i: usize = 0;
        proof {
            assert(lhs@.skip(0) =~= lhs@);
            assert(rhs@.skip(0) =~= rhs@);
        }
        while i < lhs.len() && i < rhs.len()
            invariant
                0 <= i <= lhs@.len(),
                i <= rhs@.len(),
                lhs@ == self@,
                T::obeys_partial_cmp_spec() ==> lex_cmp(self@, rhs@) == lex_cmp(
                    lhs@.skip(i as int),
                    rhs@.skip(i as int),
                ),
            decreases lhs@.len() - i,
        {
            let o = lhs[i].partial_cmp(&rhs[i]);
            proof {
                assert(lhs@.skip(i as int)[0] == lhs@[i as int]);
                assert(rhs@.skip(i as int)[0] == rhs@[i as int]);
                assert(lhs@.skip(i as int).drop_first() =~= lhs@.skip(i + 1));
                assert(rhs@.skip(i as int).drop_first() =~= rhs@.skip(i + 1));
            }
            match o {
                Some(Ordering::Equal) => {},
                _ => {
                    return o;
                },
            }
            i = i + 1;
        }
        if i < lhs.len() {
            Some(Ordering::Greater)
        } else if i < rhs.len() {
            Some(Ordering::Less)
        } else {
            Some(Ordering::Equal)
        }
    }
}

impl<T> Clone for ArcBuffer<T> {
    /// A second handle to the same allocation; nothing is copied.
    fn clone(&self) -> (r: Self)
        ensures
            r@ == self@,
    {
        ArcBuffer { inner: share(&self.inner) }
    }
}

impl<T> ArcBuffer<Option<T>> {
    /// A buffer of `len` slots, none of them written.
    pub fn new_uninit(len: usize) -> (r: Self)
        ensures
            r@ == Seq::new(len as nat, |i: int| None::<T>),
    {
        let mut v: Vec<Option<T>> = Vec::with_capacity(len);
        let mut i: usize = 0;
        while i < len
            invariant
                0 <= i <= len,
                v@ == Seq::new(i as nat, |j: int| None::<T>),
            decreases len - i,
        {
            v.push(None);
            i = i + 1;
            proof {
                assert(v@ =~= Seq::new(i as nat, |j: int| None::<T>));
            }
        }
        ArcBuffer { inner: Arc::new(v) }
    }
}

impl<T: Copy> ArcBuffer<Option<T>> {
    /// Writes `value` into the slot at `index`.
    pub fn write(&mut self, index: usize, value: T)
        requires
            index < old(self)@.len(),
        ensures
            final(self)@ == old(self)@.update(index as int, Some(value)),
    {
        self.inner_unique().set(index, Some(value));
    }

    /// The buffer of the written values, once every slot has been written.
    pub fn assume_init(self) -> (r: ArcBuffer<T>)
        requires
            forall|i: int| 0 <= i < self@.len() ==> (#[trigger] self@[i]) is Some,
        ensures
            r@.len() == self@.len(),
            forall|i: int| 0 <= i < self@.len() ==> #[trigger] r@[i] == self@[i]->Some_0,
    {
        let v: &Vec<Option<T>> = &*self.inner;
        let mut out: Vec<T> = Vec::with_capacity(v.len());
        let mut i: usize = 0;
        while i < v.len()
            invariant
                0 <= i <= v@.len(),
                v@ == self@,
                forall|j: int| 0 <= j < v@.len() ==> (#[trigger] v@[j]) is Some,
                out@.len() == i,
                forall|j: int| 0 <= j < i ==> #[trigger] out@[j] == v@[j]->Some_0,
            decreases v@.len() - i,
        {
            match v[i] {
                Some(x) => out.push(x),
                None => {},
            }
            i = i + 1;
        }
        ArcBuffer { inner: Arc::new(out) }
    }
}

/// Copying a buffer out to an owned vector with `to_vec` and taking that
/// vector over again with `from_vec` gives back exactly the same elements,
/// in the same order: none is lost and none is added.
pub proof fn lemma_owned_round_trip<T>(b: ArcBuffer<T>, owned: Vec<T>, back: ArcBuffer<T>)
    requires
        owned@ == b@,
        back@ == owned@,
    ensures
        back@ == b@,
        back@.len() == b@.len(),
        forall|i: int| 0 <= i < b@.len() ==> #[trigger] back@[i] == b@[i],
{
}

} // verus!
