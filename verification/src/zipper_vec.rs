//! An ordered container with an efficient, relocatable edit cursor.
//!
//! A `ZipperVec` represents a list with an edit position,
//! `[a, b, c, CURSOR, d, e, f]`, as two growable arrays
//! `(prefix = [a, b, c], suffix_r = [f, e, d])`: the elements before the
//! cursor in order, and the elements from the cursor onward in reverse, the
//! one nearest the cursor at the end. Insertion and removal at the cursor are
//! O(1), reading any logical index is O(1), and moving the cursor from
//! position `i` to `j` costs O(|i - j|) element transfers.

use vstd::prelude::*;
use vstd::std_specs::cmp::PartialEqSpec;

verus! {

/// The least index of `s` whose element equals `rel` under `eq_spec`;
/// `s.len()` when no element does.
pub open spec fn first_eq<T: PartialEq>(s: Seq<T>, rel: T) -> int
    decreases s.len(),
{
    if s.len() == 0 {
        0
    } else if s[0].eq_spec(&rel) {
        0
    } else {
        1 + first_eq(s.drop_first(), rel)
    }
}

/// `first_eq` is within bounds, no earlier element matches, and the element
/// at `first_eq` matches whenever one exists.
pub proof fn lemma_first_eq<T: PartialEq>(s: Seq<T>, rel: T)
    ensures
        0 <= first_eq(s, rel) <= s.len(),
        forall|j: int| 0 <= j < first_eq(s, rel) ==> !(#[trigger] s[j].eq_spec(&rel)),
        first_eq(s, rel) < s.len() ==> s[first_eq(s, rel)].eq_spec(&rel),
    decreases s.len(),
{
    if s.len() == 0 {
    } else if s[0].eq_spec(&rel) {
    } else {
        lemma_first_eq(s.drop_first(), rel);
        assert forall|j: int| 0 <= j < first_eq(s, rel) implies !(#[trigger] s[j].eq_spec(&rel)) by {
            if j > 0 {
                assert(s[j] == s.drop_first()[j - 1]);
            }
        }
        if first_eq(s, rel) < s.len() {
            assert(s[first_eq(s, rel)] == s.drop_first()[first_eq(s.drop_first(), rel)]);
        }
    }
}

/// Ordered sequence with an edit cursor at a logical position in
/// `[0, length]`.
#[derive(Debug, PartialEq, Eq)]
pub struct ZipperVec<T> {
    prefix: Vec<T>,
    suffix_r: Vec<T>,
}

impl<T: Clone> Clone for ZipperVec<T> {
    /// Clones element by element; length and cursor are preserved.
    fn clone(&self) -> (r: Self)
        ensures
            r@.len() == self@.len(),
            r.cursor() == self.cursor(),
            forall|i: int| #![trigger r@[i]] 0 <= i < self@.len() ==> cloned::<T>(self@[i], r@[i]),
    {
        proof {
            use_type_invariant(&*self);
        }
        let r = ZipperVec { prefix: self.prefix.clone(), suffix_r: self.suffix_r.clone() };
        proof {
            assert forall|i: int| 0 <= i < self@.len() implies cloned::<T>(self@[i], #[trigger] r@[i]) by {
                if i < self.prefix@.len() {
                    assert(cloned::<T>(self.prefix@[i], r.prefix@[i]));
                } else {
                    let j = self.suffix_r@.len() - 1 - (i - self.prefix@.len());
                    assert(cloned::<T>(self.suffix_r@[j], r.suffix_r@[j]));
                }
            }
        }
        r
    }
}

impl<T> View for ZipperVec<T> {
    type V = Seq<T>;

    /// The logical contents: the prefix in order, then the reversed suffix.
    closed spec fn view(&self) -> Seq<T> {
        self.prefix@ + self.suffix_r@.reverse()
    }
}

impl<T> ZipperVec<T> {
    /// The two arrays together never hold more than `usize::MAX` elements,
    /// so the logical length fits in a machine word.
    #[verifier::type_invariant]
    spec fn inv(self) -> bool {
        self.prefix@.len() + self.suffix_r@.len() <= usize::MAX
    }

    /// The cursor's logical position; always in `[0, length]`.
    pub closed spec fn cursor(self) -> int {
        self.prefix@.len() as int
    }

    /// An empty container with the cursor at position 0.
    pub fn new() -> (r: Self)
        ensures
            r@ == Seq::<T>::empty(),
            r.cursor() == 0,
    {
        let r = ZipperVec { prefix: Vec::new(), suffix_r: Vec::new() };
        proof {
            assert(r@ =~= Seq::<T>::empty());
        }
        r
    }

    /// Takes ownership of a vector; the cursor starts at the end.
    pub fn from_vec(v: Vec<T>) -> (r: Self)
        ensures
            r@ == v@,
            r.cursor() == v@.len(),
    {
        let n = v.len();
        let r = ZipperVec { prefix: v, suffix_r: Vec::new() };
        proof {
            assert(n == r.prefix@.len());
            assert(r@ =~= r.prefix@);
        }
        r
    }

    pub fn cursor_pos(&self) -> (r: usize)
        ensures
            r == self.cursor(),
            r <= self@.len(),
    {
        proof {
            assert(self@.len() == self.prefix@.len() + self.suffix_r@.len());
        }
        self.prefix.len()
    }

    pub fn len(&self) -> (r: usize)
        ensures
            r == self@.len(),
    {
        proof {
            use_type_invariant(&*self);
        }
        self.prefix.len() + self.suffix_r.len()
    }

    /// Moves the cursor one position toward the front; a no-op at position 0.
    pub fn dec_cursor(&mut self)
        ensures
            final(self)@ == old(self)@,
            old(self).cursor() > 0 ==> final(self).cursor() == old(self).cursor() - 1,
            old(self).cursor() == 0 ==> final(self).cursor() == 0,
    {
        proof {
            use_type_invariant(&*self);
        }
        let ghost pre = *self;
        let mut this = Self::new();
        core::mem::swap(&mut this, self);
        let ZipperVec { mut prefix, mut suffix_r } = this;
        if let Some(x) = prefix.pop() {
            suffix_r.push(x);
        }
        *self = ZipperVec { prefix, suffix_r };
        proof {
            assert(self@ =~= pre@);
        }
    }

    /// Moves the cursor one position toward the end; a no-op at the end.
    pub fn inc_cursor(&mut self)
        ensures
            final(self)@ == old(self)@,
            old(self).cursor() < old(self)@.len() ==> final(self).cursor() == old(
                self,
            ).cursor() + 1,
            old(self).cursor() == old(self)@.len() ==> final(self).cursor() == old(
                self,
            ).cursor(),
    {
        proof {
            use_type_invariant(&*self);
        }
        let ghost pre = *self;
        let mut this = Self::new();
        core::mem::swap(&mut this, self);
        let ZipperVec { mut prefix, mut suffix_r } = this;
        if let Some(x) = suffix_r.pop() {
            prefix.push(x);
        }
        *self = ZipperVec { prefix, suffix_r };
        proof {
            assert(self@ =~= pre@);
        }
    }

    /// Relocates the cursor to `to`, transferring one element at a time
    /// between the two arrays; out-of-range targets leave the container
    /// untouched. Never reorders elements.
    pub fn move_cursor(&mut self, to: usize)
        ensures
            final(self)@ == old(self)@,
            to <= old(self)@.len() ==> final(self).cursor() == to,
            to > old(self)@.len() ==> final(self).cursor() == old(self).cursor(),
    {
        let ghost pre = *self;
        if to <= self.len() {
            while to > self.cursor_pos()
                invariant
                    self@ == pre@,
                    to <= pre@.len(),
                decreases to - self.cursor(),
            {
                self.inc_cursor();
            }
            while to < self.cursor_pos()
                invariant
                    self@ == pre@,
                    to <= self.cursor(),
                decreases self.cursor(),
            {
                self.dec_cursor();
            }
        }
    }

    /// Takes both arrays out, leaving the container empty.
    fn into_parts(&mut self) -> (r: (Vec<T>, Vec<T>))
        ensures
            r.0@ == old(self).prefix@,
            r.1@ == old(self).suffix_r@,
            r.0@.len() + r.1@.len() <= usize::MAX,
    {
        proof {
            use_type_invariant(&*self);
        }
        let mut this = Self::new();
        core::mem::swap(&mut this, self);
        let ZipperVec { prefix, suffix_r } = this;
        (prefix, suffix_r)
    }

    /// Appends at the logical end, wherever the cursor was; the cursor ends
    /// just past the new element.
    pub fn push(&mut self, x: T)
        requires
            old(self)@.len() < usize::MAX,
        ensures
            final(self)@ == old(self)@.push(x),
            final(self).cursor() == old(self)@.len() + 1,
    {
        let ghost pre = *self;
        let len = self.len();
        self.move_cursor(len);
        let (mut prefix, suffix_r) = self.into_parts();
        proof {
            assert(suffix_r@.len() == 0);
            assert(prefix@ =~= pre@);
        }
        prefix.push(x);
        *self = ZipperVec { prefix, suffix_r };
        proof {
            assert(self@ =~= pre@.push(x));
        }
    }

    /// Prepends at the logical start, wherever the cursor was; the cursor
    /// ends just past the new first element.
    pub fn push_front(&mut self, x: T)
        requires
            old(self)@.len() < usize::MAX,
        ensures
            final(self)@ == old(self)@.insert(0, x),
            final(self).cursor() == 1,
    {
        let ghost pre = *self;
        self.move_cursor(0);
        let (mut prefix, suffix_r) = self.into_parts();
        proof {
            assert(prefix@.len() == 0);
        }
        prefix.push(x);
        *self = ZipperVec { prefix, suffix_r };
        proof {
            assert(self@ =~= pre@.insert(0, x));
        }
    }

    /// Reads the element at logical index `i` without moving the cursor.
    pub fn get(&self, i: usize) -> (r: Option<&T>)
        ensures
            i < self@.len() ==> (r matches Some(x) && *x == self@[i as int]),
            i >= self@.len() ==> r is None,
    {
        proof {
            use_type_invariant(&*self);
        }
        let j = self.prefix.len();
        let k = self.suffix_r.len();
        if i < j {
            Some(&self.prefix[i])
        } else if i - j < k {
            Some(&self.suffix_r[k - 1 - (i - j)])
        } else {
            None
        }
    }

    /// Removes and returns the element at logical index `i`; the remainder
    /// keeps its order and the cursor ends at `i`. Out-of-range indices
    /// change nothing.
    pub fn pop(&mut self, i: usize) -> (r: Option<T>)
        ensures
            i < old(self)@.len() ==> (r matches Some(x) && x == old(self)@[i as int]
                && final(self)@ == old(self)@.remove(i as int) && final(self).cursor() == i),
            i >= old(self)@.len() ==> r is None && final(self)@ == old(self)@
                && final(self).cursor() == old(self).cursor(),
    {
        let ghost pre = *self;
        if i < self.len() {
            self.move_cursor(i);
            let (prefix, mut suffix_r) = self.into_parts();
            let r = suffix_r.pop();
            *self = ZipperVec { prefix, suffix_r };
            proof {
                assert(self@ =~= pre@.remove(i as int));
            }
            r
        } else {
            None
        }
    }
}

impl<T: Copy> ZipperVec<T> {
    /// The contents in logical order, as a fresh vector reflecting the
    /// current state.
    pub fn iter(&self) -> (r: Vec<T>)
        ensures
            r@ == self@,
    {
        let n = self.len();
        let mut out: Vec<T> = Vec::new();
        let mut idx: usize = 0;
        while idx < n
            invariant
                n == self@.len(),
                idx <= n,
                out@ == self@.subrange(0, idx as int),
            decreases n - idx,
        {
            match self.get(idx) {
                Some(x) => {
                    out.push(*x);
                },
                None => {
                    proof {
                        assert(false);
                    }
                },
            }
            idx += 1;
            proof {
                assert(out@ =~= self@.subrange(0, idx as int));
            }
        }
        proof {
            assert(out@ =~= self@);
        }
        out
    }
}

impl<T: PartialEq> ZipperVec<T> {
    /// Inserts `val` immediately after (or before) the first element equal
    /// to `rel` in logical order. Into an empty container it inserts
    /// unconditionally; when no element equals `rel`, it appends at the end.
    pub fn insert_relative(&mut self, val: T, rel: &T, after: bool)
        requires
            T::obeys_eq_spec(),
            old(self)@.len() < usize::MAX,
        ensures
            old(self)@.len() == 0 ==> final(self)@ == old(self)@.push(val),
            old(self)@.len() > 0 && first_eq(old(self)@, *rel) == old(self)@.len()
                ==> final(self)@ == old(self)@.push(val),
            old(self)@.len() > 0 && first_eq(old(self)@, *rel) < old(self)@.len()
                ==> final(self)@ == old(self)@.insert(
                    if after { first_eq(old(self)@, *rel) + 1 } else { first_eq(old(self)@, *rel) },
                    val,
                ),
    {
        let ghost pre = *self;
        proof {
            lemma_first_eq(pre@, *rel);
        }
        if self.len() == 0 {
            let (mut prefix, suffix_r) = self.into_parts();
            prefix.push(val);
            *self = ZipperVec { prefix, suffix_r };
            proof {
                assert(self@ =~= pre@.push(val));
            }
        } else {
            self.move_cursor(0);
            while self.suffix_r.len() > 0 && self.suffix_r[self.suffix_r.len() - 1] != *rel
                invariant
                    T::obeys_eq_spec(),
                    self@ == pre@,
                    0 <= self.cursor() <= self@.len(),
                    forall|j: int|
                        0 <= j < self.cursor() ==> !(#[trigger] self@[j].eq_spec(rel)),
                decreases self@.len() - self.cursor(),
            {
                proof {
                    assert(self.suffix_r@[self.suffix_r@.len() - 1] == self@[self.cursor()]);
                }
                self.inc_cursor();
            }
            let ghost k = self.cursor();
            proof {
                if self.suffix_r@.len() == 0 {
                    assert(k == pre@.len());
                    assert(first_eq(pre@, *rel) == k);
                } else {
                    assert(self.suffix_r@[self.suffix_r@.len() - 1] == self@[k]);
                    assert(self@[k].eq_spec(rel));
                    assert(first_eq(pre@, *rel) == k);
                }
            }
            if after {
                self.inc_cursor();
                let (prefix, mut suffix_r) = self.into_parts();
                suffix_r.push(val);
                *self = ZipperVec { prefix, suffix_r };
                proof {
                    if k == pre@.len() {
                        assert(self@ =~= pre@.push(val));
                    } else {
                        assert(self@ =~= pre@.insert(k + 1, val));
                    }
                }
            } else {
                let (mut prefix, suffix_r) = self.into_parts();
                prefix.push(val);
                *self = ZipperVec { prefix, suffix_r };
                proof {
                    if k == pre@.len() {
                        assert(self@ =~= pre@.push(val));
                    } else {
                        assert(self@ =~= pre@.insert(k, val));
                    }
                }
            }
        }
    }
}

} // verus!
