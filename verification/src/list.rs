//! A small persistent-style list: every operation returns a new list and
//! leaves the receiver untouched.  The game keeps its end-of-move hash
//! history in one, so sibling successor states can each extend their own
//! copy.

use vstd::prelude::*;

verus! {

/// A list built by appending; `head` reads the most recent element.
#[derive(Debug)]
pub struct List<T> {
    items: Vec<T>,
}

impl<T: Copy> View for List<T> {
    type V = Seq<T>;

    closed spec fn view(&self) -> Seq<T> {
        self.items@
    }
}

/// Copies the elements of a vector.
fn copy_items<T: Copy>(v: &Vec<T>, upto: usize) -> (r: Vec<T>)
    requires
        upto <= v@.len(),
    ensures
        r@ == v@.subrange(0, upto as int),
{
    let mut out: Vec<T> = Vec::new();
    let mut i: usize = 0;
    while i < upto
        invariant
            i <= upto <= v@.len(),
            out@ == v@.subrange(0, i as int),
        decreases upto - i,
    {
        out.push(v[i]);
        i = i + 1;
        proof {
            assert(out@ =~= v@.subrange(0, i as int));
        }
    }
    out
}

impl<T: Copy> List<T> {
    /// The empty list.
    pub fn new() -> (r: List<T>)
        ensures
            r@ == Seq::<T>::empty(),
    {
        List { items: Vec::new() }
    }

    /// A new list with `elem` appended; the receiver is unchanged.
    pub fn append(&self, elem: T) -> (r: List<T>)
        ensures
            r@ == self@.push(elem),
    {
        let mut items = copy_items(&self.items, self.items.len());
        items.push(elem);
        proof {
            assert(self.items@.subrange(0, self.items@.len() as int) =~= self.items@);
        }
        List { items }
    }

    /// The most recently appended element, if any.
    pub fn head(&self) -> (r: Option<&T>)
        ensures
            match r {
                Some(x) => self@.len() > 0 && *x == self@.last(),
                None => self@.len() == 0,
            },
    {
        if self.items.len() == 0 {
            None
        } else {
            Some(&self.items[self.items.len() - 1])
        }
    }

    /// The list without its most recent element; empty stays empty.
    pub fn tail(&self) -> (r: List<T>)
        ensures
            self@.len() > 0 ==> r@ == self@.drop_last(),
            self@.len() == 0 ==> r@ == Seq::<T>::empty(),
    {
        if self.items.len() == 0 {
            List { items: Vec::new() }
        } else {
            let items = copy_items(&self.items, self.items.len() - 1);
            proof {
                assert(self.items@.subrange(0, self.items@.len() - 1) =~= self.items@.drop_last());
            }
            List { items }
        }
    }

    /// The number of elements.
    pub fn len(&self) -> (r: usize)
        ensures
            r == self@.len(),
    {
        self.items.len()
    }

    /// True when the list holds nothing.
    pub fn is_empty(&self) -> (r: bool)
        ensures
            r == (self@.len() == 0),
    {
        self.items.len() == 0
    }

    /// The elements as a vector, most recent first.
    pub fn iter(&self) -> (r: Vec<T>)
        ensures
            r@ == self@.reverse(),
    {
        let mut out: Vec<T> = Vec::new();
        let mut i: usize = self.items.len();
        while i > 0
            invariant
                i <= self.items@.len(),
                out@.len() == self.items@.len() - i,
                forall|k: int|
                    0 <= k < out@.len() ==> out@[k] == self.items@[self.items@.len() - 1 - k],
            decreases i,
        {
            i = i - 1;
            out.push(self.items[i]);
        }
        proof {
            assert(out@ =~= self@.reverse());
        }
        out
    }

    /// The element appended `i`-th, counting from the oldest.
    pub fn get(&self, i: usize) -> (r: &T)
        requires
            i < self@.len(),
        ensures
            *r == self@[i as int],
    {
        &self.items[i]
    }

    /// An identical list.
    pub fn duplicate(&self) -> (r: List<T>)
        ensures
            r@ == self@,
    {
        let items = copy_items(&self.items, self.items.len());
        proof {
            assert(self.items@.subrange(0, self.items@.len() as int) =~= self.items@);
        }
        List { items }
    }

}

/// How many elements of a sequence equal `x`.
pub open spec fn spec_count_matches<T>(s: Seq<T>, x: T) -> nat
    decreases s.len(),
{
    if s.len() == 0 {
        0
    } else {
        spec_count_matches(s.drop_last(), x) + (if s.last() == x {
            1nat
        } else {
            0nat
        })
    }
}

} // verus!
