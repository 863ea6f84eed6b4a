//! Small generic containers: points, pairs, an append-only container, a
//! stack, a result type of this crate's own, and a keyed cache.

use std::collections::HashMap;
use vstd::prelude::*;

verus! {

/// A point with two coordinates of one type.
#[derive(Debug, Clone)]
pub struct Point<T> {
    pub x: T,
    pub y: T,
}

impl<T> Point<T> {
    pub fn new(x: T, y: T) -> (r: Point<T>)
        ensures
            r.x == x,
            r.y == y,
    {
        Point { x, y }
    }

    pub fn x(&self) -> (r: &T)
        ensures
            *r == self.x,
    {
        &self.x
    }

    pub fn y(&self) -> (r: &T)
        ensures
            *r == self.y,
    {
        &self.y
    }
}

/// Pairs two values of possibly different types.
pub fn create_point<T, U>(x: T, y: U) -> (r: (T, U))
    ensures
        r.0 == x,
        r.1 == y,
{
    (x, y)
}

/// An append-only container.
#[derive(Debug)]
pub struct Container<T> {
    pub items: Vec<T>,
}

impl<T> Container<T> {
    pub fn new() -> (r: Container<T>)
        ensures
            r.items@ == Seq::<T>::empty(),
    {
        Container { items: Vec::new() }
    }

    pub fn add(&mut self, item: T)
        ensures
            final(self).items@ == old(self).items@.push(item),
    {
        self.items.push(item);
    }

    /// The item at `index`, or `None` past the end.
    pub fn get(&self, index: usize) -> (r: Option<&T>)
        ensures
            match r {
                Some(v) => index < self.items@.len() && *v == self.items@[index as int],
                None => index >= self.items@.len(),
            },
    {
        if index < self.items.len() {
            Some(&self.items[index])
        } else {
            None
        }
    }

    pub fn get_all(&self) -> (r: &Vec<T>)
        ensures
            r@ == self.items@,
    {
        &self.items
    }

    pub fn len(&self) -> (r: usize)
        ensures
            r == self.items@.len(),
    {
        self.items.len()
    }
}

/// A success-or-failure value of this crate's own.
#[derive(Debug)]
pub enum MyResult<T, E> {
    Success(T),
    Failure(E),
}

impl<T, E> MyResult<T, E> {
    pub fn is_success(&self) -> (r: bool)
        ensures
            r == (*self is Success),
    {
        match self {
            MyResult::Success(_) => true,
            MyResult::Failure(_) => false,
        }
    }

    pub fn is_failure(&self) -> (r: bool)
        ensures
            r == (*self is Failure),
    {
        match self {
            MyResult::Success(_) => false,
            MyResult::Failure(_) => true,
        }
    }
}

/// A last-in, first-out stack.
#[derive(Debug)]
pub struct Stack<T> {
    pub items: Vec<T>,
}

impl<T> Stack<T> {
    pub fn new() -> (r: Stack<T>)
        ensures
            r.items@ == Seq::<T>::empty(),
    {
        Stack { items: Vec::new() }
    }

    pub fn push(&mut self, item: T)
        ensures
            final(self).items@ == old(self).items@.push(item),
    {
        self.items.push(item);
    }

    /// Removes and returns the most recent item, or `None` when empty.
    pub fn pop(&mut self) -> (r: Option<T>)
        ensures
            old(self).items@.len() == 0 ==> r is None && final(self).items@ == old(
                self,
            ).items@,
            old(self).items@.len() > 0 ==> (r == Some(old(self).items@.last())
                && final(self).items@ == old(self).items@.drop_last()),
    {
        self.items.pop()
    }

    /// The most recent item without removing it.
    pub fn peek(&self) -> (r: Option<&T>)
        ensures
            match r {
                Some(v) => self.items@.len() > 0 && *v == self.items@.last(),
                None => self.items@.len() == 0,
            },
    {
        if self.items.len() == 0 {
            None
        } else {
            Some(&self.items[self.items.len() - 1])
        }
    }

    pub fn size(&self) -> (r: usize)
        ensures
            r == self.items@.len(),
    {
        self.items.len()
    }

    pub fn is_empty(&self) -> (r: bool)
        ensures
            r == (self.items@.len() == 0),
    {
        self.items.len() == 0
    }
}

/// A pair of values of two types.
#[derive(Debug)]
pub struct Pair<T, U> {
    pub first: T,
    pub second: U,
}

impl<T, U> Pair<T, U> {
    pub fn new(first: T, second: U) -> (r: Pair<T, U>)
        ensures
            r.first == first,
            r.second == second,
    {
        Pair { first, second }
    }

    pub fn first(&self) -> (r: &T)
        ensures
            *r == self.first,
    {
        &self.first
    }

    pub fn second(&self) -> (r: &U)
        ensures
            *r == self.second,
    {
        &self.second
    }

    pub fn into_tuple(self) -> (r: (T, U))
        ensures
            r.0 == self.first,
            r.1 == self.second,
    {
        (self.first, self.second)
    }
}

/// Applies a function to every element, collecting the results in
/// order.
pub fn map_vec<T, U, F: Fn(&T) -> U>(v: &Vec<T>, f: F) -> (r: Vec<U>)
    requires
        forall|i: int| 0 <= i < v@.len() ==> call_requires(f, (&v@[i],)),
    ensures
        r@.len() == v@.len(),
        forall|i: int| 0 <= i < v@.len() ==> call_ensures(f, (&v@[i],), #[trigger] r@[i]),
{
    let mut r: Vec<U> = Vec::new();
    let n = v.len();
    let mut i: usize = 0;
    while i < n
        invariant
            i <= n,
            n == v@.len(),
            r@.len() == i,
            forall|k: int| 0 <= k < v@.len() ==> call_requires(f, (&v@[k],)),
            forall|k: int| 0 <= k < i ==> call_ensures(f, (&v@[k],), #[trigger] r@[k]),
        decreases n - i,
    {
        let u = f(&v[i]);
        r.push(u);
        i = i + 1;
    }
    r
}

/// A cache of values keyed by integer identifiers.
#[derive(Debug)]
pub struct Cache<V> {
    data: HashMap<u64, V>,
}

impl<V> Cache<V> {
    /// What the cache holds, as a map from key to value.
    pub closed spec fn entries(&self) -> Map<u64, V> {
        self.data@
    }

    pub fn new() -> (r: Cache<V>)
        ensures
            r.entries() == Map::<u64, V>::empty(),
    {
        broadcast use vstd::std_specs::hash::group_hash_axioms;

        Cache { data: HashMap::new() }
    }

    /// Stores a value under a key, replacing any earlier value.
    pub fn set(&mut self, key: u64, value: V)
        ensures
            final(self).entries() == old(self).entries().insert(key, value),
    {
        broadcast use vstd::std_specs::hash::group_hash_axioms;

        self.data.insert(key, value);
    }

    /// The value stored under a key, if any.
    pub fn get(&self, key: &u64) -> (r: Option<&V>)
        ensures
            match r {
                Some(v) => self.entries().contains_key(*key) && *v == self.entries()[*key],
                None => !self.entries().contains_key(*key),
            },
    {
        broadcast use vstd::std_specs::hash::group_hash_axioms;

        self.data.get(key)
    }

    /// Removes and returns the value stored under a key.
    pub fn remove(&mut self, key: &u64) -> (r: Option<V>)
        ensures
            final(self).entries() == old(self).entries().remove(*key),
            match r {
                Some(v) => old(self).entries().contains_key(*key) && v == old(
                    self,
                ).entries()[*key],
                None => !old(self).entries().contains_key(*key),
            },
    {
        broadcast use vstd::std_specs::hash::group_hash_axioms;

        self.data.remove(key)
    }

    /// Whether a value is stored under a key.
    pub fn contains_key(&self, key: &u64) -> (r: bool)
        ensures
            r == self.entries().contains_key(*key),
    {
        broadcast use vstd::std_specs::hash::group_hash_axioms;

        self.data.contains_key(key)
    }
}

} // verus!
