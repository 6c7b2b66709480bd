//! Positions on the game map and the envelopes of the game API's answers.

use vstd::prelude::*;

verus! {

/// A cell of the game map.
#[derive(Clone, Copy, Debug, PartialEq, Eq, Structural)]
pub struct Position {
    pub x: i32,
    pub y: i32,
}

impl Position {
    pub fn new(x: i32, y: i32) -> (p: Self)
        ensures
            p.x == x,
            p.y == y,
    {
        Self { x, y }
    }
}

/// Paging information that the API attaches to a list.
#[derive(Clone, Copy, Debug, PartialEq, Eq, Structural)]
pub struct Pagination {
    pub total: i32,
    pub page: i32,
    pub size: i32,
    pub pages: Option<i32>,
}

/// An API answer that holds one value.
#[derive(Clone, Debug)]
pub struct Single<T> {
    pub data: T,
}

/// An API answer that holds a list of values, with its paging information.
#[derive(Clone, Debug)]
pub struct Many<T> {
    pub data: Vec<T>,
    pub pagination: Option<Pagination>,
}

/// `s` is what `f` gives back for some clone of `x`.
pub open spec fn mapped_from<T: Clone, S, F: Fn(T) -> S>(f: F, x: T, s: S) -> bool {
    exists|c: T| cloned(x, c) && call_ensures(f, (c,), s)
}

/// `r` is what `m.dmap(f)` gives: the same paging information, and for
/// each value of `m`, in order, what `f` gives back for a clone of it.
pub open spec fn dmap_result<T: Clone, S, F: Fn(T) -> S>(m: Many<T>, f: F, r: Many<S>) -> bool {
    &&& r.pagination == m.pagination
    &&& r.data.len() == m.data.len()
    &&& forall|i: int| 0 <= i < m.data.len() ==> mapped_from::<T, S, F>(f, m.data[i], #[trigger] r.data[i])
}

/// A clone of a `T` is always the value itself, as for `Copy` types.
pub open spec fn clone_is_copy<T: Clone>() -> bool {
    forall|a: T, b: T| cloned(a, b) ==> a == b
}

/// `f` gives back one value for each argument.
pub open spec fn deterministic<A, B, F: Fn(A) -> B>(f: F) -> bool {
    forall|x: A, y: B, z: B| call_ensures(f, (x,), y) && call_ensures(f, (x,), z) ==> y == z
}

/// The integers clone by copy.
pub proof fn lemma_integers_clone_by_copy()
    ensures
        clone_is_copy::<u8>(),
        clone_is_copy::<u32>(),
        clone_is_copy::<u64>(),
        clone_is_copy::<i32>(),
        clone_is_copy::<i64>(),
        clone_is_copy::<usize>(),
{
}

/// Mapping with the identity keeps the list: where a value clones by copy
/// and `f` gives back its argument, `m.dmap(f)` has the data and the
/// paging information of `m`.
pub proof fn lemma_dmap_identity<T: Clone, F: Fn(T) -> T>(m: Many<T>, f: F, r: Many<T>)
    requires
        clone_is_copy::<T>(),
        forall|x: T, y: T| call_ensures(f, (x,), y) ==> y == x,
        dmap_result(m, f, r),
    ensures
        r.data@ == m.data@,
        r.pagination == m.pagination,
{
    assert forall|i: int| 0 <= i < m.data.len() implies r.data@[i] == m.data@[i] by {
        assert(mapped_from::<T, T, F>(f, m.data[i], r.data[i]));
        let c = choose|c: T| cloned(m.data[i], c) && call_ensures(f, (c,), r.data[i]);
    }
    assert(r.data@ =~= m.data@);
}

/// Mapping twice is mapping once with the composition: where the values
/// clone by copy and `f`, `g` give back one value for each argument,
/// `m.dmap(f).dmap(g)` has the data and paging information of `m.dmap(h)`
/// for any `h` that gives back `g(f(x))`.
pub proof fn lemma_dmap_composition<T: Clone, S: Clone, U, F: Fn(T) -> S, G: Fn(S) -> U, H: Fn(T) -> U>(
    m: Many<T>,
    f: F,
    g: G,
    h: H,
    once: Many<S>,
    twice: Many<U>,
    composed: Many<U>,
)
    requires
        clone_is_copy::<T>(),
        clone_is_copy::<S>(),
        deterministic::<T, S, F>(f),
        deterministic::<S, U, G>(g),
        forall|x: T, z: U|
            call_ensures(h, (x,), z) ==> exists|y: S| call_ensures(f, (x,), y) && call_ensures(g, (y,), z),
        dmap_result(m, f, once),
        dmap_result(once, g, twice),
        dmap_result(m, h, composed),
    ensures
        twice.data@ == composed.data@,
        twice.pagination == composed.pagination,
{
    assert forall|i: int| 0 <= i < m.data.len() implies twice.data@[i] == composed.data@[i] by {
        let x = m.data[i];
        assert(mapped_from::<T, S, F>(f, x, once.data[i]));
        let c1 = choose|c: T| cloned(x, c) && call_ensures(f, (c,), once.data[i]);
        assert(mapped_from::<S, U, G>(g, once.data[i], twice.data[i]));
        let c2 = choose|c: S| cloned(once.data[i], c) && call_ensures(g, (c,), twice.data[i]);
        assert(mapped_from::<T, U, H>(h, x, composed.data[i]));
        let c3 = choose|c: T| cloned(x, c) && call_ensures(h, (c,), composed.data[i]);
        let y = choose|y: S| call_ensures(f, (c3,), y) && call_ensures(g, (y,), composed.data[i]);
        assert(c1 == x && c3 == x && c2 == once.data[i]);
        assert(y == once.data[i]);
    }
    assert(twice.data@ =~= composed.data@);
}

impl<T: Clone> Many<T> {
    /// Applies `f` to a clone of each value of the list, in order; the
    /// paging information is kept.
    pub fn dmap<S: Clone, F>(&self, f: F) -> (r: Many<S>) where F: Fn(T) -> S
        requires
            forall|x: T| call_requires(f, (x,)),
        ensures
            dmap_result(*self, f, r),
    {
        let mut data: Vec<S> = Vec::new();
        let ghost mut clones: Seq<T> = Seq::empty();
        let mut i: usize = 0;
        while i < self.data.len()
            invariant
                forall|x: T| call_requires(f, (x,)),
                i <= self.data.len(),
                data.len() == i,
                clones.len() == i,
                forall|j: int|
                    0 <= j < i ==> cloned(self.data[j], #[trigger] clones[j]) && call_ensures(
                        f,
                        (clones[j],),
                        data[j],
                    ),
            decreases self.data.len() - i,
        {
            let c = self.data[i].clone();
            assert(cloned(self.data[i as int], c));
            proof {
                clones = clones.push(c);
            }
            let s = f(c);
            data.push(s);
            i += 1;
        }
        assert forall|j: int| 0 <= j < self.data.len() implies mapped_from::<T, S, F>(
            f,
            self.data[j],
            #[trigger] data[j],
        ) by {
            assert(cloned(self.data[j], clones[j]) && call_ensures(f, (clones[j],), data[j]));
        }
        Many { data, pagination: self.pagination }
    }
}

} // verus!
