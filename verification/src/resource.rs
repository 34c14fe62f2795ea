//! Handle-bound resources. Each side of a session binds values
//! (capabilities, areas of interest, static tokens) to monotonically
//! assigned numeric handles, starting at 1; zero is the reserved sentinel.
//! Once bound, a handle's value never changes, and `bind_if_new` is
//! idempotent by value.

use vstd::prelude::*;

verus! {

/// A value a resource map can hold: it can compare itself to another value
/// of its kind, and that comparison is reflexive.
pub trait ResourceValue: Sized {
    /// Equality of contents, as seen by specifications.
    spec fn eqv(&self, other: &Self) -> bool;

    /// Executable equality of contents.
    fn value_eq(&self, other: &Self) -> (r: bool)
        ensures
            r == self.eqv(other),
    ;

    /// Content equality is reflexive.
    proof fn eqv_reflexive(&self)
        ensures
            self.eqv(self),
    ;
}

/// Raised by `try_get` on a handle nobody bound: a programmer error, fatal
/// to the session.
#[derive(Debug)]
pub struct MissingResource;

/// The index of the first element of `s` with the contents of `v`.
pub open spec fn find_eqv<V: ResourceValue>(s: Seq<V>, v: V) -> Option<int>
    decreases s.len(),
{
    if s.len() == 0 {
        Option::None
    } else if s[0].eqv(&v) {
        Option::Some(0int)
    } else {
        match find_eqv(s.skip(1), v) {
            Option::None => Option::None,
            Option::Some(i) => Option::Some(i + 1),
        }
    }
}

/// What `bind_if_new` does to the bound values: an unseen value is appended
/// and assigned the next handle; a value already present yields the handle
/// it was first bound to.
pub open spec fn spec_bind_if_new<V: ResourceValue>(s: Seq<V>, v: V) -> (Seq<V>, int, bool) {
    match find_eqv(s, v) {
        Option::None => (s.push(v), s.len() as int + 1, true),
        Option::Some(i) => (s, i + 1, false),
    }
}

pub proof fn lemma_find_eqv_props<V: ResourceValue>(s: Seq<V>, v: V)
    ensures
        match find_eqv(s, v) {
            Option::None => forall|j: int| 0 <= j < s.len() ==> !(#[trigger] s[j].eqv(&v)),
            Option::Some(i) => 0 <= i < s.len() && s[i].eqv(&v) && forall|j: int|
                0 <= j < i ==> !(#[trigger] s[j].eqv(&v)),
        },
    decreases s.len(),
{
    if s.len() > 0 && !s[0].eqv(&v) {
        lemma_find_eqv_props(s.skip(1), v);
        match find_eqv(s.skip(1), v) {
            Option::None => {
                assert forall|j: int| 0 <= j < s.len() implies !(#[trigger] s[j].eqv(&v)) by {
                    if j >= 1 {
                        assert(s[j] == s.skip(1)[j - 1]);
                    }
                }
            },
            Option::Some(i) => {
                assert(s[i + 1] == s.skip(1)[i]);
                assert forall|j: int| 0 <= j < i + 1 implies !(#[trigger] s[j].eqv(&v)) by {
                    if j >= 1 {
                        assert(s[j] == s.skip(1)[j - 1]);
                    }
                }
            },
        }
    }
}

proof fn lemma_find_eqv_push_absent<V: ResourceValue>(s: Seq<V>, v: V)
    requires
        find_eqv(s, v) is None,
    ensures
        find_eqv(s.push(v), v) == Option::Some(s.len() as int),
    decreases s.len(),
{
    v.eqv_reflexive();
    if s.len() == 0 {
        assert(s.push(v)[0] == v);
    } else {
        lemma_find_eqv_push_absent(s.skip(1), v);
        assert(s.push(v).skip(1) =~= s.skip(1).push(v));
        assert(!s.push(v)[0].eqv(&v));
    }
}

/// A table of bound values; the handle of `values[i]` is `i + 1`.
#[derive(Debug)]
pub struct ResourceMap<V> {
    pub values: Vec<V>,
}

impl<V: ResourceValue> ResourceMap<V> {
    /// An empty map; no handle is bound.
    pub fn new() -> (r: Self)
        ensures
            r.values@.len() == 0,
    {
        ResourceMap { values: Vec::new() }
    }

    /// Binds `v` to the next free handle, unconditionally.
    pub fn bind(&mut self, v: V) -> (handle: u64)
        ensures
            final(self).values@ == old(self).values@.push(v),
            handle == old(self).values@.len() + 1,
    {
        self.values.push(v);
        self.values.len() as u64
    }

    /// Binds `v` unless a value with the same contents is already bound; in
    /// either case returns the handle holding such a value, and whether it
    /// was newly bound.
    pub fn bind_if_new(&mut self, v: V) -> (r: (u64, bool))
        ensures
            (final(self).values@, r.0 as int, r.1) == spec_bind_if_new(old(self).values@, v),
    {
        proof {
            lemma_find_eqv_props(self.values@, v);
        }
        let n: usize = self.values.len();
        let mut i: usize = 0;
        while i < n
            invariant
                i <= n,
                n == self.values@.len(),
                forall|j: int| 0 <= j < i ==> !(#[trigger] self.values@[j].eqv(&v)),
            decreases n - i,
        {
            if self.values[i].value_eq(&v) {
                proof {
                    lemma_find_eqv_props(self.values@, v);
                    assert(find_eqv(self.values@, v) == Option::Some(i as int));
                }
                return ((i as u64) + 1, false);
            }
            i = i + 1;
        }
        proof {
            lemma_find_eqv_props(self.values@, v);
            if find_eqv(self.values@, v) is Some {
                let k = find_eqv(self.values@, v)->Some_0;
                assert(!self.values@[k].eqv(&v));
            }
        }
        let handle = self.bind(v);
        (handle, true)
    }

    /// The value bound to `handle`, if any.
    pub fn get(&self, handle: u64) -> (r: Option<&V>)
        ensures
            match r {
                Option::Some(v) => 1 <= handle <= self.values@.len() && v == &self.values@[handle
                    - 1],
                Option::None => handle == 0 || handle > self.values@.len(),
            },
    {
        if handle == 0 || handle > self.values.len() as u64 {
            Option::None
        } else {
            Option::Some(&self.values[(handle - 1) as usize])
        }
    }

    /// Whether `handle` is bound.
    pub fn has(&self, handle: u64) -> (r: bool)
        ensures
            r == (1 <= handle && handle <= self.values@.len()),
    {
        1 <= handle && handle <= self.values.len() as u64
    }

    /// The value bound to `handle`, or `MissingResource`.
    pub fn try_get(&self, handle: u64) -> (r: Result<&V, MissingResource>)
        ensures
            match r {
                Result::Ok(v) => 1 <= handle <= self.values@.len() && v == &self.values@[handle
                    - 1],
                Result::Err(_) => handle == 0 || handle > self.values@.len(),
            },
    {
        match self.get(handle) {
            Option::Some(v) => Result::Ok(v),
            Option::None => Result::Err(MissingResource),
        }
    }

    /// The number of bound handles.
    pub fn len(&self) -> (r: usize)
        ensures
            r == self.values@.len(),
    {
        self.values.len()
    }
}

/// Binding the same value twice in a row is idempotent: the second call
/// returns the same handle as the first, reports the value as not new, and
/// leaves the map unchanged.
pub proof fn lemma_bind_if_new_idempotent<V: ResourceValue>(s: Seq<V>, v: V)
    ensures
        ({
            let (s1, h1, _n1) = spec_bind_if_new(s, v);
            let (s2, h2, n2) = spec_bind_if_new(s1, v);
            s2 == s1 && h2 == h1 && n2 == false
        }),
{
    lemma_find_eqv_props(s, v);
    match find_eqv(s, v) {
        Option::None => {
            lemma_find_eqv_push_absent(s, v);
        },
        Option::Some(i) => {
        },
    }
}

} // verus!
