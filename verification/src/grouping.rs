//! Geometric grouping of entries: an `Area` selects a subspace (or all of
//! them), a path prefix and a time interval; a `ThreeDRange` is the
//! half-open product of one range per axis, used during reconciliation.
//! Areas support inclusion and intersection and project onto ranges.

use vstd::prelude::*;
use crate::keys::SubspaceId;
use crate::util::clone_bytes;
use crate::util::bytes_eq;
use crate::util::bytes_leq;
use crate::util::bytes_less;
use crate::util::lex_less;
use crate::util::lex_leq;
use crate::util::read_bytes;

verus! {

/// Longest path, in bytes, that an entry may carry.
pub const MAX_PATH_LENGTH: usize = 4096;

/// The subspace axis of an area: one subspace or all of them.
#[derive(Debug)]
pub enum AreaSubspace {
    Any,
    Id(SubspaceId),
}

/// Upper bound of one axis of a half-open range: a value (excluded) or no
/// bound at all.
#[derive(Debug)]
pub enum RangeEnd<T> {
    Open,
    Closed(T),
}

/// A half-open interval of timestamps.
#[derive(Debug)]
pub struct TimeRange {
    pub start: u64,
    pub end: RangeEnd<u64>,
}

/// An area: a subspace selector, a path prefix and a time interval.
#[derive(Debug)]
pub struct Area {
    pub subspace: AreaSubspace,
    pub path: Vec<u8>,
    pub times: TimeRange,
}

/// A half-open interval of byte strings in lexicographic order.
#[derive(Debug)]
pub struct ByteRange {
    pub start: Vec<u8>,
    pub end: RangeEnd<Vec<u8>>,
}

/// The half-open product of a subspace range, a path range and a time range.
#[derive(Debug)]
pub struct ThreeDRange {
    pub subspaces: ByteRange,
    pub paths: ByteRange,
    pub times: TimeRange,
}

/// Whether `a` is a prefix of `b`.
pub open spec fn is_prefix(a: Seq<u8>, b: Seq<u8>) -> bool {
    a.len() <= b.len() && a == b.take(a.len() as int)
}

/// Whether a timestamp lies in a time interval.
pub open spec fn time_included(t: TimeRange, x: u64) -> bool {
    t.start <= x && match t.end {
        RangeEnd::Open => true,
        RangeEnd::Closed(e) => x < e,
    }
}

/// Whether a byte string lies in a half-open byte range.
pub open spec fn byte_range_included(r: ByteRange, x: Seq<u8>) -> bool {
    lex_leq(r.start@, x) && match r.end {
        RangeEnd::Open => true,
        RangeEnd::Closed(e) => lex_less(x, e@),
    }
}

/// Whether an area includes the entry coordinates `(subspace, path, time)`.
pub open spec fn area_includes(a: Area, subspace: Seq<u8>, path: Seq<u8>, time: u64) -> bool {
    &&& match a.subspace {
        AreaSubspace::Any => true,
        AreaSubspace::Id(s) => s.bytes@ == subspace,
    }
    &&& is_prefix(a.path@, path)
    &&& time_included(a.times, time)
}

/// Whether a range includes the entry coordinates `(subspace, path, time)`.
pub open spec fn range_includes(r: ThreeDRange, subspace: Seq<u8>, path: Seq<u8>, time: u64) -> bool {
    &&& byte_range_included(r.subspaces, subspace)
    &&& byte_range_included(r.paths, path)
    &&& time_included(r.times, time)
}

/// Whether area `outer` includes every coordinate that area `inner` includes.
/// Stated structurally: subspace selector, path prefix and time interval are
/// each at least as wide.
pub open spec fn area_includes_area(outer: Area, inner: Area) -> bool {
    &&& match outer.subspace {
        AreaSubspace::Any => true,
        AreaSubspace::Id(s) => match inner.subspace {
            AreaSubspace::Any => false,
            AreaSubspace::Id(t) => s.bytes@ == t.bytes@,
        },
    }
    &&& is_prefix(outer.path@, inner.path@)
    &&& inner.times.start >= outer.times.start
    &&& match outer.times.end {
        RangeEnd::Open => true,
        RangeEnd::Closed(oe) => match inner.times.end {
            RangeEnd::Open => false,
            RangeEnd::Closed(ie) => ie <= oe,
        },
    }
}

impl TimeRange {
    /// The interval of all timestamps.
    pub fn full() -> (r: TimeRange)
        ensures
            r.start == 0,
            r.end matches RangeEnd::Open,
    {
        TimeRange { start: 0, end: RangeEnd::Open }
    }

    /// Whether `x` lies in this interval.
    pub fn includes(&self, x: u64) -> (r: bool)
        ensures
            r == time_included(*self, x),
    {
        self.start <= x && match self.end {
            RangeEnd::Open => true,
            RangeEnd::Closed(e) => x < e,
        }
    }
}

impl Clone for TimeRange {
    fn clone(&self) -> (r: Self)
        ensures
            r == *self,
    {
        TimeRange {
            start: self.start,
            end: match self.end {
                RangeEnd::Open => RangeEnd::Open,
                RangeEnd::Closed(e) => RangeEnd::Closed(e),
            },
        }
    }
}

impl ByteRange {
    /// Whether byte string `x` lies in this range.
    pub fn includes(&self, x: &Vec<u8>) -> (r: bool)
        ensures
            r == byte_range_included(*self, x@),
    {
        bytes_leq(&self.start, x) && match &self.end {
            RangeEnd::Open => true,
            RangeEnd::Closed(e) => bytes_less(x, e),
        }
    }
}

impl Clone for ByteRange {
    fn clone(&self) -> (r: Self)
        ensures
            r.start@ == self.start@,
            match (r.end, self.end) {
                (RangeEnd::Open, RangeEnd::Open) => true,
                (RangeEnd::Closed(a), RangeEnd::Closed(b)) => a@ == b@,
                _ => false,
            },
    {
        ByteRange {
            start: clone_bytes(&self.start),
            end: match &self.end {
                RangeEnd::Open => RangeEnd::Open,
                RangeEnd::Closed(e) => RangeEnd::Closed(clone_bytes(e)),
            },
        }
    }
}

/// Views of two byte ranges are equal.
pub open spec fn byte_range_eqv(a: ByteRange, b: ByteRange) -> bool {
    a.start@ == b.start@ && match (a.end, b.end) {
        (RangeEnd::Open, RangeEnd::Open) => true,
        (RangeEnd::Closed(x), RangeEnd::Closed(y)) => x@ == y@,
        _ => false,
    }
}

/// Views of two ranges are equal, axis by axis.
pub open spec fn range_eqv(a: ThreeDRange, b: ThreeDRange) -> bool {
    byte_range_eqv(a.subspaces, b.subspaces) && byte_range_eqv(a.paths, b.paths) && a.times
        == b.times
}

pub broadcast proof fn lemma_byte_range_eqv_same_members(a: ByteRange, b: ByteRange, x: Seq<u8>)
    requires
        byte_range_eqv(a, b),
    ensures
        #[trigger] byte_range_included(a, x) == #[trigger] byte_range_included(b, x),
{
}

impl ThreeDRange {
    /// Whether the coordinates `(subspace, path, time)` lie in this range.
    pub fn includes(&self, subspace: &SubspaceId, path: &Vec<u8>, time: u64) -> (r: bool)
        ensures
            r == range_includes(*self, subspace.bytes@, path@, time),
    {
        self.subspaces.includes(&subspace.bytes) && self.paths.includes(path)
            && self.times.includes(time)
    }

    /// Byte-wise equality of ranges.
    pub fn same_range(&self, other: &ThreeDRange) -> (r: bool)
        ensures
            r == range_eqv(*self, *other),
    {
        let sub_ok = bytes_eq(&self.subspaces.start, &other.subspaces.start) && match (
        &self.subspaces.end, &other.subspaces.end) {
            (RangeEnd::Open, RangeEnd::Open) => true,
            (RangeEnd::Closed(a), RangeEnd::Closed(b)) => bytes_eq(a, b),
            _ => false,
        };
        let path_ok = bytes_eq(&self.paths.start, &other.paths.start) && match (&self.paths.end,
        &other.paths.end) {
            (RangeEnd::Open, RangeEnd::Open) => true,
            (RangeEnd::Closed(a), RangeEnd::Closed(b)) => bytes_eq(a, b),
            _ => false,
        };
        let time_ok = self.times.start == other.times.start && match (&self.times.end,
        &other.times.end) {
            (RangeEnd::Open, RangeEnd::Open) => true,
            (RangeEnd::Closed(a), RangeEnd::Closed(b)) => a == b,
            _ => false,
        };
        sub_ok && path_ok && time_ok
    }
}

impl Clone for ThreeDRange {
    fn clone(&self) -> (r: Self)
        ensures
            range_eqv(r, *self),
    {
        ThreeDRange {
            subspaces: self.subspaces.clone(),
            paths: self.paths.clone(),
            times: self.times.clone(),
        }
    }
}

/// The successor of the first `n` bytes of `s` among byte strings of that
/// same length, if one exists (`None` when all `n` bytes are `0xff`).
pub open spec fn succ_fixed_spec(s: Seq<u8>) -> Option<Seq<u8>>
    decreases s.len(),
{
    if s.len() == 0 {
        Option::None
    } else if s[s.len() - 1] < 255 {
        Option::Some(s.update(s.len() - 1, (s[s.len() - 1] + 1) as u8))
    } else {
        match succ_fixed_spec(s.take(s.len() - 1)) {
            Option::None => Option::None,
            Option::Some(t) => Option::Some(t.push(0)),
        }
    }
}

/// The least byte string beyond every extension of `s`: trailing `0xff`
/// bytes are dropped and the last remaining byte incremented (`None` when
/// `s` is empty or all `0xff`).
pub open spec fn prefix_succ_spec(s: Seq<u8>) -> Option<Seq<u8>>
    decreases s.len(),
{
    if s.len() == 0 {
        Option::None
    } else if s[s.len() - 1] < 255 {
        Option::Some(s.update(s.len() - 1, (s[s.len() - 1] + 1) as u8))
    } else {
        prefix_succ_spec(s.take(s.len() - 1))
    }
}

fn succ_fixed_rec(v: &Vec<u8>, n: usize) -> (r: Option<Vec<u8>>)
    requires
        n <= v@.len(),
    ensures
        match (r, succ_fixed_spec(v@.take(n as int))) {
            (Option::None, Option::None) => true,
            (Option::Some(w), Option::Some(t)) => w@ == t,
            _ => false,
        },
    decreases n,
{
    if n == 0 {
        Option::None
    } else if v[n - 1] < 255 {
        let mut w = read_bytes(v, 0, n);
        w.set(n - 1, v[n - 1] + 1);
        proof {
            assert(w@ =~= v@.take(n as int).update(n - 1, (v@[n as int - 1] + 1) as u8));
        }
        Option::Some(w)
    } else {
        match succ_fixed_rec(v, n - 1) {
            Option::None => {
                proof {
                    assert(v@.take(n as int).take(n - 1) =~= v@.take(n - 1));
                }
                Option::None
            },
            Option::Some(mut t) => {
                t.push(0);
                proof {
                    assert(v@.take(n as int).take(n - 1) =~= v@.take(n - 1));
                }
                Option::Some(t)
            },
        }
    }
}

fn prefix_succ_rec(v: &Vec<u8>, n: usize) -> (r: Option<Vec<u8>>)
    requires
        n <= v@.len(),
    ensures
        match (r, prefix_succ_spec(v@.take(n as int))) {
            (Option::None, Option::None) => true,
            (Option::Some(w), Option::Some(t)) => w@ == t,
            _ => false,
        },
    decreases n,
{
    if n == 0 {
        Option::None
    } else if v[n - 1] < 255 {
        let mut w = read_bytes(v, 0, n);
        w.set(n - 1, v[n - 1] + 1);
        proof {
            assert(w@ =~= v@.take(n as int).update(n - 1, (v@[n as int - 1] + 1) as u8));
        }
        Option::Some(w)
    } else {
        let r = prefix_succ_rec(v, n - 1);
        proof {
            assert(v@.take(n as int).take(n - 1) =~= v@.take(n - 1));
        }
        r
    }
}

/// The successor of `v` among byte strings of the same length.
pub fn succ_fixed(v: &Vec<u8>) -> (r: Option<Vec<u8>>)
    ensures
        match (r, succ_fixed_spec(v@)) {
            (Option::None, Option::None) => true,
            (Option::Some(w), Option::Some(t)) => w@ == t,
            _ => false,
        },
{
    let r = succ_fixed_rec(v, v.len());
    proof {
        assert(v@.take(v@.len() as int) =~= v@);
    }
    r
}

/// The least byte string beyond every extension of `v`.
pub fn prefix_succ(v: &Vec<u8>) -> (r: Option<Vec<u8>>)
    ensures
        match (r, prefix_succ_spec(v@)) {
            (Option::None, Option::None) => true,
            (Option::Some(w), Option::Some(t)) => w@ == t,
            _ => false,
        },
{
    let r = prefix_succ_rec(v, v.len());
    proof {
        assert(v@.take(v@.len() as int) =~= v@);
    }
    r
}

impl Area {
    /// The area covering one subspace entirely.
    pub fn subspace(id: SubspaceId) -> (r: Area)
        ensures
            r.subspace matches AreaSubspace::Id(s) && s.bytes@ == id.bytes@,
            r.path@.len() == 0,
            r.times.start == 0,
            r.times.end matches RangeEnd::Open,
    {
        Area { subspace: AreaSubspace::Id(id), path: Vec::new(), times: TimeRange::full() }
    }

    /// The area covering the whole namespace.
    pub fn full() -> (r: Area)
        ensures
            r.subspace matches AreaSubspace::Any,
            r.path@.len() == 0,
            r.times.start == 0,
            r.times.end matches RangeEnd::Open,
    {
        Area { subspace: AreaSubspace::Any, path: Vec::new(), times: TimeRange::full() }
    }

    /// Whether this area includes the entry coordinates.
    pub fn includes(&self, subspace: &SubspaceId, path: &Vec<u8>, time: u64) -> (r: bool)
        ensures
            r == area_includes(*self, subspace.bytes@, path@, time),
    {
        let sub_ok = match &self.subspace {
            AreaSubspace::Any => true,
            AreaSubspace::Id(s) => bytes_eq(&s.bytes, &subspace.bytes),
        };
        let path_ok = is_prefix_exec(&self.path, path);
        sub_ok && path_ok && self.times.includes(time)
    }

    /// Whether this area includes every coordinate of `other`.
    pub fn includes_area(&self, other: &Area) -> (r: bool)
        ensures
            r == area_includes_area(*self, *other),
    {
        let sub_ok = match &self.subspace {
            AreaSubspace::Any => true,
            AreaSubspace::Id(s) => match &other.subspace {
                AreaSubspace::Any => false,
                AreaSubspace::Id(t) => bytes_eq(&s.bytes, &t.bytes),
            },
        };
        let path_ok = is_prefix_exec(&self.path, &other.path);
        let times_ok = other.times.start >= self.times.start && match &self.times.end {
            RangeEnd::Open => true,
            RangeEnd::Closed(oe) => match &other.times.end {
                RangeEnd::Open => false,
                RangeEnd::Closed(ie) => *ie <= *oe,
            },
        };
        sub_ok && path_ok && times_ok
    }

    /// The component-wise intersection, or `None` when some axis is
    /// disjoint. Subspaces intersect when equal or when one side is `Any`;
    /// path prefixes when one is a prefix of the other (the longer prefix
    /// wins); time intervals in the usual way.
    pub fn intersection(&self, other: &Area) -> (r: Option<Area>)
        ensures
            r is Some <==> areas_overlap(*self, *other),
            match r {
                Option::Some(c) => area_intersection_of(c, *self, *other),
                Option::None => {
                    ||| (self.subspace matches AreaSubspace::Id(s) && other.subspace
                        matches AreaSubspace::Id(t) && s.bytes@ != t.bytes@)
                    ||| (!is_prefix(self.path@, other.path@) && !is_prefix(
                        other.path@,
                        self.path@,
                    ))
                    ||| !time_ranges_overlap(self.times, other.times)
                },
            },
    {
        let subspace = match (&self.subspace, &other.subspace) {
            (AreaSubspace::Any, AreaSubspace::Any) => AreaSubspace::Any,
            (AreaSubspace::Any, AreaSubspace::Id(t)) => AreaSubspace::Id(t.clone()),
            (AreaSubspace::Id(s), AreaSubspace::Any) => AreaSubspace::Id(s.clone()),
            (AreaSubspace::Id(s), AreaSubspace::Id(t)) => {
                if bytes_eq(&s.bytes, &t.bytes) {
                    AreaSubspace::Id(s.clone())
                } else {
                    return Option::None;
                }
            },
        };
        let path = if is_prefix_exec(&self.path, &other.path) {
            clone_bytes(&other.path)
        } else if is_prefix_exec(&other.path, &self.path) {
            clone_bytes(&self.path)
        } else {
            return Option::None;
        };
        proof {
            assert(self.path@.take(self.path@.len() as int) =~= self.path@);
            assert(other.path@.take(other.path@.len() as int) =~= other.path@);
        }
        let start = if self.times.start >= other.times.start {
            self.times.start
        } else {
            other.times.start
        };
        let end = match (&self.times.end, &other.times.end) {
            (RangeEnd::Open, RangeEnd::Open) => RangeEnd::Open,
            (RangeEnd::Open, RangeEnd::Closed(b)) => RangeEnd::Closed(*b),
            (RangeEnd::Closed(a), RangeEnd::Open) => RangeEnd::Closed(*a),
            (RangeEnd::Closed(a), RangeEnd::Closed(b)) => RangeEnd::Closed(
                if *a <= *b {
                    *a
                } else {
                    *b
                },
            ),
        };
        let nonempty = match &end {
            RangeEnd::Open => true,
            RangeEnd::Closed(e) => start < *e,
        };
        if !nonempty {
            return Option::None;
        }
        Option::Some(Area { subspace, path: path, times: TimeRange { start, end } })
    }

    /// Projects this area onto a half-open three-dimensional range that
    /// includes the same coordinates.
    pub fn into_range(&self) -> (r: ThreeDRange)
        ensures
            range_projects_area(r, *self),
    {
        let subspaces = match &self.subspace {
            AreaSubspace::Any => ByteRange { start: Vec::new(), end: RangeEnd::Open },
            AreaSubspace::Id(s) => ByteRange {
                start: clone_bytes(&s.bytes),
                end: match succ_fixed(&s.bytes) {
                    Option::None => RangeEnd::Open,
                    Option::Some(t) => RangeEnd::Closed(t),
                },
            },
        };
        let paths = ByteRange {
            start: clone_bytes(&self.path),
            end: match prefix_succ(&self.path) {
                Option::None => RangeEnd::Open,
                Option::Some(t) => RangeEnd::Closed(t),
            },
        };
        ThreeDRange { subspaces, paths, times: self.times.clone() }
    }
}

/// Whether two areas have a common coordinate: compatible subspace
/// selectors, comparable path prefixes and overlapping time intervals —
/// exactly when `Area::intersection` succeeds.
pub open spec fn areas_overlap(a: Area, b: Area) -> bool {
    &&& match (a.subspace, b.subspace) {
        (AreaSubspace::Id(s), AreaSubspace::Id(t)) => s.bytes@ == t.bytes@,
        _ => true,
    }
    &&& (is_prefix(a.path@, b.path@) || is_prefix(b.path@, a.path@))
    &&& time_ranges_overlap(a.times, b.times)
}

/// `c` is the component-wise intersection of areas `a` and `b`: the more
/// specific subspace selector, the longer path prefix, and the overlap of
/// the time intervals.
pub open spec fn area_intersection_of(c: Area, a: Area, b: Area) -> bool {
    &&& match (a.subspace, b.subspace, c.subspace) {
        (AreaSubspace::Any, AreaSubspace::Any, AreaSubspace::Any) => true,
        (AreaSubspace::Any, AreaSubspace::Id(t), AreaSubspace::Id(u)) => u.bytes@ == t.bytes@,
        (AreaSubspace::Id(s), AreaSubspace::Any, AreaSubspace::Id(u)) => u.bytes@ == s.bytes@,
        (AreaSubspace::Id(s), AreaSubspace::Id(t), AreaSubspace::Id(u)) => s.bytes@ == t.bytes@
            && u.bytes@ == s.bytes@,
        _ => false,
    }
    &&& (c.path@ == a.path@ || c.path@ == b.path@)
    &&& is_prefix(a.path@, c.path@)
    &&& is_prefix(b.path@, c.path@)
    &&& c.times.start == if a.times.start >= b.times.start {
        a.times.start
    } else {
        b.times.start
    }
    &&& match (a.times.end, b.times.end, c.times.end) {
        (RangeEnd::Open, RangeEnd::Open, RangeEnd::Open) => true,
        (RangeEnd::Open, RangeEnd::Closed(y), RangeEnd::Closed(e)) => e == y,
        (RangeEnd::Closed(x), RangeEnd::Open, RangeEnd::Closed(e)) => e == x,
        (RangeEnd::Closed(x), RangeEnd::Closed(y), RangeEnd::Closed(e)) => e == (if x <= y {
            x
        } else {
            y
        }),
        _ => false,
    }
    &&& c.times.start <= u64::MAX
}

/// `r` is the half-open projection of area `a`: the subspace axis runs
/// from the selected subspace to its successor (or everything), the path
/// axis from the prefix to its successor, and the times carry over.
pub open spec fn range_projects_area(r: ThreeDRange, a: Area) -> bool {
    &&& r.times == a.times
    &&& match a.subspace {
        AreaSubspace::Any => r.subspaces.start@.len() == 0 && r.subspaces.end
            matches RangeEnd::Open,
        AreaSubspace::Id(s) => r.subspaces.start@ == s.bytes@ && match r.subspaces.end {
            RangeEnd::Open => succ_fixed_spec(s.bytes@) is None,
            RangeEnd::Closed(e) => succ_fixed_spec(s.bytes@) matches Option::Some(t) && e@ == t,
        },
    }
    &&& r.paths.start@ == a.path@
    &&& match r.paths.end {
        RangeEnd::Open => prefix_succ_spec(a.path@) is None,
        RangeEnd::Closed(e) => prefix_succ_spec(a.path@) matches Option::Some(t) && e@ == t,
    }
}

/// Whether two time intervals have a common timestamp.
pub open spec fn time_ranges_overlap(a: TimeRange, b: TimeRange) -> bool {
    let start = if a.start >= b.start {
        a.start
    } else {
        b.start
    };
    match (a.end, b.end) {
        (RangeEnd::Open, RangeEnd::Open) => true,
        (RangeEnd::Open, RangeEnd::Closed(e)) => start < e,
        (RangeEnd::Closed(e), RangeEnd::Open) => start < e,
        (RangeEnd::Closed(e1), RangeEnd::Closed(e2)) => start < (if e1 <= e2 {
            e1
        } else {
            e2
        }),
    }
}

impl Clone for Area {
    fn clone(&self) -> (r: Self)
        ensures
            area_eqv(r, *self),
    {
        Area {
            subspace: match &self.subspace {
                AreaSubspace::Any => AreaSubspace::Any,
                AreaSubspace::Id(s) => AreaSubspace::Id(s.clone()),
            },
            path: clone_bytes(&self.path),
            times: self.times.clone(),
        }
    }
}

/// Views of two areas are equal.
pub open spec fn area_eqv(a: Area, b: Area) -> bool {
    &&& match (a.subspace, b.subspace) {
        (AreaSubspace::Any, AreaSubspace::Any) => true,
        (AreaSubspace::Id(s), AreaSubspace::Id(t)) => s.bytes@ == t.bytes@,
        _ => false,
    }
    &&& a.path@ == b.path@
    &&& a.times == b.times
}

/// Byte-wise equality of areas.
pub fn area_eq(a: &Area, b: &Area) -> (r: bool)
    ensures
        r == area_eqv(*a, *b),
{
    let sub_ok = match (&a.subspace, &b.subspace) {
        (AreaSubspace::Any, AreaSubspace::Any) => true,
        (AreaSubspace::Id(s), AreaSubspace::Id(t)) => bytes_eq(&s.bytes, &t.bytes),
        _ => false,
    };
    let times_ok = a.times.start == b.times.start && match (&a.times.end, &b.times.end) {
        (RangeEnd::Open, RangeEnd::Open) => true,
        (RangeEnd::Closed(x), RangeEnd::Closed(y)) => *x == *y,
        _ => false,
    };
    sub_ok && bytes_eq(&a.path, &b.path) && times_ok
}

/// Whether `a` is a prefix of `b`.
pub fn is_prefix_exec(a: &Vec<u8>, b: &Vec<u8>) -> (r: bool)
    ensures
        r == is_prefix(a@, b@),
{
    if a.len() > b.len() {
        return false;
    }
    let mut i: usize = 0;
    while i < a.len()
        invariant
            i <= a.len(),
            a.len() <= b.len(),
            a@.len() <= b@.len(),
            forall|j: int| 0 <= j < i ==> a@[j] == b@[j],
        decreases a.len() - i,
    {
        if a[i] != b[i] {
            proof {
                assert(a@[i as int] != b@.take(a@.len() as int)[i as int]);
            }
            return false;
        }
        i = i + 1;
    }
    proof {
        assert(a@ =~= b@.take(a@.len() as int));
    }
    true
}

} // verus!
