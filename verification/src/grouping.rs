//! The area algebra: rectangular regions of a namespace.
//!
//! An [`Area`] selects entries by subspace, path prefix and timestamp range.
//! Areas support an inclusion test and a (partial) intersection; both are
//! specified against point containment: an area is the set of entry
//! coordinates `(subspace, path, timestamp)` it contains.

use vstd::prelude::*;

use crate::keys::SubspaceId;

verus! {

/// Upper end of a timestamp range: bounded (exclusive) or unbounded.
#[derive(Clone, Copy, PartialEq, Eq, Structural, Debug)]
pub enum RangeEnd {
    /// The range ends (exclusively) at this timestamp.
    Closed(u64),
    /// The range never ends.
    Open,
}

impl RangeEnd {
    /// Does a timestamp lie below this end?
    pub open spec fn spec_above(self, t: u64) -> bool {
        match self {
            RangeEnd::Closed(e) => t < e,
            RangeEnd::Open => true,
        }
    }

    /// Is `self` at most `other`, as an upper bound?
    pub open spec fn spec_le(self, other: RangeEnd) -> bool {
        match (self, other) {
            (RangeEnd::Closed(a), RangeEnd::Closed(b)) => a <= b,
            (RangeEnd::Closed(_), RangeEnd::Open) => true,
            (RangeEnd::Open, RangeEnd::Closed(_)) => false,
            (RangeEnd::Open, RangeEnd::Open) => true,
        }
    }

    /// The smaller of two upper bounds.
    pub open spec fn spec_min(self, other: RangeEnd) -> RangeEnd {
        if self.spec_le(other) {
            self
        } else {
            other
        }
    }
}

/// A half-open range of timestamps `[start, end)`.
#[derive(Clone, Copy, PartialEq, Eq, Structural, Debug)]
pub struct TimeRange {
    /// Inclusive lower bound.
    pub start: u64,
    /// Exclusive upper bound, possibly unbounded.
    pub end: RangeEnd,
}

impl TimeRange {
    /// The range of all timestamps.
    pub fn full() -> (r: TimeRange)
        ensures
            r == (TimeRange { start: 0u64, end: RangeEnd::Open }),
    {
        TimeRange { start: 0, end: RangeEnd::Open }
    }

    /// Does the range contain this timestamp?
    pub open spec fn spec_contains(self, t: u64) -> bool {
        self.start <= t && self.end.spec_above(t)
    }

    /// Does the range contain any timestamp at all?
    pub open spec fn spec_is_nonempty(self) -> bool {
        self.end.spec_above(self.start)
    }

    /// Is every timestamp of `other` also in `self`?
    pub open spec fn spec_includes(self, other: TimeRange) -> bool {
        self.start <= other.start && other.end.spec_le(self.end)
    }

    /// The timestamps common to both ranges (possibly an empty range).
    pub open spec fn spec_intersection(self, other: TimeRange) -> TimeRange {
        TimeRange {
            start: if self.start >= other.start {
                self.start
            } else {
                other.start
            },
            end: self.end.spec_min(other.end),
        }
    }

    /// Containment test for a single timestamp.
    pub fn contains(&self, t: u64) -> (r: bool)
        ensures
            r == self.spec_contains(t),
    {
        self.start <= t && match self.end {
            RangeEnd::Closed(e) => t < e,
            RangeEnd::Open => true,
        }
    }

    /// Exact inclusion test.
    pub fn includes(&self, other: &TimeRange) -> (r: bool)
        ensures
            r == self.spec_includes(*other),
    {
        self.start <= other.start && match (other.end, self.end) {
            (RangeEnd::Closed(a), RangeEnd::Closed(b)) => a <= b,
            (RangeEnd::Closed(_), RangeEnd::Open) => true,
            (RangeEnd::Open, RangeEnd::Closed(_)) => false,
            (RangeEnd::Open, RangeEnd::Open) => true,
        }
    }

    /// The common subrange, `None` when no timestamp is shared.
    pub fn intersection(&self, other: &TimeRange) -> (r: Option<TimeRange>)
        ensures
            r is Some <==> self.spec_intersection(*other).spec_is_nonempty(),
            r is Some ==> r->Some_0 == self.spec_intersection(*other),
    {
        let start: u64 = if self.start >= other.start {
            self.start
        } else {
            other.start
        };
        let end: RangeEnd = match (self.end, other.end) {
            (RangeEnd::Closed(a), RangeEnd::Closed(b)) => RangeEnd::Closed(if a <= b {
                a
            } else {
                b
            }),
            (RangeEnd::Closed(a), RangeEnd::Open) => RangeEnd::Closed(a),
            (RangeEnd::Open, e) => e,
        };
        let nonempty = match end {
            RangeEnd::Closed(e) => start < e,
            RangeEnd::Open => true,
        };
        if nonempty {
            Some(TimeRange { start, end })
        } else {
            None
        }
    }

    /// A range contains a timestamp of `other` exactly when their
    /// intersection is nonempty.
    pub proof fn lemma_intersection_contains(self, other: TimeRange, t: u64)
        ensures
            self.spec_intersection(other).spec_contains(t) <==> self.spec_contains(t)
                && other.spec_contains(t),
    {
    }

    /// A nonempty intersection contains its own start.
    pub proof fn lemma_nonempty_has_point(self)
        requires
            self.spec_is_nonempty(),
        ensures
            self.spec_contains(self.start),
    {
    }
}

/// A path: a sequence of opaque components, addressed by prefix.
#[derive(PartialEq, Eq, Debug)]
pub struct Path {
    /// The components, outermost first.
    pub components: Vec<u64>,
}

impl View for Path {
    type V = Seq<u64>;

    open spec fn view(&self) -> Seq<u64> {
        self.components@
    }
}

impl Clone for Path {
    fn clone(&self) -> (r: Self)
        ensures
            r@ == self@,
    {
        let mut components: Vec<u64> = Vec::new();
        let mut i: usize = 0;
        while i < self.components.len()
            invariant
                i <= self.components.len(),
                components@ =~= self.components@.subrange(0, i as int),
            decreases self.components.len() - i,
        {
            components.push(self.components[i]);
            i += 1;
        }
        proof {
            assert(components@ =~= self.components@);
        }
        Path { components }
    }
}

impl Path {
    /// The empty path, prefix of every path.
    pub fn empty() -> (r: Path)
        ensures
            r@ == Seq::<u64>::empty(),
    {
        Path { components: Vec::new() }
    }

    /// A path made of the given components.
    pub fn from_components(components: Vec<u64>) -> (r: Path)
        ensures
            r@ == components@,
    {
        Path { components }
    }

    /// Is `self` a prefix of `other`?
    pub fn is_prefix_of(&self, other: &Path) -> (r: bool)
        ensures
            r == self@.is_prefix_of(other@),
    {
        if self.components.len() > other.components.len() {
            proof {
                assert(!self@.is_prefix_of(other@));
            }
            return false;
        }
        let mut i: usize = 0;
        while i < self.components.len()
            invariant
                i <= self.components.len() <= other.components.len(),
                forall|j: int| 0 <= j < i ==> self.components@[j] == other.components@[j],
            decreases self.components.len() - i,
        {
            if self.components[i] != other.components[i] {
                proof {
                    assert(!(self@ =~= other@.subrange(0, self@.len() as int)));
                }
                return false;
            }
            i += 1;
        }
        proof {
            assert(self@ =~= other@.subrange(0, self@.len() as int));
        }
        true
    }

    /// Two prefixes of one path are ordered by length.
    pub proof fn lemma_common_extension(p1: Seq<u64>, p2: Seq<u64>, x: Seq<u64>)
        requires
            p1.is_prefix_of(x),
            p2.is_prefix_of(x),
            p1.len() <= p2.len(),
        ensures
            p1.is_prefix_of(p2),
    {
        assert(p1 =~= p2.subrange(0, p1.len() as int));
    }

    /// Prefixing is transitive.
    pub proof fn lemma_prefix_transitive(p1: Seq<u64>, p2: Seq<u64>, p3: Seq<u64>)
        requires
            p1.is_prefix_of(p2),
            p2.is_prefix_of(p3),
        ensures
            p1.is_prefix_of(p3),
    {
        assert(p1 =~= p3.subrange(0, p1.len() as int));
    }
}

/// Subspace selector of an area: a single subspace, or all of them.
#[derive(Clone, Copy, PartialEq, Eq, Structural, Debug)]
pub enum AreaSubspace {
    /// Selects every subspace.
    Any,
    /// Selects exactly this subspace.
    Id(SubspaceId),
}

impl AreaSubspace {
    /// Does the selector admit this subspace?
    pub open spec fn spec_contains(self, s: SubspaceId) -> bool {
        match self {
            AreaSubspace::Any => true,
            AreaSubspace::Id(x) => x == s,
        }
    }

    /// Does `self` admit every subspace that `other` admits?
    pub open spec fn spec_includes(self, other: AreaSubspace) -> bool {
        match self {
            AreaSubspace::Any => true,
            AreaSubspace::Id(x) => other == AreaSubspace::Id(x),
        }
    }

    /// The selector admitting exactly the subspaces both admit, if that set
    /// is expressible (it always is).
    pub open spec fn spec_intersection(self, other: AreaSubspace) -> Option<AreaSubspace> {
        match (self, other) {
            (AreaSubspace::Any, o) => Some(o),
            (s, AreaSubspace::Any) => Some(s),
            (AreaSubspace::Id(x), AreaSubspace::Id(y)) => if x == y {
                Some(AreaSubspace::Id(x))
            } else {
                None
            },
        }
    }
}

/// The ghost value of an [`Area`]: the same rectangle with the path as a
/// mathematical sequence.
pub ghost struct AreaV {
    /// Subspace selector.
    pub subspace: AreaSubspace,
    /// Path prefix.
    pub path: Seq<u64>,
    /// Timestamp range.
    pub times: TimeRange,
}

impl AreaV {
    /// Point containment: the area contains an entry coordinate when the
    /// subspace matches, the area's path is a prefix of the entry's path and
    /// the timestamp lies in the range.
    pub open spec fn contains(self, s: SubspaceId, p: Seq<u64>, t: u64) -> bool {
        &&& self.subspace.spec_contains(s)
        &&& self.path.is_prefix_of(p)
        &&& self.times.spec_contains(t)
    }

    /// Structural inclusion of one area in another.
    pub open spec fn includes_area(self, other: AreaV) -> bool {
        &&& self.subspace.spec_includes(other.subspace)
        &&& self.path.is_prefix_of(other.path)
        &&& self.times.spec_includes(other.times)
    }

    /// Does the area contain any point at all? Subspace and path always
    /// admit points, so only the time range decides.
    pub open spec fn is_nonempty(self) -> bool {
        self.times.spec_is_nonempty()
    }

    /// Structural intersection of two areas; `None` when they share no point.
    pub open spec fn spec_intersection(self, other: AreaV) -> Option<AreaV> {
        match self.subspace.spec_intersection(other.subspace) {
            None => None,
            Some(subspace) => {
                if self.path.is_prefix_of(other.path) || other.path.is_prefix_of(self.path) {
                    let path = if other.path.is_prefix_of(self.path) {
                        self.path
                    } else {
                        other.path
                    };
                    let times = self.times.spec_intersection(other.times);
                    if times.spec_is_nonempty() {
                        Some(AreaV { subspace, path, times })
                    } else {
                        None
                    }
                } else {
                    None
                }
            },
        }
    }

    /// Do the two areas share a point?
    pub open spec fn intersects(self, other: AreaV) -> bool {
        self.spec_intersection(other) is Some
    }
}

/// A rectangular region of a namespace: a subspace selector, a path prefix
/// and a range of timestamps.
#[derive(PartialEq, Eq, Debug)]
pub struct Area {
    /// Which subspaces the area covers.
    pub subspace: AreaSubspace,
    /// The path prefix the area covers.
    pub path: Path,
    /// The timestamps the area covers.
    pub times: TimeRange,
}

impl View for Area {
    type V = AreaV;

    open spec fn view(&self) -> AreaV {
        AreaV { subspace: self.subspace, path: self.path@, times: self.times }
    }
}

impl Clone for Area {
    fn clone(&self) -> (r: Self)
        ensures
            r@ == self@,
    {
        Area { subspace: self.subspace, path: self.path.clone(), times: self.times }
    }
}

impl Area {
    /// The area covering a whole namespace.
    pub fn full() -> (r: Area)
        ensures
            r@ == (AreaV {
                subspace: AreaSubspace::Any,
                path: Seq::<u64>::empty(),
                times: TimeRange { start: 0u64, end: RangeEnd::Open },
            }),
            forall|s: SubspaceId, p: Seq<u64>, t: u64| r@.contains(s, p, t),
    {
        let r = Area { subspace: AreaSubspace::Any, path: Path::empty(), times: TimeRange::full() };
        proof {
            assert forall|s: SubspaceId, p: Seq<u64>, t: u64| r@.contains(s, p, t) by {
                assert(r@.path =~= p.subrange(0, 0));
            }
        }
        r
    }

    /// The full area of a single subspace.
    pub fn subspace(subspace: SubspaceId) -> (r: Area)
        ensures
            r@ == (AreaV {
                subspace: AreaSubspace::Id(subspace),
                path: Seq::<u64>::empty(),
                times: TimeRange { start: 0u64, end: RangeEnd::Open },
            }),
    {
        Area {
            subspace: AreaSubspace::Id(subspace),
            path: Path::empty(),
            times: TimeRange::full(),
        }
    }

    /// Point containment test.
    pub fn contains_point(&self, s: SubspaceId, p: &Path, t: u64) -> (r: bool)
        ensures
            r == self@.contains(s, p@, t),
    {
        let sub_ok = match self.subspace {
            AreaSubspace::Any => true,
            AreaSubspace::Id(x) => x.0 == s.0,
        };
        sub_ok && self.path.is_prefix_of(p) && self.times.contains(t)
    }

    /// Is every point of `other` also a point of `self`?
    pub fn includes_area(&self, other: &Area) -> (r: bool)
        ensures
            r == self@.includes_area(other@),
    {
        let sub_ok = match self.subspace {
            AreaSubspace::Any => true,
            AreaSubspace::Id(x) => match other.subspace {
                AreaSubspace::Id(y) => x.0 == y.0,
                AreaSubspace::Any => false,
            },
        };
        sub_ok && self.path.is_prefix_of(&other.path) && self.times.includes(&other.times)
    }

    /// The common rectangle of two areas, `None` when they share no point.
    pub fn intersection(&self, other: &Area) -> (r: Option<Area>)
        ensures
            r is Some <==> self@.spec_intersection(other@) is Some,
            r is Some ==> r->Some_0@ == self@.spec_intersection(other@)->Some_0,
    {
        let subspace = match (self.subspace, other.subspace) {
            (AreaSubspace::Any, o) => o,
            (s, AreaSubspace::Any) => s,
            (AreaSubspace::Id(x), AreaSubspace::Id(y)) => {
                if x.0 == y.0 {
                    AreaSubspace::Id(x)
                } else {
                    return None;
                }
            },
        };
        let path = if other.path.is_prefix_of(&self.path) {
            self.path.clone()
        } else if self.path.is_prefix_of(&other.path) {
            other.path.clone()
        } else {
            return None;
        };
        match self.times.intersection(&other.times) {
            None => None,
            Some(times) => Some(Area { subspace, path, times }),
        }
    }

    /// Value equality of two areas.
    pub fn same_area(&self, other: &Area) -> (r: bool)
        ensures
            r == (self@ == other@),
    {
        let sub_ok = match (self.subspace, other.subspace) {
            (AreaSubspace::Any, AreaSubspace::Any) => true,
            (AreaSubspace::Id(x), AreaSubspace::Id(y)) => x.0 == y.0,
            _ => false,
        };
        let path_ok = self.path.components == other.path.components;
        let times_ok = self.times.start == other.times.start && match (
            self.times.end,
            other.times.end,
        ) {
            (RangeEnd::Open, RangeEnd::Open) => true,
            (RangeEnd::Closed(a), RangeEnd::Closed(b)) => a == b,
            _ => false,
        };
        proof {
            if path_ok {
                assert(self.path@ =~= other.path@);
            }
        }
        sub_ok && path_ok && times_ok
    }
}

/// The ghost value of an [`AreaOfInterest`].
pub ghost struct AoiV {
    /// The area of interest.
    pub area: AreaV,
    /// Maximum number of entries of interest, `0` for no limit.
    pub max_count: u64,
    /// Maximum total payload size of interest, `0` for no limit.
    pub max_size: u64,
}

/// An [`Area`] together with optional caps on how much of its history is of
/// interest. Two areas of interest overlap exactly when their areas
/// intersect; the caps do not take part in matching.
#[derive(PartialEq, Eq, Debug)]
pub struct AreaOfInterest {
    /// The area of interest.
    pub area: Area,
    /// Maximum number of entries of interest, `0` for no limit.
    pub max_count: u64,
    /// Maximum total payload size of interest, `0` for no limit.
    pub max_size: u64,
}

impl View for AreaOfInterest {
    type V = AoiV;

    open spec fn view(&self) -> AoiV {
        AoiV { area: self.area@, max_count: self.max_count, max_size: self.max_size }
    }
}

impl Clone for AreaOfInterest {
    fn clone(&self) -> (r: Self)
        ensures
            r@ == self@,
    {
        AreaOfInterest { area: self.area.clone(), max_count: self.max_count, max_size: self.max_size }
    }
}

impl AreaOfInterest {
    /// An area of interest without caps.
    pub fn new(area: Area) -> (r: AreaOfInterest)
        ensures
            r@ == (AoiV { area: area@, max_count: 0u64, max_size: 0u64 }),
    {
        AreaOfInterest { area, max_count: 0, max_size: 0 }
    }

    /// Value equality of two areas of interest.
    pub fn same_aoi(&self, other: &AreaOfInterest) -> (r: bool)
        ensures
            r == (self@ == other@),
    {
        self.area.same_area(&other.area) && self.max_count == other.max_count && self.max_size
            == other.max_size
    }
}

/// An intersection contains exactly the points common to both areas.
pub proof fn lemma_intersection_points(a: AreaV, b: AreaV, s: SubspaceId, p: Seq<u64>, t: u64)
    ensures
        match a.spec_intersection(b) {
            Some(r) => r.contains(s, p, t) <==> (a.contains(s, p, t) && b.contains(s, p, t)),
            None => !(a.contains(s, p, t) && b.contains(s, p, t)),
        },
{
    a.times.lemma_intersection_contains(b.times, t);
    if a.contains(s, p, t) && b.contains(s, p, t) {
        if a.path.len() <= b.path.len() {
            Path::lemma_common_extension(a.path, b.path, p);
        } else {
            Path::lemma_common_extension(b.path, a.path, p);
        }
    }
    match a.spec_intersection(b) {
        Some(r) => {
            if r.contains(s, p, t) {
                Path::lemma_prefix_transitive(a.path, r.path, p);
                Path::lemma_prefix_transitive(b.path, r.path, p);
            }
        },
        None => {},
    }
}

/// Two areas intersect exactly when they share a point.
pub proof fn lemma_intersects_iff_common_point(a: AreaV, b: AreaV)
    ensures
        a.intersects(b) <==> exists|s: SubspaceId, p: Seq<u64>, t: u64|
            a.contains(s, p, t) && b.contains(s, p, t),
{
    if a.intersects(b) {
        let r = a.spec_intersection(b)->Some_0;
        let s = match r.subspace {
            AreaSubspace::Any => SubspaceId(0),
            AreaSubspace::Id(x) => x,
        };
        let p = r.path;
        let t = r.times.start;
        r.times.lemma_nonempty_has_point();
        assert(r.path =~= p.subrange(0, r.path.len() as int));
        assert(r.contains(s, p, t));
        lemma_intersection_points(a, b, s, p, t);
        assert(a.contains(s, p, t) && b.contains(s, p, t));
    }
    if exists|s: SubspaceId, p: Seq<u64>, t: u64| a.contains(s, p, t) && b.contains(s, p, t) {
        let (s, p, t) = choose|s: SubspaceId, p: Seq<u64>, t: u64|
            a.contains(s, p, t) && b.contains(s, p, t);
        lemma_intersection_points(a, b, s, p, t);
    }
}

/// Inclusion implies point containment carries over.
pub proof fn lemma_includes_contains(a: AreaV, b: AreaV, s: SubspaceId, p: Seq<u64>, t: u64)
    requires
        a.includes_area(b),
        b.contains(s, p, t),
    ensures
        a.contains(s, p, t),
{
    Path::lemma_prefix_transitive(a.path, b.path, p);
}

/// An included nonempty area always intersects the including one.
pub proof fn lemma_includes_nonempty_intersects(a: AreaV, b: AreaV)
    requires
        a.includes_area(b),
        b.is_nonempty(),
    ensures
        a.intersects(b),
        b.intersects(a),
{
    let s = match b.subspace {
        AreaSubspace::Any => SubspaceId(0),
        AreaSubspace::Id(x) => x,
    };
    let p = b.path;
    let t = b.times.start;
    b.times.lemma_nonempty_has_point();
    assert(b.path =~= p.subrange(0, b.path.len() as int));
    assert(b.contains(s, p, t));
    lemma_includes_contains(a, b, s, p, t);
    lemma_intersects_iff_common_point(a, b);
    lemma_intersects_iff_common_point(b, a);
}

/// Inclusion is transitive.
pub proof fn lemma_includes_transitive(a: AreaV, b: AreaV, c: AreaV)
    requires
        a.includes_area(b),
        b.includes_area(c),
    ensures
        a.includes_area(c),
{
    Path::lemma_prefix_transitive(a.path, b.path, c.path);
}

} // verus!
