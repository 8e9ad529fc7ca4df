//! Interest declarations and their resolved forms.
//!
//! A caller declares interest through capability selectors; the
//! authorisation collaborator resolves such a declaration into an
//! [`InterestMap`]: concrete areas of interest grouped by the authorisation
//! they were granted under. The dispatcher flattens that map into
//! [`NamespaceInterests`], keyed by namespace alone.

use vstd::prelude::*;

use crate::grouping::{AoiV, Area, AreaOfInterest, AreaV};
use crate::keys::{NamespaceId, UserId};

verus! {

/// A concrete authorisation under which areas were granted: the namespace it
/// grants access to, and an identifier of the granting capability.
#[derive(Clone, Copy, PartialEq, Eq, Structural, Hash, Debug)]
pub struct ReadAuthorisation {
    /// The namespace the authorisation grants access to.
    pub namespace: NamespaceId,
    /// Identifier of the capability the grant derives from.
    pub cap: u64,
}

impl ReadAuthorisation {
    /// The namespace this authorisation grants access to.
    pub fn namespace(&self) -> (r: NamespaceId)
        ensures
            r == self.namespace,
    {
        self.namespace
    }
}

/// Selects the user whose capabilities may satisfy a selector.
#[derive(Clone, Copy, PartialEq, Eq, Structural, Debug)]
pub enum UserSelector {
    /// Any user's capability qualifies.
    Any,
    /// Only this user's capabilities qualify.
    Exact(UserId),
}

/// Selects capabilities for a namespace.
#[derive(Clone, Copy, PartialEq, Eq, Structural, Debug)]
pub struct CapSelector {
    /// The namespace the capability must grant access to.
    pub namespace: NamespaceId,
    /// The user the capability must belong to.
    pub user: UserSelector,
}

impl CapSelector {
    /// Selects any capability for the namespace.
    pub fn any(namespace: NamespaceId) -> (r: CapSelector)
        ensures
            r == (CapSelector { namespace, user: UserSelector::Any }),
    {
        CapSelector { namespace, user: UserSelector::Any }
    }
}

/// Selects the areas of interest submitted under a capability.
#[derive(PartialEq, Eq, Debug)]
pub enum AreaOfInterestSelector {
    /// The widest area the capability grants.
    Widest,
    /// Exactly these areas.
    Exact(Vec<AreaOfInterest>),
}

impl Clone for AreaOfInterestSelector {
    fn clone(&self) -> (r: Self)
        ensures
            r == *self || (r matches AreaOfInterestSelector::Exact(v)
                && *self matches AreaOfInterestSelector::Exact(w) && aoi_views(v@) == aoi_views(
                w@,
            )),
    {
        match self {
            AreaOfInterestSelector::Widest => AreaOfInterestSelector::Widest,
            AreaOfInterestSelector::Exact(v) => {
                let out = clone_aois(v);
                AreaOfInterestSelector::Exact(out)
            },
        }
    }
}

/// A caller-declared interest specification: capability selectors, each with
/// the areas to synchronise under it. Interpreted only by the authorisation
/// collaborator.
#[derive(PartialEq, Eq, Debug)]
pub struct Interests {
    /// The selectors, in declaration order.
    pub entries: Vec<(CapSelector, AreaOfInterestSelector)>,
}

impl Clone for Interests {
    fn clone(&self) -> (r: Self)
        ensures
            r.entries@.len() == self.entries@.len(),
            forall|k: int|
                0 <= k < self.entries@.len() ==> (#[trigger] r.entries@[k]).0
                    == self.entries@[k].0,
    {
        let mut entries: Vec<(CapSelector, AreaOfInterestSelector)> = Vec::new();
        let mut i: usize = 0;
        while i < self.entries.len()
            invariant
                i <= self.entries.len(),
                entries@.len() == i,
                forall|k: int|
                    0 <= k < i ==> (#[trigger] entries@[k]).0 == self.entries@[k].0,
            decreases self.entries.len() - i,
        {
            let sel = self.entries[i].0;
            let areas = self.entries[i].1.clone();
            entries.push((sel, areas));
            i += 1;
        }
        Interests { entries }
    }
}

impl Interests {
    /// Starts building an interest declaration.
    pub fn builder() -> (r: Interests)
        ensures
            r.entries@.len() == 0,
    {
        Interests { entries: Vec::new() }
    }

    /// Adds a selector with chosen areas.
    pub fn add(self, cap: CapSelector, areas: AreaOfInterestSelector) -> (r: Interests)
        ensures
            r.entries@ == self.entries@.push((cap, areas)),
    {
        let mut entries = self.entries;
        entries.push((cap, areas));
        Interests { entries }
    }

    /// Adds a selector asking for the widest area the capability grants.
    pub fn add_full_cap(self, cap: CapSelector) -> (r: Interests)
        ensures
            r.entries@ == self.entries@.push((cap, AreaOfInterestSelector::Widest)),
    {
        self.add(cap, AreaOfInterestSelector::Widest)
    }
}

/// Access mode a capability is delegated with.
#[derive(Clone, Copy, PartialEq, Eq, Structural, Debug)]
pub enum AccessMode {
    /// Read-only access.
    Read,
    /// Read and write access.
    Write,
}

/// Restriction applied when delegating a capability.
#[derive(PartialEq, Eq, Debug)]
pub enum RestrictArea {
    /// Delegate the full granted area.
    Unrestricted,
    /// Restrict the delegation to this area.
    Restrict(Area),
}

/// The receiver of a capability delegation, with an optional restriction.
#[derive(PartialEq, Eq, Debug)]
pub struct DelegateTo {
    /// The user receiving the delegation.
    pub user: UserId,
    /// The restriction applied to the delegated area.
    pub restrict_area: RestrictArea,
}

impl DelegateTo {
    /// Combines a receiver and a restriction.
    pub fn new(user: UserId, restrict_area: RestrictArea) -> (r: DelegateTo)
        ensures
            r.user == user,
            r.restrict_area == restrict_area,
    {
        DelegateTo { user, restrict_area }
    }
}

/// A transferable capability: enough to import access to a namespace.
#[derive(Clone, Copy, PartialEq, Eq, Structural, Debug)]
pub struct CapabilityPack {
    /// The namespace the capability grants access to.
    pub namespace: NamespaceId,
    /// The user the capability was issued to.
    pub receiver: UserId,
    /// The access mode granted.
    pub access: AccessMode,
}

impl CapabilityPack {
    /// The namespace this pack grants access to.
    pub fn namespace(&self) -> (r: NamespaceId)
        ensures
            r == self.namespace,
    {
        self.namespace
    }
}

/// A resolved interest declaration: areas of interest grouped by the
/// authorisation they were granted under.
pub type InterestMap = Vec<(ReadAuthorisation, Vec<AreaOfInterest>)>;

/// Areas of interest grouped by namespace, value-deduplicated.
pub type NamespaceInterests = Vec<(NamespaceId, Vec<AreaOfInterest>)>;

/// Ghost values of a sequence of areas of interest.
pub open spec fn aoi_views(s: Seq<AreaOfInterest>) -> Seq<AoiV> {
    s.map_values(|a: AreaOfInterest| a@)
}

/// The set of ghost values in a sequence of areas of interest.
pub open spec fn aoi_set(s: Seq<AreaOfInterest>) -> Set<AoiV> {
    aoi_views(s).to_set()
}

/// Well-formedness of namespace-keyed interests: one bucket per namespace.
pub open spec fn ni_wf(s: Seq<(NamespaceId, Vec<AreaOfInterest>)>) -> bool {
    forall|i: int, j: int| 0 <= i < j < s.len() ==> s[i].0 != s[j].0
}

/// Does a bucket for this namespace exist?
pub open spec fn ni_has(s: Seq<(NamespaceId, Vec<AreaOfInterest>)>, ns: NamespaceId) -> bool {
    exists|i: int| 0 <= i < s.len() && s[i].0 == ns
}

/// Index of the bucket for this namespace.
pub open spec fn ni_at(s: Seq<(NamespaceId, Vec<AreaOfInterest>)>, ns: NamespaceId) -> int {
    choose|i: int| 0 <= i < s.len() && s[i].0 == ns
}

/// The mathematical value of namespace-keyed interests: a map from
/// namespace to the set of areas of interest in its bucket.
pub open spec fn ni_view(s: Seq<(NamespaceId, Vec<AreaOfInterest>)>) -> Map<
    NamespaceId,
    Set<AoiV>,
> {
    Map::new(|ns: NamespaceId| ni_has(s, ns), |ns: NamespaceId| aoi_set(s[ni_at(s, ns)].1@))
}

/// The bucket for a namespace, or the empty set.
pub open spec fn get_or_empty(m: Map<NamespaceId, Set<AoiV>>, ns: NamespaceId) -> Set<AoiV> {
    if m.dom().contains(ns) {
        m[ns]
    } else {
        Set::empty()
    }
}

/// Folding a resolved interest map into a namespace-keyed map, bucket by
/// bucket, starting from `m0`: each entry unions its areas into the bucket
/// of its authorisation's namespace.
pub open spec fn merge_flat(
    m0: Map<NamespaceId, Set<AoiV>>,
    s: Seq<(ReadAuthorisation, Vec<AreaOfInterest>)>,
) -> Map<NamespaceId, Set<AoiV>>
    decreases s.len(),
{
    if s.len() == 0 {
        m0
    } else {
        let m = merge_flat(m0, s.drop_last());
        let ns = s.last().0.namespace;
        m.insert(ns, get_or_empty(m, ns).union(aoi_set(s.last().1@)))
    }
}

/// The namespace-keyed value of a resolved interest map.
pub open spec fn flat_view(s: Seq<(ReadAuthorisation, Vec<AreaOfInterest>)>) -> Map<
    NamespaceId,
    Set<AoiV>,
> {
    merge_flat(Map::empty(), s)
}

/// Copies a sequence of areas of interest, value for value.
pub fn clone_aois(v: &Vec<AreaOfInterest>) -> (r: Vec<AreaOfInterest>)
    ensures
        aoi_views(r@) == aoi_views(v@),
{
    let mut out: Vec<AreaOfInterest> = Vec::new();
    let mut i: usize = 0;
    while i < v.len()
        invariant
            i <= v.len(),
            out@.len() == i,
            forall|j: int| 0 <= j < i ==> #[trigger] out@[j]@ == v@[j]@,
        decreases v.len() - i,
    {
        out.push(v[i].clone());
        i += 1;
    }
    proof {
        assert(aoi_views(out@) =~= aoi_views(v@));
    }
    out
}

/// Finds the bucket of a namespace.
pub fn ni_find(s: &NamespaceInterests, ns: NamespaceId) -> (r: Option<usize>)
    ensures
        match r {
            Some(i) => i < s@.len() && s@[i as int].0 == ns,
            None => !ni_has(s@, ns),
        },
{
    let mut i: usize = 0;
    while i < s.len()
        invariant
            i <= s.len(),
            forall|j: int| 0 <= j < i ==> s@[j].0 != ns,
        decreases s.len() - i,
    {
        if s[i].0.0 == ns.0 {
            return Some(i);
        }
        i += 1;
    }
    None
}

/// Does the sequence hold an area of interest with this value?
pub fn contains_aoi(v: &Vec<AreaOfInterest>, a: &AreaOfInterest) -> (r: bool)
    ensures
        r == aoi_set(v@).contains(a@),
{
    let mut i: usize = 0;
    while i < v.len()
        invariant
            i <= v.len(),
            forall|j: int| 0 <= j < i ==> aoi_views(v@)[j] != a@,
        decreases v.len() - i,
    {
        if v[i].same_aoi(a) {
            proof {
                assert(aoi_views(v@)[i as int] == a@);
                assert(aoi_views(v@).contains(a@));
            }
            return true;
        }
        i += 1;
    }
    proof {
        assert(forall|j: int| 0 <= j < aoi_views(v@).len() ==> aoi_views(v@)[j] != a@);
        assert(!aoi_views(v@).contains(a@));
    }
    false
}

/// Adds an area of interest to a bucket unless an equal one is present.
pub fn push_absent(v: &mut Vec<AreaOfInterest>, a: AreaOfInterest)
    ensures
        aoi_set(final(v)@) == aoi_set(old(v)@).insert(a@),
{
    let present = contains_aoi(v, &a);
    proof {
        lemma_aoi_set_push(v@, a@);
    }
    if !present {
        v.push(a);
    } else {
        proof {
            assert(aoi_set(v@).contains(a@));
            assert(aoi_set(v@) =~= aoi_set(v@).insert(a@));
        }
    }
}

/// Pushing an area of interest adds its value to the bucket's set.
pub proof fn lemma_aoi_set_push(s: Seq<AreaOfInterest>, av: AoiV)
    ensures
        forall|a: AreaOfInterest| a@ == av ==> aoi_set(s.push(a)) == aoi_set(s).insert(av),
{
    assert forall|a: AreaOfInterest| a@ == av implies aoi_set(s.push(a)) == aoi_set(s).insert(
        av,
    ) by {
        assert(aoi_views(s.push(a)) =~= aoi_views(s).push(av));
        assert forall|x: AoiV|
            aoi_set(s.push(a)).contains(x) == aoi_set(s).insert(av).contains(x) by {
            if aoi_views(s).push(av).contains(x) {
                let k = choose|k: int|
                    0 <= k < aoi_views(s).push(av).len() && aoi_views(s).push(av)[k] == x;
                if k < aoi_views(s).len() {
                    assert(aoi_views(s)[k] == x);
                    assert(aoi_views(s).contains(x));
                }
            }
            if aoi_set(s).insert(av).contains(x) {
                if x == av {
                    assert(aoi_views(s).push(av)[aoi_views(s).len() as int] == x);
                } else {
                    let k = choose|k: int| 0 <= k < aoi_views(s).len() && aoi_views(s)[k] == x;
                    assert(aoi_views(s).push(av)[k] == x);
                }
            }
        }
        assert(aoi_set(s.push(a)) =~= aoi_set(s).insert(av));
    }
}

/// The bucket of a well-formed interest list is unique.
pub proof fn lemma_ni_at_unique(s: Seq<(NamespaceId, Vec<AreaOfInterest>)>, ns: NamespaceId, i: int)
    requires
        ni_wf(s),
        0 <= i < s.len(),
        s[i].0 == ns,
    ensures
        ni_has(s, ns),
        ni_at(s, ns) == i,
{
    assert(ni_has(s, ns));
    let j = ni_at(s, ns);
    if i < j {
        assert(s[i].0 != s[j].0);
    } else if j < i {
        assert(s[j].0 != s[i].0);
    }
}

/// Replacing a bucket in place rewrites exactly that namespace's entry.
pub proof fn lemma_ni_view_update(
    s: Seq<(NamespaceId, Vec<AreaOfInterest>)>,
    i: int,
    nb: Vec<AreaOfInterest>,
)
    requires
        ni_wf(s),
        0 <= i < s.len(),
    ensures
        ni_wf(s.update(i, (s[i].0, nb))),
        ni_view(s.update(i, (s[i].0, nb))) == ni_view(s).insert(s[i].0, aoi_set(nb@)),
{
    let ns = s[i].0;
    let s2 = s.update(i, (ns, nb));
    assert(ni_wf(s2));
    assert forall|n: NamespaceId| ni_has(s2, n) == ni_has(s, n) by {
        if ni_has(s2, n) {
            let k = choose|k: int| 0 <= k < s2.len() && s2[k].0 == n;
            assert(s[k].0 == n);
        }
        if ni_has(s, n) {
            let k = choose|k: int| 0 <= k < s.len() && s[k].0 == n;
            assert(s2[k].0 == n);
        }
    }
    assert forall|n: NamespaceId| #[trigger] ni_view(s2).dom().contains(n) implies ni_view(s2)[n]
        == ni_view(s).insert(ns, aoi_set(nb@))[n] by {
        let k = ni_at(s2, n);
        assert(0 <= k < s2.len() && s2[k].0 == n);
        if n == ns {
            lemma_ni_at_unique(s2, n, i);
            assert(ni_view(s2)[n] == aoi_set(nb@));
        } else {
            assert(k != i);
            assert(s[k].0 == n);
            lemma_ni_at_unique(s, n, k);
            assert(ni_view(s2)[n] == aoi_set(s[k].1@));
        }
    }
    assert(ni_view(s2) =~= ni_view(s).insert(ns, aoi_set(nb@)));
}

/// Appending a bucket for a fresh namespace inserts exactly that entry.
pub proof fn lemma_ni_view_push(
    s: Seq<(NamespaceId, Vec<AreaOfInterest>)>,
    ns: NamespaceId,
    nb: Vec<AreaOfInterest>,
)
    requires
        ni_wf(s),
        !ni_has(s, ns),
    ensures
        ni_wf(s.push((ns, nb))),
        ni_view(s.push((ns, nb))) == ni_view(s).insert(ns, aoi_set(nb@)),
{
    let s2 = s.push((ns, nb));
    assert forall|i: int, j: int| 0 <= i < j < s2.len() implies s2[i].0 != s2[j].0 by {
        if j == s.len() {
            assert(s2[i].0 == s[i].0);
            if s[i].0 == ns {
                assert(ni_has(s, ns));
            }
        }
    }
    assert forall|n: NamespaceId| #[trigger] ni_has(s2, n) == (ni_has(s, n) || n == ns) by {
        if ni_has(s2, n) {
            let k = choose|k: int| 0 <= k < s2.len() && s2[k].0 == n;
            if k < s.len() {
                assert(s[k].0 == n);
            }
        }
        if ni_has(s, n) {
            let k = choose|k: int| 0 <= k < s.len() && s[k].0 == n;
            assert(s2[k].0 == n);
        }
        if n == ns {
            assert(s2[s.len() as int].0 == n);
        }
    }
    assert forall|n: NamespaceId| #[trigger] ni_view(s2).dom().contains(n) implies ni_view(s2)[n]
        == ni_view(s).insert(ns, aoi_set(nb@))[n] by {
        let k = ni_at(s2, n);
        assert(0 <= k < s2.len() && s2[k].0 == n);
        if n == ns {
            lemma_ni_at_unique(s2, n, s.len() as int);
        } else {
            assert(k < s.len());
            assert(s[k].0 == n);
            lemma_ni_at_unique(s, n, k);
            lemma_ni_at_unique(s2, n, k);
        }
    }
    assert(ni_view(s2) =~= ni_view(s).insert(ns, aoi_set(nb@)));
}

/// Removing a bucket removes exactly that namespace's entry.
pub proof fn lemma_ni_view_remove(s: Seq<(NamespaceId, Vec<AreaOfInterest>)>, i: int)
    requires
        ni_wf(s),
        0 <= i < s.len(),
    ensures
        ni_wf(s.remove(i)),
        ni_view(s.remove(i)) == ni_view(s).remove(s[i].0),
{
    let ns = s[i].0;
    let s2 = s.remove(i);
    assert forall|a: int, b: int| 0 <= a < b < s2.len() implies s2[a].0 != s2[b].0 by {
        let a0 = if a < i {
            a
        } else {
            a + 1
        };
        let b0 = if b < i {
            b
        } else {
            b + 1
        };
        assert(s2[a] == s[a0] && s2[b] == s[b0]);
    }
    assert forall|n: NamespaceId| #[trigger] ni_has(s2, n) == (ni_has(s, n) && n != ns) by {
        if ni_has(s2, n) {
            let k = choose|k: int| 0 <= k < s2.len() && s2[k].0 == n;
            let k0 = if k < i {
                k
            } else {
                k + 1
            };
            assert(s[k0].0 == n);
            if n == ns {
                lemma_ni_at_unique(s, n, k0);
                lemma_ni_at_unique(s, n, i);
            }
        }
        if ni_has(s, n) && n != ns {
            let k = choose|k: int| 0 <= k < s.len() && s[k].0 == n;
            assert(k != i);
            if k < i {
                assert(s2[k].0 == n);
            } else {
                assert(s2[k - 1].0 == n);
            }
        }
    }
    assert forall|n: NamespaceId| #[trigger] ni_view(s2).dom().contains(n) implies ni_view(s2)[n]
        == ni_view(s).remove(ns)[n] by {
        let k = ni_at(s2, n);
        assert(0 <= k < s2.len() && s2[k].0 == n);
        let k0 = if k < i {
            k
        } else {
            k + 1
        };
        assert(s[k0].0 == n);
        lemma_ni_at_unique(s, n, k0);
    }
    assert(ni_view(s2) =~= ni_view(s).remove(ns));
}

/// Unions areas of interest into the bucket of a namespace, creating the
/// bucket when absent; equal areas of interest are kept once.
pub fn ni_extend(s: &mut NamespaceInterests, ns: NamespaceId, aois: &Vec<AreaOfInterest>)
    requires
        ni_wf(old(s)@),
    ensures
        ni_wf(final(s)@),
        ni_view(final(s)@) == ni_view(old(s)@).insert(
            ns,
            get_or_empty(ni_view(old(s)@), ns).union(aoi_set(aois@)),
        ),
{
    let found = ni_find(s, ns);
    let ghost orig = s@;
    let (at, mut bucket) = match found {
        Some(i) => {
            let pair = s.remove(i);
            proof {
                lemma_ni_at_unique(orig, ns, i as int);
            }
            (i, pair.1)
        },
        None => (s.len(), Vec::new()),
    };
    let ghost start = aoi_set(bucket@);
    proof {
        assert(start == get_or_empty(ni_view(orig), ns));
    }
    let mut j: usize = 0;
    while j < aois.len()
        invariant
            j <= aois.len(),
            aoi_set(bucket@) == start.union(aoi_set(aois@.take(j as int))),
        decreases aois.len() - j,
    {
        let ghost before = aoi_set(bucket@);
        push_absent(&mut bucket, aois[j].clone());
        proof {
            assert(aois@.take(j + 1) =~= aois@.take(j as int).push(aois@[j as int]));
            lemma_aoi_set_push(aois@.take(j as int), aois@[j as int]@);
            assert(aoi_set(bucket@) =~= start.union(aoi_set(aois@.take(j + 1))));
        }
        j += 1;
    }
    proof {
        assert(aois@.take(aois@.len() as int) =~= aois@);
    }
    match found {
        Some(i) => {
            let _ = at;
            s.insert(i, (ns, bucket));
            proof {
                assert(s@ =~= orig.update(i as int, (ns, s@[i as int].1)));
                lemma_ni_view_update(orig, i as int, s@[i as int].1);
            }
        },
        None => {
            s.push((ns, bucket));
            proof {
                assert(s@ =~= orig.push((ns, s@[s@.len() - 1].1)));
                lemma_ni_view_push(orig, ns, s@[s@.len() - 1].1);
            }
        },
    }
}

/// Does any area of interest in the bucket intersect the given area?
pub fn bucket_intersects(v: &Vec<AreaOfInterest>, area: &Area) -> (r: bool)
    ensures
        r == exists|x: AoiV| aoi_set(v@).contains(x) && x.area.intersects(area@),
{
    let mut i: usize = 0;
    while i < v.len()
        invariant
            i <= v.len(),
            forall|j: int| 0 <= j < i ==> !(#[trigger] aoi_views(v@)[j]).area.intersects(area@),
        decreases v.len() - i,
    {
        let hit = v[i].area.intersection(area);
        if hit.is_some() {
            proof {
                assert(aoi_views(v@)[i as int].area.intersects(area@));
                assert(aoi_views(v@).contains(aoi_views(v@)[i as int]));
                assert(aoi_set(v@).contains(aoi_views(v@)[i as int]));
            }
            return true;
        }
        i += 1;
    }
    proof {
        if exists|x: AoiV| aoi_set(v@).contains(x) && x.area.intersects(area@) {
            let x = choose|x: AoiV| aoi_set(v@).contains(x) && x.area.intersects(area@);
            let j = choose|j: int| 0 <= j < aoi_views(v@).len() && aoi_views(v@)[j] == x;
            assert(!aoi_views(v@)[j].area.intersects(area@));
        }
    }
    false
}

/// The areas of interest of a bucket that are not entirely contained in the
/// given area.
pub open spec fn shrink_bucket(b: Set<AoiV>, a: AreaV) -> Set<AoiV> {
    b.filter(|x: AoiV| !a.includes_area(x.area))
}

/// Keeps the areas of interest not entirely contained in the given area.
pub fn bucket_remove_included(v: &Vec<AreaOfInterest>, area: &Area) -> (r: Vec<AreaOfInterest>)
    ensures
        aoi_set(r@) == shrink_bucket(aoi_set(v@), area@),
{
    let mut out: Vec<AreaOfInterest> = Vec::new();
    let mut i: usize = 0;
    while i < v.len()
        invariant
            i <= v.len(),
            aoi_set(out@) == shrink_bucket(aoi_set(v@.take(i as int)), area@),
        decreases v.len() - i,
    {
        let ghost before = aoi_set(out@);
        if !area.includes_area(&v[i].area) {
            push_absent(&mut out, v[i].clone());
        }
        proof {
            assert(v@.take(i + 1) =~= v@.take(i as int).push(v@[i as int]));
            lemma_aoi_set_push(v@.take(i as int), v@[i as int]@);
            assert(aoi_set(out@) =~= shrink_bucket(aoi_set(v@.take(i + 1)), area@));
        }
        i += 1;
    }
    proof {
        assert(v@.take(v@.len() as int) =~= v@);
    }
    out
}

/// Flattens a resolved interest map into interests keyed by namespace.
pub fn flatten_interests(interests: &InterestMap) -> (r: NamespaceInterests)
    ensures
        ni_wf(r@),
        ni_view(r@) == flat_view(interests@),
{
    let mut out: NamespaceInterests = Vec::new();
    proof {
        assert(ni_view(out@) =~= Map::<NamespaceId, Set<AoiV>>::empty());
    }
    merge_into(&mut out, interests);
    out
}

/// Unions every bucket of a resolved interest map into namespace-keyed
/// interests, namespace by namespace.
pub fn merge_into(s: &mut NamespaceInterests, interests: &InterestMap)
    requires
        ni_wf(old(s)@),
    ensures
        ni_wf(final(s)@),
        ni_view(final(s)@) == merge_flat(ni_view(old(s)@), interests@),
{
    let mut i: usize = 0;
    while i < interests.len()
        invariant
            i <= interests.len(),
            ni_wf(s@),
            ni_view(s@) == merge_flat(ni_view(old(s)@), interests@.take(i as int)),
        decreases interests.len() - i,
    {
        let ns = interests[i].0.namespace();
        ni_extend(s, ns, &interests[i].1);
        proof {
            let t = interests@.take(i + 1);
            assert(t.drop_last() =~= interests@.take(i as int));
            assert(t.last() == interests@[i as int]);
        }
        i += 1;
    }
    proof {
        assert(interests@.take(interests@.len() as int) =~= interests@);
    }
}

} // verus!
