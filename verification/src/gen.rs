//! Minting of unique-type markers, singly and as distinct tuples.

use crate::lifetime::{root_id, root_region, Region, RegionAuthority};
use crate::storable::Storable;
use vstd::prelude::*;

verus! {

/// A stable, comparable descriptor for a logical type.
///
/// Two descriptors compare equal exactly when they name the same logical
/// type; the library uses them for equality and for nothing else. The
/// host environment chooses one key per type and keeps it stable.
#[derive(Clone, Copy, PartialEq, Eq, Structural, Debug)]
pub struct TypeDesc {
    key: u64,
}

impl View for TypeDesc {
    type V = u64;

    closed spec fn view(&self) -> u64 {
        self.key
    }
}

impl TypeDesc {
    /// The descriptor with the given key.
    pub fn new(key: u64) -> (r: Self)
        ensures
            r@ == key,
    {
        TypeDesc { key }
    }
}

/// Two descriptors are equal exactly when their keys are.
pub proof fn lemma_desc_eq(a: TypeDesc, b: TypeDesc)
    ensures
        (a == b) <==> a@ == b@,
{
}

/// An opaque marker: proof that one logical type is claimed within one
/// activation.
///
/// A marker pairs the region of the activation it was minted in with the
/// descriptor of the type it claims, and it is deliberately neither
/// `Copy` nor `Clone`. Each minting entry point draws a fresh region, so
/// markers minted by different calls never compare the same even when
/// their descriptors match.
pub struct UniqueType {
    pub(crate) region: Region,
    pub(crate) desc: TypeDesc,
}

impl UniqueType {
    /// The identity of the activation this marker was minted in.
    pub closed spec fn region_id(&self) -> u64 {
        self.region@
    }

    /// The descriptor of the logical type this marker claims.
    pub closed spec fn desc(&self) -> TypeDesc {
        self.desc
    }

    /// Whether the two markers are the same: minted in the same
    /// activation, for the same logical type.
    pub fn same_marker(&self, other: &UniqueType) -> (r: bool)
        ensures
            r == (self.region_id() == other.region_id() && self.desc() == other.desc()),
    {
        self.region.same_region(&other.region) && self.desc == other.desc
    }

    /// The descriptor this marker carries.
    pub fn descriptor(&self) -> (d: TypeDesc)
        ensures
            d == self.desc(),
    {
        self.desc
    }
}

impl From<UniqueType> for Region {
    /// The region a marker was minted in, obtained by giving the marker
    /// up.
    fn from(t: UniqueType) -> (r: Region)
        ensures
            r@ == t.region_id(),
    {
        t.region
    }
}

impl vstd::std_specs::convert::FromSpecImpl<UniqueType> for Region {
    open spec fn obeys_from_spec() -> bool {
        true
    }

    closed spec fn from_spec(t: UniqueType) -> Region {
        t.region
    }
}

/// The marker's projections are its fields. Kept for the crate's other
/// modules, which see the projections but not the fields.
pub(crate) proof fn lemma_marker_fields(m: UniqueType)
    ensures
        m.region_id() == m.region@,
        m.desc() == m.desc,
{
}

/// All descriptors in the sequence are pairwise distinct: no unordered
/// pair of entries compares equal.
pub open spec fn pairwise_distinct(ds: Seq<TypeDesc>) -> bool {
    forall|i: int, j: int| 0 <= i < j < ds.len() ==> ds[i] != ds[j]
}

/// `ts` holds one marker per descriptor of `ds`, in input order, all of
/// them minted in the activation whose region is `rg`.
pub open spec fn markers_for(ts: Seq<UniqueType>, rg: Region, ds: Seq<TypeDesc>) -> bool {
    &&& ts.len() == ds.len()
    &&& forall|i: int|
        0 <= i < ds.len() ==> (#[trigger] ts[i]).region_id() == rg@ && ts[i].desc() == ds[i]
}

/// A tuple of logical types, given as the sequence of their descriptors.
pub trait StaticTuple {
    /// The descriptors of the tuple's types, in tuple order.
    spec fn desc_seq(&self) -> Seq<TypeDesc>;

    /// Returns `true` exactly when no type appears twice in the tuple.
    fn distinct(&self) -> (r: bool)
        ensures
            r == pairwise_distinct(self.desc_seq()),
    ;
}

/// A tuple of logical types from which a tuple of markers can be minted.
pub trait TryGenTuple: StaticTuple {
    /// Mint one marker per type of the tuple, all within the activation
    /// of `region` and in tuple order — or nothing at all, when the
    /// tuple repeats a type.
    fn try_gen_tuple(&self, region: Region) -> (r: Option<Vec<UniqueType>>)
        ensures
            r is Some <==> pairwise_distinct(self.desc_seq()),
            r matches Some(ts) ==> markers_for(ts@, region, self.desc_seq()),
    ;
}

impl StaticTuple for Vec<TypeDesc> {
    open spec fn desc_seq(&self) -> Seq<TypeDesc> {
        self@
    }

    fn distinct(&self) -> (r: bool) {
        let n = self.len();
        let mut i: usize = 0;
        while i < n
            invariant
                i <= n,
                n == self@.len(),
                forall|p: int, q: int| 0 <= p < i && p < q < n ==> self@[p] != self@[q],
            decreases n - i,
        {
            let mut j: usize = i + 1;
            while j < n
                invariant
                    i < j <= n,
                    n == self@.len(),
                    forall|p: int, q: int| 0 <= p < i && p < q < n ==> self@[p] != self@[q],
                    forall|q: int| i < q < j ==> self@[i as int] != self@[q],
                decreases n - j,
            {
                if self[i] == self[j] {
                    return false;
                }
                j = j + 1;
            }
            i = i + 1;
        }
        true
    }
}

impl TryGenTuple for Vec<TypeDesc> {
    fn try_gen_tuple(&self, region: Region) -> (r: Option<Vec<UniqueType>>) {
        if !self.distinct() {
            return None;
        }
        let n = self.len();
        let mut ts: Vec<UniqueType> = Vec::new();
        let mut i: usize = 0;
        while i < n
            invariant
                i <= n,
                n == self@.len(),
                ts@.len() == i,
                forall|k: int|
                    0 <= k < i ==> (#[trigger] ts@[k]).region_id() == region@ && ts@[k].desc()
                        == self@[k],
            decreases n - i,
        {
            let d = self[i];
            ts.push(UniqueType { region, desc: d });
            i = i + 1;
        }
        Some(ts)
    }
}

/// Invoke `f` with a marker for `desc` minted in a new activation, and
/// return its result. Never fails.
///
/// `f` must accept any marker that carries `desc`: it cannot be written
/// against one particular activation's identity. Two calls, even with
/// equal descriptors, hand their bodies markers of different activations,
/// which never compare the same.
pub fn with_type<Z, F: FnOnce(UniqueType) -> Z>(
    auth: &mut RegionAuthority,
    desc: TypeDesc,
    f: F,
) -> (r: Z)
    requires
        old(auth).wf(),
        old(auth).can_issue(),
        forall|t: UniqueType| t.desc() == desc ==> #[trigger] call_requires(f, (t,)),
    ensures
        final(auth).wf(),
        final(auth).next_id() == old(auth).next_id() + 1,
        old(auth).issued().subset_of(final(auth).issued()),
        exists|t: UniqueType|
            {
                &&& t.desc() == desc
                &&& !old(auth).issued().contains(t.region_id())
                &&& t.region_id() != root_id()
                &&& final(auth).issued().contains(t.region_id())
                &&& #[trigger] call_ensures(f, (t,), r)
            },
{
    let rg = auth.issue();
    f(UniqueType { region: rg, desc })
}

/// Invoke `f` with a new activation's region and one marker per type of
/// `types`, all minted in that activation — unless the tuple repeats a
/// type, in which case no marker is produced, `f` is never invoked, and
/// the call reports absence. That is the one failure in the library.
pub fn try_with_types<Z, T: TryGenTuple, F: FnOnce(Region, Vec<UniqueType>) -> Z>(
    auth: &mut RegionAuthority,
    types: &T,
    f: F,
) -> (r: Option<Z>)
    requires
        old(auth).wf(),
        old(auth).can_issue(),
        forall|rg: Region, ts: Vec<UniqueType>|
            markers_for(ts@, rg, types.desc_seq()) ==> #[trigger] call_requires(f, (rg, ts)),
    ensures
        final(auth).wf(),
        final(auth).next_id() == old(auth).next_id() + 1,
        old(auth).issued().subset_of(final(auth).issued()),
        r is Some <==> pairwise_distinct(types.desc_seq()),
        r is Some ==> exists|rg: Region, ts: Vec<UniqueType>, z: Z|
            {
                &&& markers_for(ts@, rg, types.desc_seq())
                &&& !old(auth).issued().contains(rg@)
                &&& rg@ != root_id()
                &&& final(auth).issued().contains(rg@)
                &&& #[trigger] call_ensures(f, (rg, ts), z)
                &&& r == Some(z)
            },
{
    let rg = auth.issue();
    match types.try_gen_tuple(rg) {
        Some(ts) => Some(f(rg, ts)),
        None => None,
    }
}

/// Like [`try_with_types`], for tuples the caller has already arranged
/// to be distinct: the absent outcome is ruled out up front, so the
/// result is returned bare. Aborting on a duplicate is thereby replaced
/// by rejecting the duplicate before the call.
pub fn with_types<Z, T: TryGenTuple, F: FnOnce(Region, Vec<UniqueType>) -> Z>(
    auth: &mut RegionAuthority,
    types: &T,
    f: F,
) -> (r: Z)
    requires
        old(auth).wf(),
        old(auth).can_issue(),
        pairwise_distinct(types.desc_seq()),
        forall|rg: Region, ts: Vec<UniqueType>|
            markers_for(ts@, rg, types.desc_seq()) ==> #[trigger] call_requires(f, (rg, ts)),
    ensures
        final(auth).wf(),
        final(auth).next_id() == old(auth).next_id() + 1,
        old(auth).issued().subset_of(final(auth).issued()),
        exists|rg: Region, ts: Vec<UniqueType>|
            {
                &&& markers_for(ts@, rg, types.desc_seq())
                &&& !old(auth).issued().contains(rg@)
                &&& rg@ != root_id()
                &&& final(auth).issued().contains(rg@)
                &&& #[trigger] call_ensures(f, (rg, ts), r)
            },
{
    match try_with_types(auth, types, f) {
        Some(z) => z,
        None => vstd::pervasive::unreached(),
    }
}

/// Long-term storage for a value containing unique types.
///
/// A stored value is held in its root-erased shape — every region tag it
/// carries is the root's — and is re-bound for exactly the duration of
/// each access through [`Gen::with_ref`] or [`Gen::with_mut`].
pub struct Gen<Z> {
    value: Z,
}

impl<Z: Storable> Gen<Z> {
    /// The stored, root-erased value.
    pub closed spec fn stored(&self) -> Z {
        self.value
    }

    /// The stored value carries the root region's identity throughout.
    pub open spec fn wf(&self) -> bool {
        self.stored().tagged(root_id())
    }

    /// Build a stored value by invoking `f` with the region of a new
    /// activation and erasing its result to the root region. Succeeds
    /// whenever `f` does.
    pub fn from_fn<F: FnOnce(Region) -> Z>(auth: &mut RegionAuthority, f: F) -> (r: Self)
        requires
            old(auth).wf(),
            old(auth).can_issue(),
            forall|rg: Region| call_requires(f, (rg,)),
        ensures
            final(auth).wf(),
            final(auth).next_id() == old(auth).next_id() + 1,
            old(auth).issued().subset_of(final(auth).issued()),
            r.wf(),
            exists|rg: Region, bound: Z|
                {
                    &&& !old(auth).issued().contains(rg@)
                    &&& rg@ != root_id()
                    &&& final(auth).issued().contains(rg@)
                    &&& #[trigger] call_ensures(f, (rg,), bound)
                    &&& r.stored() == bound.retag_spec(root_id())
                },
    {
        let rg = auth.issue();
        let bound = f(rg);
        let ghost gb = bound;
        let erased = bound.retag(root_region());
        proof {
            gb.lemma_retag_tagged(root_id());
        }
        Gen { value: erased }
    }

    /// Attempt to build a stored value from an activation: `f` may
    /// report absence, and then nothing is stored.
    pub fn try_from_fn<F: FnOnce(Region) -> Option<Z>>(auth: &mut RegionAuthority, f: F) -> (r:
        Option<Self>)
        requires
            old(auth).wf(),
            old(auth).can_issue(),
            forall|rg: Region| call_requires(f, (rg,)),
        ensures
            final(auth).wf(),
            final(auth).next_id() == old(auth).next_id() + 1,
            old(auth).issued().subset_of(final(auth).issued()),
            r is Some ==> (r->0).wf(),
            exists|rg: Region, out: Option<Z>|
                {
                    &&& !old(auth).issued().contains(rg@)
                    &&& rg@ != root_id()
                    &&& final(auth).issued().contains(rg@)
                    &&& #[trigger] call_ensures(f, (rg,), out)
                    &&& (out is Some <==> r is Some)
                    &&& (out matches Some(bound) ==> r is Some && (r->0).stored()
                        == bound.retag_spec(root_id()))
                },
    {
        let rg = auth.issue();
        let out = f(rg);
        let ghost gout = out;
        match out {
            Some(bound) => {
                let ghost gb = bound;
                let erased = bound.retag(root_region());
                proof {
                    gb.lemma_retag_tagged(root_id());
                    assert(gout == Some(gb));
                }
                Some(Gen { value: erased })
            },
            None => None,
        }
    }

    /// Build a stored value by invoking `f` with a marker for `desc`
    /// minted in a new activation, then erasing `f`'s result to the
    /// root region. Succeeds whenever `f` does.
    pub fn from_type<F: FnOnce(UniqueType) -> Z>(
        auth: &mut RegionAuthority,
        desc: TypeDesc,
        f: F,
    ) -> (r: Self)
        requires
            old(auth).wf(),
            old(auth).can_issue(),
            forall|t: UniqueType| t.desc() == desc ==> #[trigger] call_requires(f, (t,)),
        ensures
            final(auth).wf(),
            final(auth).next_id() == old(auth).next_id() + 1,
            old(auth).issued().subset_of(final(auth).issued()),
            r.wf(),
            exists|t: UniqueType, bound: Z|
                {
                    &&& t.desc() == desc
                    &&& !old(auth).issued().contains(t.region_id())
                    &&& t.region_id() != root_id()
                    &&& final(auth).issued().contains(t.region_id())
                    &&& #[trigger] call_ensures(f, (t,), bound)
                    &&& r.stored() == bound.retag_spec(root_id())
                },
    {
        let rg = auth.issue();
        let bound = f(UniqueType { region: rg, desc });
        let ghost gb = bound;
        let erased = bound.retag(root_region());
        proof {
            gb.lemma_retag_tagged(root_id());
        }
        Gen { value: erased }
    }

    /// Attempt to build a stored value by invoking `f` with a new
    /// activation's region and one marker per type of `types`. Absent
    /// exactly when the tuple repeats a type, and then no marker is
    /// produced, `f` is never invoked, and nothing is stored.
    pub fn try_from_types<T: TryGenTuple, F: FnOnce(Region, Vec<UniqueType>) -> Z>(
        auth: &mut RegionAuthority,
        types: &T,
        f: F,
    ) -> (r: Option<Self>)
        requires
            old(auth).wf(),
            old(auth).can_issue(),
            forall|rg: Region, ts: Vec<UniqueType>|
                markers_for(ts@, rg, types.desc_seq()) ==> #[trigger] call_requires(f, (rg, ts)),
        ensures
            final(auth).wf(),
            final(auth).next_id() == old(auth).next_id() + 1,
            old(auth).issued().subset_of(final(auth).issued()),
            r is Some <==> pairwise_distinct(types.desc_seq()),
            r is Some ==> (r->0).wf(),
            r is Some ==> exists|rg: Region, ts: Vec<UniqueType>, bound: Z|
                {
                    &&& markers_for(ts@, rg, types.desc_seq())
                    &&& !old(auth).issued().contains(rg@)
                    &&& rg@ != root_id()
                    &&& final(auth).issued().contains(rg@)
                    &&& #[trigger] call_ensures(f, (rg, ts), bound)
                    &&& (r->0).stored() == bound.retag_spec(root_id())
                },
    {
        let rg = auth.issue();
        match types.try_gen_tuple(rg) {
            Some(ts) => {
                let bound = f(rg, ts);
                let ghost gb = bound;
                let erased = bound.retag(root_region());
                proof {
                    gb.lemma_retag_tagged(root_id());
                }
                Some(Gen { value: erased })
            },
            None => None,
        }
    }

    /// Like [`Gen::try_from_types`], for tuples the caller has already
    /// arranged to be distinct: the absent outcome is ruled out up
    /// front, so the stored value is returned bare.
    pub fn from_types<T: TryGenTuple, F: FnOnce(Region, Vec<UniqueType>) -> Z>(
        auth: &mut RegionAuthority,
        types: &T,
        f: F,
    ) -> (r: Self)
        requires
            old(auth).wf(),
            old(auth).can_issue(),
            pairwise_distinct(types.desc_seq()),
            forall|rg: Region, ts: Vec<UniqueType>|
                markers_for(ts@, rg, types.desc_seq()) ==> #[trigger] call_requires(f, (rg, ts)),
        ensures
            final(auth).wf(),
            final(auth).next_id() == old(auth).next_id() + 1,
            old(auth).issued().subset_of(final(auth).issued()),
            r.wf(),
            exists|rg: Region, ts: Vec<UniqueType>, bound: Z|
                {
                    &&& markers_for(ts@, rg, types.desc_seq())
                    &&& !old(auth).issued().contains(rg@)
                    &&& rg@ != root_id()
                    &&& final(auth).issued().contains(rg@)
                    &&& #[trigger] call_ensures(f, (rg, ts), bound)
                    &&& r.stored() == bound.retag_spec(root_id())
                },
    {
        match Self::try_from_types(auth, types, f) {
            Some(g) => g,
            None => vstd::pervasive::unreached(),
        }
    }

    /// Invoke `f` with the stored value, re-bound for exactly the
    /// duration of this call, and return `f`'s result.
    ///
    /// The value's shape is the same under every region, so the view
    /// handed to `f` is the stored one; only `f`'s extent-independent
    /// result leaves the call.
    pub fn with_ref<R, F: FnOnce(&Z) -> R>(&self, f: F) -> (r: R)
        requires
            forall|v: &Z| *v == self.stored() ==> #[trigger] call_requires(f, (v,)),
        ensures
            exists|v: &Z| *v == self.stored() && #[trigger] call_ensures(f, (v,), r),
    {
        f(&self.value)
    }

    /// Invoke `f` with mutable access to the stored value for exactly
    /// the duration of this call, and return `f`'s result.
    ///
    /// What `f` writes back must again carry the root region
    /// throughout — nothing bound to a live activation can be smuggled
    /// into storage — and is what every later access sees.
    pub fn with_mut<R, F: FnOnce(&mut Z) -> R>(&mut self, f: F) -> (r: R)
        requires
            forall|m: &mut Z|
                mut_ref_current(m) == old(self).stored() ==> #[trigger] call_requires(f, (m,)),
            forall|m: &mut Z, out: R|
                mut_ref_current(m) == old(self).stored() && #[trigger] call_ensures(f, (m,), out)
                    ==> mut_ref_future(m).tagged(root_id()),
        ensures
            final(self).wf(),
            exists|m: &mut Z|
                {
                    &&& mut_ref_current(m) == old(self).stored()
                    &&& mut_ref_future(m) == final(self).stored()
                    &&& #[trigger] call_ensures(f, (m,), r)
                },
    {
        f(&mut self.value)
    }
}

/// Markers of two different activations never compare the same, even
/// when their descriptors match: one activation's identity was already
/// on the authority's record when the other drew its own.
pub proof fn lemma_marker_noninterchangeable(
    auth: RegionAuthority,
    t1: UniqueType,
    t2: UniqueType,
)
    requires
        auth.issued().contains(t1.region_id()),
        !auth.issued().contains(t2.region_id()),
    ensures
        t1.region_id() != t2.region_id(),
        t1 != t2,
{
}

/// Markers of one distinct tuple are pairwise different: they share an
/// activation, so two of them could only coincide by carrying the same
/// descriptor, which a distinct tuple rules out.
pub proof fn lemma_tuple_markers_distinct(ts: Seq<UniqueType>, rg: Region, ds: Seq<TypeDesc>)
    requires
        markers_for(ts, rg, ds),
        pairwise_distinct(ds),
    ensures
        forall|i: int, j: int| 0 <= i < j < ts.len() ==> ts[i] != ts[j],
{
    assert forall|i: int, j: int| 0 <= i < j < ts.len() implies ts[i] != ts[j] by {
        assert(ts[i].desc() == ds[i]);
        assert(ts[j].desc() == ds[j]);
    }
}

/// Order independence: whether a tuple of descriptors is pairwise
/// distinct depends only on which descriptors it holds, never on their
/// order. A permuted tuple is thus accepted exactly when the original
/// is, and its markers then follow the permuted order, as `markers_for`
/// states.
pub proof fn lemma_distinct_permutation(ds1: Seq<TypeDesc>, ds2: Seq<TypeDesc>)
    requires
        ds1.to_multiset() == ds2.to_multiset(),
    ensures
        pairwise_distinct(ds1) == pairwise_distinct(ds2),
{
    assert(pairwise_distinct(ds1) == ds1.no_duplicates());
    assert(pairwise_distinct(ds2) == ds2.no_duplicates());
    if ds1.no_duplicates() {
        ds1.lemma_multiset_has_no_duplicates();
        ds2.lemma_multiset_has_no_duplicates_conv();
    }
    if ds2.no_duplicates() {
        ds2.lemma_multiset_has_no_duplicates();
        ds1.lemma_multiset_has_no_duplicates_conv();
    }
}

} // verus!
