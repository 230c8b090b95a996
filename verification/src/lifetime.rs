//! Activation markers and the authority that issues their identities.
//!
//! A [`Scope`] is an anonymous marker: any two scopes are interchangeable.
//! A [`Region`] is the identity of one bounded activation; the
//! [`RegionAuthority`] issues each region exactly once, which is what makes
//! two activations impossible to confuse.

use vstd::prelude::*;

verus! {

/// An anonymous marker for a scope of code.
///
/// Scopes carry no identity: any two `Scope` values are interchangeable.
/// A scope only witnesses that its holder is inside some bounded
/// activation; use [`Region`] where activations must stay apart.
#[derive(Clone, Copy)]
pub struct Scope;

/// Invoke `f` with a scope marker and return its result. Never fails.
pub fn with_scope<Z, F: FnOnce(Scope) -> Z>(f: F) -> (r: Z)
    requires
        call_requires(f, (Scope,)),
    ensures
        call_ensures(f, (Scope,), r),
{
    f(Scope)
}

/// The identity of the root region, the erasure target for stored values.
///
/// The root region is always valid, and [`RegionAuthority`] never issues
/// it to an activation.
pub open spec fn root_id() -> u64 {
    0
}

/// The identity of one bounded activation.
///
/// A region is handed to the body of [`with_region`] and stands for that
/// single activation: the authority that issued it never issues the same
/// identity again. The identity itself stays opaque; callers compare
/// markers minted from regions, never regions themselves.
#[derive(Clone, Copy)]
pub struct Region {
    pub(crate) id: u64,
}

impl View for Region {
    type V = u64;

    closed spec fn view(&self) -> u64 {
        self.id
    }
}

impl Region {
    /// Whether the two regions are the identity of the same activation.
    pub(crate) fn same_region(&self, other: &Region) -> (r: bool)
        ensures
            r == (self@ == other@),
    {
        self.id == other.id
    }
}

/// The identity a region reports is the one field it holds. Kept for the
/// crate's other modules, which see the view but not the field.
pub(crate) proof fn lemma_region_view(r: Region)
    ensures
        r@ == r.id,
{
}

/// The root region, used only as the target that stored values are
/// erased to.
pub(crate) fn root_region() -> (r: Region)
    ensures
        r@ == root_id(),
{
    Region { id: 0 }
}

/// Issues region identities, one per activation.
///
/// The ghost set of issued identities records every region handed out so
/// far; each new region lies outside that set. Two activations served by
/// one authority therefore never receive the same identity, however alike
/// their requests are.
pub struct RegionAuthority {
    next: u64,
    issued: Ghost<Set<u64>>,
}

impl RegionAuthority {
    /// The identities issued to activations so far.
    pub closed spec fn issued(&self) -> Set<u64> {
        self.issued@
    }

    /// The next identity the counter will hand out; it grows by one per
    /// activation, so callers can tell that room remains.
    pub closed spec fn next_id(&self) -> u64 {
        self.next
    }

    /// Every issued identity is a non-root identity below the counter.
    pub closed spec fn wf(&self) -> bool {
        &&& 1 <= self.next
        &&& forall|i: u64| self.issued@.contains(i) ==> 1 <= i < self.next
    }

    /// The counter still has room for a fresh identity.
    pub open spec fn can_issue(&self) -> bool {
        self.next_id() < u64::MAX
    }

    /// A fresh authority that has issued nothing.
    pub fn new() -> (r: Self)
        ensures
            r.wf(),
            r.issued() == Set::<u64>::empty(),
            r.next_id() == 1,
    {
        RegionAuthority { next: 1, issued: Ghost(Set::empty()) }
    }

    /// Issue the identity of one new activation: a region that is neither
    /// the root nor any region this authority has issued before.
    pub(crate) fn issue(&mut self) -> (r: Region)
        requires
            old(self).wf(),
            old(self).can_issue(),
        ensures
            final(self).wf(),
            final(self).next_id() == old(self).next_id() + 1,
            !old(self).issued().contains(r@),
            r@ != root_id(),
            final(self).issued() == old(self).issued().insert(r@),
    {
        let id = self.next;
        self.next = self.next + 1;
        proof {
            self.issued@ = self.issued@.insert(id);
        }
        Region { id }
    }
}

/// Invoke `f` with the region of a new activation and return its result.
///
/// `f` must accept an arbitrary region: it cannot be written against any
/// particular activation's identity. The region it receives is fresh, so
/// nothing minted from a region on record with the same authority can be
/// mistaken for what `f` builds. Opening the activation itself never
/// fails.
pub fn with_region<Z, F: FnOnce(Region) -> Z>(auth: &mut RegionAuthority, f: F) -> (r: Z)
    requires
        old(auth).wf(),
        old(auth).can_issue(),
        forall|rg: Region| call_requires(f, (rg,)),
    ensures
        final(auth).wf(),
        final(auth).next_id() == old(auth).next_id() + 1,
        old(auth).issued().subset_of(final(auth).issued()),
        exists|rg: Region|
            {
                &&& !old(auth).issued().contains(rg@)
                &&& rg@ != root_id()
                &&& final(auth).issued() == old(auth).issued().insert(rg@)
                &&& #[trigger] call_ensures(f, (rg,), r)
            },
{
    let rg = auth.issue();
    f(rg)
}

/// Regions are never interchangeable between activations: an identity
/// already on an authority's record when a later activation draws its own
/// can never equal the later one. Markers minted in the two activations
/// are therefore distinguishable whatever descriptors they carry.
pub proof fn lemma_region_noninterchangeable(auth: RegionAuthority, r1: Region, r2: Region)
    requires
        auth.issued().contains(r1@),
        !auth.issued().contains(r2@),
    ensures
        r1@ != r2@,
{
}

} // verus!
