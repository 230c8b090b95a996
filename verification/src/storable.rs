//! The bridge between a value bound to one activation and its stored,
//! root-erased form.

use crate::gen::{lemma_marker_fields, Gen, TypeDesc, UniqueType};
use crate::lifetime::{lemma_region_view, Region};
use vstd::prelude::*;

verus! {

/// A value containing unique types which may be stored past any
/// activation.
///
/// A storable value has one shape under every activation; only the
/// region tag threaded through its scope-bound components differs. Three
/// laws pin that down: retagging leaves the value tagged with the
/// target throughout, retagging with the tag already carried changes
/// nothing, and a later retag forgets an earlier one. Together they
/// make the conversion between a bound shape and the root-erased shape
/// lossless and invertible — see [`lemma_storable_roundtrip`].
pub trait Storable: Sized {
    /// Every scope-bound component of the value carries the region
    /// identity `r`. A value without scope-bound components is tagged
    /// with every identity at once.
    spec fn tagged(&self, r: u64) -> bool;

    /// The value with every region tag rewritten to `to`.
    spec fn retag_spec(&self, to: u64) -> Self;

    /// Rewrite every region tag of the value to the identity of `to`.
    fn retag(self, to: Region) -> (r: Self)
        ensures
            r == self.retag_spec(to@),
    ;

    /// After a retag the value carries the target tag throughout.
    proof fn lemma_retag_tagged(&self, to: u64)
        ensures
            self.retag_spec(to).tagged(to),
    ;

    /// Retagging with the tag the value already carries changes
    /// nothing.
    proof fn lemma_retag_identity(&self, a: u64)
        requires
            self.tagged(a),
        ensures
            self.retag_spec(a) == *self,
    ;

    /// A later retag forgets an earlier one.
    proof fn lemma_retag_compose(&self, b: u64, a: u64)
        ensures
            self.retag_spec(b).retag_spec(a) == self.retag_spec(a),
    ;
}

/// The round trip of the storage bridge is lossless: a value carrying
/// the tag of activation `rg`, erased to any region `er` and bound back
/// to `rg`, is reproduced exactly, bit for bit.
pub proof fn lemma_storable_roundtrip<Z: Storable>(bound: Z, rg: u64, er: u64)
    requires
        bound.tagged(rg),
    ensures
        bound.retag_spec(er).retag_spec(rg) == bound,
{
    bound.lemma_retag_compose(er, rg);
    bound.lemma_retag_identity(rg);
}

/// A region itself is storable: its whole content is its tag.
impl Storable for Region {
    closed spec fn tagged(&self, r: u64) -> bool {
        self@ == r
    }

    closed spec fn retag_spec(&self, to: u64) -> Self {
        Region { id: to }
    }

    fn retag(self, to: Region) -> (r: Self) {
        proof {
            lemma_region_view(to);
        }
        to
    }

    proof fn lemma_retag_tagged(&self, to: u64) {
        lemma_region_view(Region { id: to });
    }

    proof fn lemma_retag_identity(&self, a: u64) {
        lemma_region_view(*self);
    }

    proof fn lemma_retag_compose(&self, b: u64, a: u64) {
    }
}

/// A marker is storable: its one scope-bound component is its region,
/// and its descriptor is kept as it is.
impl Storable for UniqueType {
    closed spec fn tagged(&self, r: u64) -> bool {
        self.region@ == r
    }

    closed spec fn retag_spec(&self, to: u64) -> Self {
        UniqueType { region: Region { id: to }, desc: self.desc }
    }

    fn retag(self, to: Region) -> (r: Self) {
        proof {
            lemma_region_view(to);
        }
        UniqueType { region: to, desc: self.desc }
    }

    proof fn lemma_retag_tagged(&self, to: u64) {
        lemma_region_view(Region { id: to });
    }

    proof fn lemma_retag_identity(&self, a: u64) {
        lemma_region_view(self.region);
    }

    proof fn lemma_retag_compose(&self, b: u64, a: u64) {
    }
}

/// A marker carries the tag of the activation it reports: `tagged`
/// and the marker's own projection agree.
pub proof fn lemma_marker_tagged(m: UniqueType, r: u64)
    ensures
        m.tagged(r) <==> m.region_id() == r,
{
    lemma_marker_fields(m);
}

/// A descriptor has no scope-bound component: it is tagged with every
/// region and retagging leaves it unchanged.
impl Storable for TypeDesc {
    open spec fn tagged(&self, r: u64) -> bool {
        true
    }

    open spec fn retag_spec(&self, to: u64) -> Self {
        *self
    }

    fn retag(self, to: Region) -> (r: Self) {
        self
    }

    proof fn lemma_retag_tagged(&self, to: u64) {
    }

    proof fn lemma_retag_identity(&self, a: u64) {
    }

    proof fn lemma_retag_compose(&self, b: u64, a: u64) {
    }
}

/// Plain data has no scope-bound component: it is tagged with every
/// region and retagging leaves it unchanged.
impl Storable for u64 {
    open spec fn tagged(&self, r: u64) -> bool {
        true
    }

    open spec fn retag_spec(&self, to: u64) -> Self {
        *self
    }

    fn retag(self, to: Region) -> (r: Self) {
        self
    }

    proof fn lemma_retag_tagged(&self, to: u64) {
    }

    proof fn lemma_retag_identity(&self, a: u64) {
    }

    proof fn lemma_retag_compose(&self, b: u64, a: u64) {
    }
}

/// A stored value is already erased to the root region, so it has no
/// scope-bound component of its own: it is tagged with every region
/// and retagging leaves it unchanged.
impl<T> Storable for Gen<T> {
    open spec fn tagged(&self, r: u64) -> bool {
        true
    }

    open spec fn retag_spec(&self, to: u64) -> Self {
        *self
    }

    fn retag(self, to: Region) -> (r: Self) {
        self
    }

    proof fn lemma_retag_tagged(&self, to: u64) {
    }

    proof fn lemma_retag_identity(&self, a: u64) {
    }

    proof fn lemma_retag_compose(&self, b: u64, a: u64) {
    }
}

/// A pair is storable component-wise; both components share the one
/// tag that is threaded through the pair.
impl<A: Storable, B: Storable> Storable for (A, B) {
    open spec fn tagged(&self, r: u64) -> bool {
        self.0.tagged(r) && self.1.tagged(r)
    }

    open spec fn retag_spec(&self, to: u64) -> Self {
        (self.0.retag_spec(to), self.1.retag_spec(to))
    }

    fn retag(self, to: Region) -> (r: Self) {
        let (a, b) = self;
        (a.retag(to), b.retag(to))
    }

    proof fn lemma_retag_tagged(&self, to: u64) {
        self.0.lemma_retag_tagged(to);
        self.1.lemma_retag_tagged(to);
    }

    proof fn lemma_retag_identity(&self, a: u64) {
        self.0.lemma_retag_identity(a);
        self.1.lemma_retag_identity(a);
    }

    proof fn lemma_retag_compose(&self, b: u64, a: u64) {
        self.0.lemma_retag_compose(b, a);
        self.1.lemma_retag_compose(b, a);
    }
}

/// A triple is storable component-wise, like a pair; longer tuples can
/// be nested from these.
impl<A: Storable, B: Storable, C: Storable> Storable for (A, B, C) {
    open spec fn tagged(&self, r: u64) -> bool {
        self.0.tagged(r) && self.1.tagged(r) && self.2.tagged(r)
    }

    open spec fn retag_spec(&self, to: u64) -> Self {
        (self.0.retag_spec(to), self.1.retag_spec(to), self.2.retag_spec(to))
    }

    fn retag(self, to: Region) -> (r: Self) {
        let (a, b, c) = self;
        (a.retag(to), b.retag(to), c.retag(to))
    }

    proof fn lemma_retag_tagged(&self, to: u64) {
        self.0.lemma_retag_tagged(to);
        self.1.lemma_retag_tagged(to);
        self.2.lemma_retag_tagged(to);
    }

    proof fn lemma_retag_identity(&self, a: u64) {
        self.0.lemma_retag_identity(a);
        self.1.lemma_retag_identity(a);
        self.2.lemma_retag_identity(a);
    }

    proof fn lemma_retag_compose(&self, b: u64, a: u64) {
        self.0.lemma_retag_compose(b, a);
        self.1.lemma_retag_compose(b, a);
        self.2.lemma_retag_compose(b, a);
    }
}

} // verus!
