//! Uniqueness of types within one bounded activation.
//!
//! The crate mints opaque markers ([`UniqueType`]) that tie a logical-type
//! descriptor to the identity of exactly one activation (a [`Region`]), so
//! that otherwise identical values branded by markers from different
//! activations can never be confused. A tuple of markers is only minted
//! after every pair of its descriptors has been checked distinct, and a
//! value built from markers can be stored past its activation through the
//! [`Storable`] bridge, which erases its region tags to the root region and
//! re-binds them for the duration of each access.

mod lifetime;
pub use lifetime::{
    lemma_region_noninterchangeable, root_id, with_region, with_scope, Region, RegionAuthority,
    Scope,
};

mod storable;
pub use storable::{lemma_marker_tagged, lemma_storable_roundtrip, Storable};

mod gen;
pub use gen::{
    lemma_desc_eq, lemma_distinct_permutation, lemma_marker_noninterchangeable,
    lemma_tuple_markers_distinct, markers_for, pairwise_distinct, try_with_types, with_type,
    with_types, Gen, StaticTuple, TryGenTuple, TypeDesc, UniqueType,
};
