use genz::{with_region, with_scope, with_type, Region, RegionAuthority, TypeDesc, UniqueType};

#[test]
fn scope_body_result_is_returned() {
    let r = with_scope(|_s| 41 + 1);
    assert_eq!(42, r);
}

#[test]
fn region_body_result_is_returned() {
    let mut auth = RegionAuthority::new();
    let r = with_region(&mut auth, |_rg| "done");
    assert_eq!("done", r);
}

#[test]
fn marker_carries_its_descriptor() {
    let mut auth = RegionAuthority::new();
    let d = TypeDesc::new(9);
    let carried = with_type(&mut auth, d, |t: UniqueType| t.descriptor());
    assert_eq!(d, carried);
}

#[test]
fn marker_is_the_same_as_itself() {
    let mut auth = RegionAuthority::new();
    let d = TypeDesc::new(5);
    let m = with_type(&mut auth, d, |t| t);
    assert!(m.same_marker(&m));
}

#[test]
fn sequential_activations_same_descriptor_differ() {
    let mut auth = RegionAuthority::new();
    let d = TypeDesc::new(7);
    let m1 = with_type(&mut auth, d, |t| t);
    let m2 = with_type(&mut auth, d, |t| t);
    assert!(!m1.same_marker(&m2));
    assert!(!m2.same_marker(&m1));
    assert_eq!(d, m1.descriptor());
    assert_eq!(d, m2.descriptor());
}

#[test]
fn activations_inside_a_scope_differ() {
    let mut auth = RegionAuthority::new();
    let d = TypeDesc::new(7);
    let (m1, m2) = with_scope(|_s| {
        let first = with_type(&mut auth, d, |t| t);
        let second = with_type(&mut auth, d, |t| t);
        (first, second)
    });
    assert!(!m1.same_marker(&m2));
}

#[test]
fn markers_with_different_descriptors_differ() {
    let mut auth = RegionAuthority::new();
    let m1 = with_type(&mut auth, TypeDesc::new(1), |t| t);
    let m2 = with_type(&mut auth, TypeDesc::new(2), |t| t);
    assert!(!m1.same_marker(&m2));
}

#[test]
fn marker_gives_up_its_region() {
    let mut auth = RegionAuthority::new();
    let m = with_type(&mut auth, TypeDesc::new(3), |t| t);
    let _region: Region = Region::from(m);
}

#[test]
fn descriptor_equality_is_by_key() {
    assert_eq!(TypeDesc::new(4), TypeDesc::new(4));
    assert_ne!(TypeDesc::new(4), TypeDesc::new(5));
    assert_eq!(TypeDesc::new(u64::MAX), TypeDesc::new(u64::MAX));
}
