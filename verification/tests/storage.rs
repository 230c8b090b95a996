use genz::{Gen, RegionAuthority, TypeDesc, UniqueType};

#[test]
fn stored_value_reads_back_what_was_written() {
    let mut auth = RegionAuthority::new();
    let d = TypeDesc::new(3);
    let g: Gen<(UniqueType, u64)> = Gen::from_type(&mut auth, d, |t| (t, 7));
    assert_eq!(7, g.with_ref(|v| v.1));
    assert_eq!(7, g.with_ref(|v| v.1));
    assert_eq!(d, g.with_ref(|v| v.0.descriptor()));
}

#[test]
fn mutation_is_visible_to_every_later_read() {
    let mut auth = RegionAuthority::new();
    let d = TypeDesc::new(3);
    let mut g: Gen<(UniqueType, u64)> = Gen::from_type(&mut auth, d, |t| (t, 7));
    assert_eq!(7, g.with_ref(|v| v.1));
    g.with_mut(|v| v.1 = 9);
    assert_eq!(9, g.with_ref(|v| v.1));
    assert_eq!(9, g.with_ref(|v| v.1));
}

#[test]
fn stored_tuple_of_markers_keeps_both() {
    let mut auth = RegionAuthority::new();
    let mut ds = Vec::new();
    ds.push(TypeDesc::new(1));
    ds.push(TypeDesc::new(2));
    let g: Option<Gen<(UniqueType, UniqueType)>> =
        Gen::try_from_types(&mut auth, &ds, |_rg, mut ts| {
            let second = ts.pop().expect("two markers were minted");
            let first = ts.pop().expect("two markers were minted");
            (first, second)
        });
    let g = g.expect("a distinct pair must be accepted");
    assert_eq!(TypeDesc::new(1), g.with_ref(|v| v.0.descriptor()));
    assert_eq!(TypeDesc::new(2), g.with_ref(|v| v.1.descriptor()));
}

#[test]
fn storing_a_duplicate_tuple_is_absent_and_body_never_runs() {
    let mut auth = RegionAuthority::new();
    let mut ds = Vec::new();
    ds.push(TypeDesc::new(1));
    ds.push(TypeDesc::new(1));
    let g: Option<Gen<u64>> = Gen::try_from_types(&mut auth, &ds, |_rg, _ts| {
        panic!("the body must not run for a duplicate tuple")
    });
    assert!(g.is_none());
}

#[test]
fn fail_fast_storage_agrees_with_try_storage_when_distinct() {
    let mut auth = RegionAuthority::new();
    let mut ds = Vec::new();
    ds.push(TypeDesc::new(1));
    ds.push(TypeDesc::new(2));
    let tried: Gen<u64> = Gen::try_from_types(&mut auth, &ds, |_rg, ts| ts.len() as u64)
        .expect("a distinct pair must be accepted");
    let bare: Gen<u64> = Gen::from_types(&mut auth, &ds, |_rg, ts| ts.len() as u64);
    assert_eq!(tried.with_ref(|v| *v), bare.with_ref(|v| *v));
}

#[test]
fn plain_data_can_be_stored_from_an_activation() {
    let mut auth = RegionAuthority::new();
    let g: Gen<u64> = Gen::from_fn(&mut auth, |_rg| 42);
    assert_eq!(42, g.with_ref(|v| *v));
}

#[test]
fn optional_construction_stores_on_some_and_nothing_on_none() {
    let mut auth = RegionAuthority::new();
    let some: Option<Gen<u64>> = Gen::try_from_fn(&mut auth, |_rg| Some(5));
    assert_eq!(Some(5), some.map(|g| g.with_ref(|v| *v)));
    let none: Option<Gen<u64>> = Gen::try_from_fn(&mut auth, |_rg| None);
    assert!(none.is_none());
}

#[test]
fn a_stored_value_can_itself_be_stored() {
    let mut auth = RegionAuthority::new();
    let inner: Gen<u64> = Gen::from_fn(&mut auth, |_rg| 11);
    let outer: Gen<Gen<u64>> = Gen::from_fn(&mut auth, |_rg| inner);
    assert_eq!(11, outer.with_ref(|g| g.with_ref(|v| *v)));
}

#[test]
fn stored_triple_keeps_markers_and_data() {
    let mut auth = RegionAuthority::new();
    let mut ds = Vec::new();
    ds.push(TypeDesc::new(1));
    ds.push(TypeDesc::new(2));
    let g: Option<Gen<(UniqueType, UniqueType, u64)>> =
        Gen::try_from_types(&mut auth, &ds, |_rg, mut ts| {
            let second = ts.pop().expect("two markers were minted");
            let first = ts.pop().expect("two markers were minted");
            (first, second, 3)
        });
    let g = g.expect("a distinct pair must be accepted");
    assert_eq!(TypeDesc::new(1), g.with_ref(|v| v.0.descriptor()));
    assert_eq!(TypeDesc::new(2), g.with_ref(|v| v.1.descriptor()));
    assert_eq!(3, g.with_ref(|v| v.2));
}

#[test]
fn a_stored_marker_still_reports_its_descriptor() {
    let mut auth = RegionAuthority::new();
    let d = TypeDesc::new(6);
    let g: Gen<UniqueType> = Gen::from_type(&mut auth, d, |t| t);
    assert_eq!(d, g.with_ref(|t| t.descriptor()));
}
