use memory_buffers::address_range::AddressRange;

#[test]
fn contains_should_be_true_when_other_range_is_inside() {
    let range = AddressRange::new(100, 200);
    let other_range = AddressRange::new(120, 180);

    assert!(range.contains(&other_range));
}

#[test]
fn contains_should_be_false_when_other_range_is_not_inside() {
    let range = AddressRange::new(100, 200);
    let other_range = AddressRange::new(80, 220);

    assert!(!range.contains(&other_range));
}

#[test]
fn overlaps_should_be_true_when_other_range_overlaps() {
    let range = AddressRange::new(100, 200);
    let other_range = AddressRange::new(150, 220);

    assert!(range.overlaps(&other_range));
}

#[test]
fn overlaps_should_be_false_when_other_range_does_not_overlap() {
    let range = AddressRange::new(100, 200);
    let other_range = AddressRange::new(300, 400);

    assert!(!range.overlaps(&other_range));
}

#[test]
fn overlaps_should_be_true_when_ranges_are_same() {
    let range = AddressRange::new(100, 200);
    let other_range = AddressRange::new(100, 200);

    assert!(range.overlaps(&other_range));
}

#[test]
fn overlaps_should_be_true_when_one_range_is_fully_inside_other() {
    let range = AddressRange::new(100, 200);
    let other_range = AddressRange::new(120, 180);

    assert!(range.overlaps(&other_range));
}

#[test]
fn overlaps_should_be_true_when_ranges_are_adjacent() {
    let range = AddressRange::new(100, 200);
    let other_range = AddressRange::new(200, 300);

    assert!(range.overlaps(&other_range));
}

#[test]
fn overlaps_should_be_true_when_other_range_starts_inside_range() {
    let range = AddressRange::new(100, 200);
    let other_range = AddressRange::new(150, 250);

    assert!(range.overlaps(&other_range));
}

#[test]
fn overlaps_should_be_true_when_other_range_ends_inside_range() {
    let range = AddressRange::new(100, 200);
    let other_range = AddressRange::new(50, 150);

    assert!(range.overlaps(&other_range));
}

#[test]
fn size_is_end_minus_start() {
    let range = AddressRange::new(100, 200);
    assert_eq!(range.size(), 100);
}
