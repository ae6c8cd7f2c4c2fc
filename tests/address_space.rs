use um::address_space::AddressSpace;
use um::error::UmError;

#[test]
fn allocate_gives_fresh_nonzero_zeroed_segments() {
    let mut mem = AddressSpace::new();
    mem.insert(0, vec![7]);
    let a = mem.allocate(3).unwrap();
    let b = mem.allocate(0).unwrap();
    assert_ne!(a, 0);
    assert_ne!(b, 0);
    assert_ne!(a, b);
    assert_eq!(mem.get(a).unwrap(), &vec![0, 0, 0]);
    assert_eq!(mem.get(b).unwrap().len(), 0);
    assert_eq!(mem.get(0).unwrap(), &vec![7]);
}

#[test]
fn allocate_skips_inserted_identifiers() {
    let mut mem = AddressSpace::new();
    mem.insert(1, vec![1]);
    mem.insert(2, vec![2]);
    let a = mem.allocate(1).unwrap();
    assert!(a != 0 && a != 1 && a != 2);
    assert_eq!(mem.get(1).unwrap(), &vec![1]);
}

#[test]
fn deallocated_identifier_is_reused() {
    let mut mem = AddressSpace::new();
    mem.insert(0, vec![]);
    let a = mem.allocate(2).unwrap();
    let b = mem.allocate(2).unwrap();
    mem.write(a, 1, 9).unwrap();
    mem.deallocate(a).unwrap();
    assert!(!mem.contains(a));
    let c = mem.allocate(4).unwrap();
    assert_eq!(c, a);
    assert_ne!(c, b);
    assert_eq!(mem.get(c).unwrap(), &vec![0, 0, 0, 0]);
}

#[test]
fn identifier_given_back_then_inserted_is_not_handed_out() {
    let mut mem = AddressSpace::new();
    let a = mem.allocate(1).unwrap();
    mem.deallocate(a).unwrap();
    mem.insert(a, vec![5]);
    let b = mem.allocate(1).unwrap();
    assert_ne!(a, b);
    assert_eq!(mem.get(a).unwrap(), &vec![5]);
}

#[test]
fn read_and_write_words() {
    let mut mem = AddressSpace::new();
    mem.insert(3, vec![1, 2, 3]);
    assert_eq!(mem.read(3, 2), Ok(3));
    mem.write(3, 0, 40).unwrap();
    assert_eq!(mem.read(3, 0), Ok(40));
    assert_eq!(mem.read(3, 3), Err(UmError::OutOfBoundsIndex { segment: 3, index: 3 }));
    assert_eq!(mem.read(4, 0), Err(UmError::UnmappedSegment(4)));
    assert_eq!(mem.write(3, 3, 0), Err(UmError::OutOfBoundsIndex { segment: 3, index: 3 }));
    assert_eq!(mem.write(4, 0, 0), Err(UmError::UnmappedSegment(4)));
}

#[test]
fn deallocate_faults() {
    let mut mem = AddressSpace::new();
    mem.insert(0, vec![1]);
    assert_eq!(mem.deallocate(0), Err(UmError::UnmapSegmentZero));
    assert_eq!(mem.deallocate(8), Err(UmError::DoubleUnmap(8)));
    assert!(mem.contains(0));
}

#[test]
fn replace_program_copies_segment() {
    let mut mem = AddressSpace::new();
    mem.insert(0, vec![1]);
    mem.insert(2, vec![4, 5, 6]);
    mem.replace_program(2).unwrap();
    assert_eq!(mem.get(0).unwrap(), &vec![4, 5, 6]);
    mem.write(2, 0, 0).unwrap();
    assert_eq!(mem.get(0).unwrap(), &vec![4, 5, 6]);
    assert_eq!(mem.replace_program(9), Err(UmError::UnmappedSegment(9)));
    mem.replace_program(0).unwrap();
    assert_eq!(mem.get(0).unwrap(), &vec![4, 5, 6]);
}
