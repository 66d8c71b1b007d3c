use m3kern::errors::Code;
use m3kern::selrange::{CapRngDesc, CapType, SelRange, MAX_COUNT, MAX_SEL};

#[test]
fn cap_rng_desc_single() {
    for sel in [0u64, 1, 1234, u64::MAX] {
        let single = CapRngDesc::new_single(CapType::Object, sel);
        assert_eq!(single.start(), sel);
        assert_eq!(single.count(), 1);
        assert_eq!(single.cap_type(), CapType::Object);
    }
}

#[test]
fn cap_rng_desc_new() {
    // an ordinary range
    let rng = CapRngDesc::new(CapType::Mapping, 4321, 6);
    assert!(rng.is_ok());
    let rng = rng.unwrap();
    assert_eq!(rng.start(), 4321);
    assert_eq!(rng.count(), 6);
    assert_eq!(rng.cap_type(), CapType::Mapping);

    // an empty range
    let rng = CapRngDesc::new(CapType::Object, 4321, 0);
    assert!(rng.is_ok());
    assert_eq!(rng.unwrap().count(), 0);

    // a range of maximum size
    let rng = CapRngDesc::new(CapType::Object, 0, u64::MAX >> 1).unwrap();
    assert_eq!(rng.start(), 0);
    assert_eq!(rng.count(), u64::MAX >> 1);
    assert_eq!(rng.cap_type(), CapType::Object);

    // a range at the end
    let rng = CapRngDesc::new(CapType::Object, u64::MAX, 1).unwrap();
    assert_eq!(rng.start(), u64::MAX);
    assert_eq!(rng.count(), 1);
    assert_eq!(rng.cap_type(), CapType::Object);

    // the capability count
    assert_eq!(
        CapRngDesc::new(CapType::Mapping, 1337, (u64::MAX >> 1) + 1),
        Err(Code::CapCountTooLarge)
    );
    assert_eq!(CapRngDesc::new(CapType::Mapping, 0, u64::MAX), Err(Code::CapCountTooLarge));

    // overflow
    assert_eq!(CapRngDesc::new(CapType::Object, u64::MAX, 2), Err(Code::LastCapOverflow));
}

#[test]
fn cap_rng_desc_limits() {
    assert_eq!(MAX_SEL, u64::MAX);
    assert_eq!(MAX_COUNT, u64::MAX >> 1);
    // the last selector of the range is the maximum one
    assert!(CapRngDesc::new(CapType::Object, u64::MAX - 9, 10).is_ok());
    assert_eq!(CapRngDesc::new(CapType::Object, u64::MAX - 9, 11), Err(Code::LastCapOverflow));
}

#[test]
fn sel_range_order() {
    let a = SelRange::new_range(10, 5);
    let b = SelRange::new(12);
    let c = SelRange::new(15);
    let d = SelRange::new(3);
    // a range that starts within another one equals it
    assert_eq!(b.cmp(&a), std::cmp::Ordering::Equal);
    assert_eq!(a.cmp(&b), std::cmp::Ordering::Less);
    assert_eq!(a.cmp(&c), std::cmp::Ordering::Less);
    assert_eq!(a.cmp(&d), std::cmp::Ordering::Greater);
    assert_eq!(b.start, 12);
    assert_eq!(b.count, 1);
}
