use resources::pci_slot::{PciSlot, PciSlotError};
use std::cmp::Ordering;

#[test]
fn round_trip_from_str() {
    let slot = PciSlot::try_new(0x5, 0x1, 0x1b, 0x3).unwrap();
    assert_eq!(slot, "0005:01:1b.3".parse().unwrap());
}

#[test]
fn round_trip_to_str() {
    assert_eq!(
        PciSlot::try_new(0x5, 0x1, 0x1b, 0x3).unwrap().to_string(),
        "0005:01:1b.3"
    );
}

#[test]
fn invalid_format_too_few_parts() {
    assert_eq!(
        "0000:01:1b".parse::<PciSlot>().unwrap_err(),
        PciSlotError::InvalidFormat
    );
}

#[test]
fn invalid_format_too_many_parts() {
    assert_eq!(
        "0000:01:1b.3.4".parse::<PciSlot>().unwrap_err(),
        PciSlotError::InvalidFormat
    );
}

#[test]
fn invalid_domain() {
    assert!(matches!(
        "g000:01:1b.3".parse::<PciSlot>().unwrap_err(),
        PciSlotError::ParseDomain(_)
    ));
}

#[test]
fn invalid_bus() {
    assert!(matches!(
        "0000:z1:1b.3".parse::<PciSlot>().unwrap_err(),
        PciSlotError::ParseBus(_)
    ));
}

#[test]
fn invalid_number() {
    assert!(matches!(
        "0000:01:x2.3".parse::<PciSlot>().unwrap_err(),
        PciSlotError::ParseNumber(_)
    ));
}

#[test]
fn invalid_function() {
    assert!(matches!(
        "0000:01:1b.y".parse::<PciSlot>().unwrap_err(),
        PciSlotError::ParseFunction(_)
    ));
}

#[test]
fn minimal_valid() {
    assert_eq!(
        PciSlot::try_new(0, 0, 0, 0).unwrap().to_string(),
        "0000:00:00.0"
    );
}

#[test]
fn maximal_valid() {
    let slot = PciSlot::try_new(0xffff, 0xff, 0x1f, 0x7).unwrap();
    assert_eq!(slot, "ffff:ff:1f.7".parse().unwrap());
}

#[test]
fn number_out_of_bounds() {
    assert!(matches!(
        PciSlot::try_new(0, 0, 0x20, 0),
        Err(PciSlotError::NumberOutOfBounds(0x20))
    ));
}

#[test]
fn function_out_of_bounds() {
    assert!(matches!(
        PciSlot::try_new(0, 0, 0, 0x8),
        Err(PciSlotError::FunctionOutOfBounds(0x8))
    ));
}

#[test]
fn components_read_back() {
    let slot = PciSlot::try_new(0x0, 0x1, 0x1b, 0x3).unwrap();
    assert_eq!(
        (slot.domain(), slot.bus(), slot.number(), slot.function()),
        (0x0, 0x1, 0x1b, 0x3)
    );
}

#[test]
fn dot_accepted_in_place_of_colon() {
    let slot: PciSlot = "0005.01.1b:3".parse().unwrap();
    assert_eq!(slot, PciSlot::try_new(0x5, 0x1, 0x1b, 0x3).unwrap());
}

#[test]
fn upper_case_and_plus_sign_accepted() {
    let slot: PciSlot = "+00AB:0F:1B.3".parse().unwrap();
    assert_eq!(slot.to_string(), "00ab:0f:1b.3");
}

#[test]
fn number_out_of_bounds_from_text() {
    assert_eq!(
        "0000:00:20.0".parse::<PciSlot>().unwrap_err(),
        PciSlotError::NumberOutOfBounds(0x20)
    );
}

#[test]
fn domain_overflow() {
    assert!(matches!(
        "10000:00:00.0".parse::<PciSlot>().unwrap_err(),
        PciSlotError::ParseDomain(_)
    ));
}

#[test]
fn empty_component() {
    assert!(matches!(
        "0000::00.0".parse::<PciSlot>().unwrap_err(),
        PciSlotError::ParseBus(_)
    ));
}

#[test]
fn slots_order_by_components() {
    let a = PciSlot::try_new(0, 2, 0, 0).unwrap();
    let b = PciSlot::try_new(0, 1, 0x1f, 7).unwrap();
    let c = PciSlot::try_new(1, 0, 0, 0).unwrap();
    assert!(b < a);
    assert!(a < c);
}

#[test]
fn partial_order_matches_components() {
    let s = |d, b, n, f| PciSlot::try_new(d, b, n, f).unwrap();
    assert_eq!(s(0, 1, 2, 3).partial_cmp(&s(0, 1, 2, 4)), Some(Ordering::Less));
    assert_eq!(s(0, 1, 3, 0).partial_cmp(&s(0, 1, 2, 7)), Some(Ordering::Greater));
    assert_eq!(s(3, 0, 0, 0).partial_cmp(&s(3, 0, 0, 0)), Some(Ordering::Equal));
    assert_eq!(s(0, 9, 0, 0).cmp(&s(1, 0, 0, 0)), Ordering::Less);
}
