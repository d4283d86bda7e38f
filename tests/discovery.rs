use fuel_amms::factory::{page_bounds, MiraV1Factory, DISCOVERY_STEP};
use fuel_amms::ids::ContractId;

#[test]
fn pages_of_two_thousand_pools() {
    let pages = page_bounds(2000, 766);
    assert_eq!(pages, vec![(0, 766), (766, 1532), (1532, 2000)]);
    let mut seen: Vec<u64> = Vec::new();
    for (from, to) in pages {
        for i in from..to {
            seen.push(i);
        }
    }
    assert_eq!(seen, (0..2000).collect::<Vec<u64>>());
}

#[test]
fn pages_of_few_pools() {
    assert_eq!(page_bounds(10, DISCOVERY_STEP), vec![(0, 10)]);
    assert!(page_bounds(0, DISCOVERY_STEP).is_empty());
    assert_eq!(page_bounds(1532, 766), vec![(0, 766), (766, 1532)]);
    assert_eq!(page_bounds(u64::MAX, u64::MAX), vec![(0, u64::MAX)]);
}

#[test]
fn factory_address() {
    let factory = MiraV1Factory::new(ContractId::new([3; 32]), 12);
    assert!(factory.address() == ContractId::new([3; 32]));
    assert_eq!(factory.creation_block, 12);
}
