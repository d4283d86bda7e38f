use fuel_amms::amm::AMM;
use fuel_amms::filters::{
    filter_amms_with_empty_reserves, filter_blacklisted_amms, filter_blacklisted_tokens,
    filter_empty_amms,
};
use fuel_amms::ids::{AssetId, ContractId};
use fuel_amms::oxiswap::Oxiswap;

fn pool(address: u8, a: u8, b: u8, reserve_a: u64, reserve_b: u64) -> AMM {
    AMM::Oxiswap(Oxiswap::new(
        ContractId::new([address; 32]),
        AssetId::new([a; 32]),
        AssetId::new([b; 32]),
        reserve_a,
        reserve_b,
        300,
    ))
}

fn addresses(amms: &[AMM]) -> Vec<u8> {
    amms.iter().map(|a| a.address().bytes[0]).collect()
}

#[test]
fn blacklisted_tokens_are_removed_and_filtering_twice_changes_nothing() {
    let amms = vec![pool(1, 1, 2, 5, 5), pool(2, 2, 3, 5, 5), pool(3, 4, 5, 5, 5), pool(4, 3, 9, 5, 5)];
    let blacklist = vec![AssetId::new([3; 32])];
    let once = filter_blacklisted_tokens(amms, blacklist.clone());
    assert_eq!(addresses(&once), vec![1, 3]);
    let twice = filter_blacklisted_tokens(once.clone(), blacklist);
    assert_eq!(addresses(&twice), addresses(&once));
}

#[test]
fn blacklisted_addresses_are_removed() {
    let amms = vec![pool(1, 1, 2, 5, 5), pool(2, 2, 3, 5, 5), pool(3, 4, 5, 5, 5)];
    let once = filter_blacklisted_amms(amms, vec![ContractId::new([2; 32])]);
    assert_eq!(addresses(&once), vec![1, 3]);
    let twice = filter_blacklisted_amms(once.clone(), vec![ContractId::new([2; 32])]);
    assert_eq!(addresses(&twice), vec![1, 3]);
}

#[test]
fn empty_pools_are_removed() {
    let amms = vec![pool(1, 0, 0, 5, 5), pool(2, 0, 3, 5, 5), pool(3, 4, 5, 0, 0)];
    assert_eq!(addresses(&filter_empty_amms(amms.clone())), vec![2, 3]);
    assert_eq!(addresses(&filter_amms_with_empty_reserves(amms)), vec![1, 2]);
}
