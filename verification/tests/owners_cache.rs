use wallet_core::address::{Address, UInt256};
use wallet_core::address_map::AddressMap;
use wallet_core::owners_cache::{
    OwnersCache, OwnersCacheError, RecipientWallet, RootTokenContract, TokenContractStates,
};

fn addr(n: u128) -> Address {
    Address { workchain_id: 0, account_id: UInt256 { hi: 0, lo: n } }
}

fn sorted(mut pairs: Vec<(Address, Address)>) -> Vec<(u128, u128)> {
    pairs.sort_by_key(|p| p.0.account_id.lo);
    pairs.iter().map(|p| (p.0.account_id.lo, p.1.account_id.lo)).collect()
}

#[test]
fn load_without_record_is_empty() {
    let cache = OwnersCache::load(None, 4).unwrap();
    assert_eq!(cache.get_owner(&addr(1)), None);
    assert!(cache.save().is_empty());
    assert_eq!(cache.concurrent_resolvers(), 4);
}

#[test]
fn load_reads_every_pair() {
    let record = vec![(Some(addr(1)), Some(addr(10))), (Some(addr(2)), Some(addr(20)))];
    let cache = OwnersCache::load(Some(record), 1).unwrap();
    assert_eq!(cache.get_owner(&addr(1)), Some(addr(10)));
    assert_eq!(cache.get_owner(&addr(2)), Some(addr(20)));
    assert_eq!(cache.get_owner(&addr(3)), None);
    assert_eq!(sorted(cache.save()), vec![(1, 10), (2, 20)]);
}

#[test]
fn load_keeps_the_later_of_two_pairs_with_one_key() {
    let record = vec![(Some(addr(1)), Some(addr(10))), (Some(addr(1)), Some(addr(11)))];
    let cache = OwnersCache::load(Some(record), 1).unwrap();
    assert_eq!(cache.get_owner(&addr(1)), Some(addr(11)));
    assert_eq!(sorted(cache.save()), vec![(1, 11)]);
}

#[test]
fn load_refuses_an_unreadable_address() {
    let record = vec![(Some(addr(1)), Some(addr(10))), (Some(addr(2)), None)];
    assert!(matches!(OwnersCache::load(Some(record), 1), Err(OwnersCacheError::InvalidAddress)));
    let record = vec![(None, Some(addr(10)))];
    assert!(matches!(OwnersCache::load(Some(record), 1), Err(OwnersCacheError::InvalidAddress)));
}

#[test]
fn load_unchecked_degrades_to_empty() {
    let record = vec![(Some(addr(1)), Some(addr(10))), (Some(addr(2)), None)];
    let cache = OwnersCache::load_unchecked(Some(record), 3);
    assert_eq!(cache.get_owner(&addr(1)), None);
    assert!(cache.save().is_empty());
    assert_eq!(cache.concurrent_resolvers(), 3);
    let cache = OwnersCache::load_unchecked(Some(vec![(Some(addr(1)), Some(addr(10)))]), 3);
    assert_eq!(cache.get_owner(&addr(1)), Some(addr(10)));
}

#[test]
fn add_entry_records_and_returns_what_to_persist() {
    let mut cache = OwnersCache::empty(2);
    let snapshot = cache.add_entry(addr(1), addr(10));
    assert_eq!(snapshot, vec![(addr(1), addr(10))]);
    let snapshot = cache.add_entry(addr(2), addr(20));
    assert_eq!(sorted(snapshot), vec![(1, 10), (2, 20)]);
    let snapshot = cache.add_entry(addr(1), addr(12));
    assert_eq!(sorted(snapshot), vec![(1, 12), (2, 20)]);
    assert_eq!(cache.get_owner(&addr(1)), Some(addr(12)));
}

#[test]
fn add_owners_list_records_all() {
    let mut cache = OwnersCache::empty(2);
    cache.add_entry(addr(1), addr(10));
    let snapshot = cache.add_owners_list(&vec![(addr(2), addr(20)), (addr(1), addr(11)), (addr(2), addr(21))]);
    assert_eq!(sorted(snapshot), vec![(1, 11), (2, 21)]);
    assert_eq!(cache.get_owner(&addr(2)), Some(addr(21)));
}

#[test]
fn saved_record_loads_back() {
    let mut cache = OwnersCache::empty(2);
    cache.add_entry(addr(3), addr(30));
    cache.add_entry(addr(1), addr(10));
    cache.add_entry(addr(2), addr(20));
    let saved = cache.save();
    let record: Vec<(Option<Address>, Option<Address>)> =
        saved.iter().map(|p| (Some(p.0), Some(p.1))).collect();
    let again = OwnersCache::load(Some(record), 2).unwrap();
    assert_eq!(sorted(again.save()), sorted(saved));
    assert_eq!(sorted(again.save()), vec![(1, 10), (2, 20), (3, 30)]);
}

#[test]
fn unresolved_lists_each_unknown_wallet_once() {
    let mut cache = OwnersCache::empty(2);
    cache.add_entry(addr(1), addr(10));
    let misses = cache.unresolved(&vec![addr(2), addr(1), addr(3), addr(2), addr(3)]);
    assert_eq!(misses, vec![addr(2), addr(3)]);
    assert!(cache.unresolved(&vec![]).is_empty());
}

#[test]
fn resolve_owners_returns_known_and_fetched() {
    let mut cache = OwnersCache::empty(2);
    cache.add_entry(addr(1), addr(10));
    let mut fetched = AddressMap::new();
    fetched.insert(addr(2), addr(20));
    // what the cache knows is not replaced by what was fetched
    fetched.insert(addr(1), addr(99));
    // a wallet that nobody asked for is not recorded
    fetched.insert(addr(5), addr(50));
    let (resolved, snapshot) = cache.resolve_owners(&vec![addr(1), addr(2), addr(3), addr(2)], &fetched);
    assert_eq!(sorted(resolved.to_pairs()), vec![(1, 10), (2, 20)]);
    assert_eq!(sorted(snapshot), vec![(1, 10), (2, 20)]);
    assert_eq!(cache.get_owner(&addr(2)), Some(addr(20)));
    assert_eq!(cache.get_owner(&addr(3)), None);
    assert_eq!(cache.get_owner(&addr(5)), None);
}

#[test]
fn resolve_owners_with_duplicates_returns_each_wallet_once() {
    let mut cache = OwnersCache::empty(2);
    let mut fetched = AddressMap::new();
    fetched.insert(addr(7), addr(70));
    let (resolved, _) = cache.resolve_owners(&vec![addr(7), addr(7), addr(7)], &fetched);
    assert_eq!(resolved.to_pairs(), vec![(addr(7), addr(70))]);
    assert_eq!(resolved.entries().len(), 1);
}

#[test]
fn resolve_owners_twice_hits_the_cache() {
    let mut cache = OwnersCache::empty(2);
    let wallets = vec![addr(1), addr(2)];
    let mut fetched = AddressMap::new();
    fetched.insert(addr(1), addr(10));
    fetched.insert(addr(2), addr(20));
    assert_eq!(cache.unresolved(&wallets), vec![addr(1), addr(2)]);
    let (first, _) = cache.resolve_owners(&wallets, &fetched);
    // nothing is left to fetch
    assert!(cache.unresolved(&wallets).is_empty());
    let (second, _) = cache.resolve_owners(&wallets, &AddressMap::new());
    assert_eq!(sorted(first.to_pairs()), sorted(second.to_pairs()));
    assert_eq!(sorted(second.to_pairs()), vec![(1, 10), (2, 20)]);
}

#[test]
fn check_recipient_wallet_records_the_pair() {
    let mut cache = OwnersCache::empty(2);
    let (wallet, snapshot) = cache.check_recipient_wallet(addr(4), addr(40), false);
    assert_eq!(wallet, RecipientWallet::NotExists);
    assert_eq!(snapshot, vec![(addr(4), addr(40))]);
    assert_eq!(cache.get_owner(&addr(4)), Some(addr(40)));
    let (wallet, _) = cache.check_recipient_wallet(addr(5), addr(40), true);
    assert_eq!(wallet, RecipientWallet::Exists(addr(5)));
    assert_eq!(cache.get_owner(&addr(5)), Some(addr(40)));
}

#[test]
fn root_contract_is_fetched_once() {
    let mut states = TokenContractStates::new();
    let root = addr(100);
    let mut fetches = 0;
    let mut detections = 0;
    for _ in 0..2 {
        if states.token_contract_state(&root).is_none() {
            fetches += 1;
            detections += 1;
            let fetched = RootTokenContract { snapshot: vec![1, 2, 3], version: 4 };
            assert_eq!(states.cache_token_contract(root, Some(fetched)), Ok(()));
        }
        let state = states.token_contract_state(&root).unwrap();
        assert_eq!(state, &RootTokenContract { snapshot: vec![1, 2, 3], version: 4 });
    }
    assert_eq!(fetches, 1);
    assert_eq!(detections, 1);
}

#[test]
fn cached_root_contract_is_not_replaced() {
    let mut states = TokenContractStates::new();
    let root = addr(100);
    assert_eq!(states.cache_token_contract(root, Some(RootTokenContract { snapshot: vec![1], version: 1 })), Ok(()));
    assert_eq!(states.cache_token_contract(root, Some(RootTokenContract { snapshot: vec![2], version: 2 })), Ok(()));
    assert_eq!(states.token_contract_state(&root), Some(&RootTokenContract { snapshot: vec![1], version: 1 }));
    assert!(states.token_contract_state(&addr(101)).is_none());
}

#[test]
fn missing_root_contract_is_invalid() {
    let mut states = TokenContractStates::new();
    assert_eq!(states.cache_token_contract(addr(100), None), Err(OwnersCacheError::InvalidRootTokenContract));
    assert!(states.token_contract_state(&addr(100)).is_none());
    assert_eq!(OwnersCacheError::InvalidRootTokenContract.message(), "Invalid root token contract");
    assert_eq!(OwnersCacheError::InvalidRecord.message(), "Invalid owners cache record");
    assert_eq!(OwnersCacheError::InvalidAddress.message(), "Invalid address in owners cache record");
}

#[test]
fn known_owners_reads_the_cache_only() {
    let mut cache = OwnersCache::empty(2);
    cache.add_entry(addr(1), addr(10));
    cache.add_entry(addr(2), addr(20));
    let known = cache.known_owners(&vec![addr(2), addr(3), addr(2)]);
    assert_eq!(known.to_pairs(), vec![(addr(2), addr(20))]);
    assert!(cache.known_owners(&vec![]).to_pairs().is_empty());
    assert_eq!(sorted(cache.save()), vec![(1, 10), (2, 20)]);
}

#[test]
fn resolving_one_by_one_gives_the_batch_result() {
    let wallets = vec![addr(1), addr(2), addr(3), addr(2)];
    let mut cache = OwnersCache::empty(2);
    cache.add_entry(addr(1), addr(10));
    for wallet in cache.unresolved(&wallets) {
        if wallet == addr(2) {
            let mut one = AddressMap::new();
            one.insert(wallet, addr(20));
            let (resolved, snapshot) = cache.resolve_owners(&vec![wallet], &one);
            assert_eq!(resolved.to_pairs(), vec![(addr(2), addr(20))]);
            assert_eq!(sorted(snapshot), vec![(1, 10), (2, 20)]);
        }
    }
    assert_eq!(sorted(cache.known_owners(&wallets).to_pairs()), vec![(1, 10), (2, 20)]);
}

#[test]
fn address_map_insert_get_and_extend() {
    let mut map: AddressMap<Address> = AddressMap::new();
    assert!(!map.contains_key(&addr(1)));
    assert_eq!(map.get(&addr(1)), None);
    map.insert(addr(1), addr(10));
    map.insert(addr(2), addr(20));
    map.insert(addr(1), addr(11));
    assert!(map.contains_key(&addr(1)));
    assert_eq!(map.get(&addr(1)), Some(&addr(11)));
    assert_eq!(map.entries().len(), 2);
    map.extend(&vec![(addr(3), addr(30)), (addr(2), addr(22))]);
    assert_eq!(sorted(map.to_pairs()), vec![(1, 11), (2, 22), (3, 30)]);
    let other = AddressMap::from_pairs(&vec![(addr(1), addr(1)), (addr(1), addr(2))]);
    assert_eq!(other.to_pairs(), vec![(addr(1), addr(2))]);
}
