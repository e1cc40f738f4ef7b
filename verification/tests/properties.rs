//! Tests of the registry's stated properties on concrete values: the
//! invariants after every operation, the capacity and per-field bounds,
//! the round trip through `get_all_relayers`, full removal, the chain
//! filter, and what an update leaves untouched.

use relayer_registry::Config;
use relayer_registry::Error;
use relayer_registry::Registry;

fn small_config() -> Config {
    Config { max_supported_chains: 2, max_metadata_length: 3, max_relayers: 2 }
}

#[test]
fn invariants_hold_after_each_operation() {
    let mut registry = Registry::new(Config {
        max_supported_chains: 10,
        max_metadata_length: 256,
        max_relayers: 100,
    });
    assert!(registry.well_formed());

    assert!(registry.register_relayer(1, vec![1, 2], b"a".to_vec(), 1).is_ok());
    assert!(registry.well_formed());

    assert!(registry.register_relayer(2, vec![2], b"b".to_vec(), 2).is_ok());
    assert!(registry.well_formed());

    assert!(registry.register_relayer(1, vec![3], b"c".to_vec(), 3).is_err());
    assert!(registry.well_formed());

    assert!(registry.update_relayer(1, vec![4, 5], b"d".to_vec()).is_ok());
    assert!(registry.well_formed());

    assert!(registry.update_relayer(9, vec![4], b"e".to_vec()).is_err());
    assert!(registry.well_formed());

    assert!(registry.deregister_relayer(2).is_ok());
    assert!(registry.well_formed());

    assert!(registry.deregister_relayer(2).is_err());
    assert!(registry.well_formed());
}

#[test]
fn capacity_is_enforced() {
    let mut registry = Registry::new(small_config());

    assert!(registry.register_relayer(1, vec![1], b"a".to_vec(), 1).is_ok());
    assert!(registry.register_relayer(2, vec![1], b"b".to_vec(), 2).is_ok());

    let result = registry.register_relayer(3, vec![1], b"c".to_vec(), 3);
    assert_eq!(result, Err(Error::CapacityExceeded));

    assert_eq!(registry.relayer_count(), 2);
    assert!(!registry.is_relayer(3));
}

#[test]
fn too_many_supported_chains_is_rejected() {
    let mut registry = Registry::new(small_config());

    let result = registry.register_relayer(1, vec![1, 2, 3], b"a".to_vec(), 1);
    assert_eq!(result, Err(Error::TooManySupportedChains));
    assert_eq!(registry.relayer_count(), 0);

    assert!(registry.register_relayer(1, vec![1, 2], b"a".to_vec(), 1).is_ok());
    let result = registry.update_relayer(1, vec![1, 2, 3], b"a".to_vec());
    assert_eq!(result, Err(Error::TooManySupportedChains));
    assert_eq!(registry.relayers(1).unwrap().supported_chains, vec![1, 2]);
}

#[test]
fn metadata_too_long_is_rejected() {
    let mut registry = Registry::new(small_config());

    let result = registry.register_relayer(1, vec![1], b"abcd".to_vec(), 1);
    assert_eq!(result, Err(Error::MetadataTooLong));
    assert_eq!(registry.relayer_count(), 0);

    assert!(registry.register_relayer(1, vec![1], b"abc".to_vec(), 1).is_ok());
    let result = registry.update_relayer(1, vec![1], b"abcd".to_vec());
    assert_eq!(result, Err(Error::MetadataTooLong));
    assert_eq!(registry.relayers(1).unwrap().metadata, b"abc".to_vec());
}

#[test]
fn register_round_trips_through_list_all() {
    let mut registry = Registry::new(Config {
        max_supported_chains: 10,
        max_metadata_length: 256,
        max_relayers: 100,
    });

    assert!(registry.register_relayer(5, vec![1, 2, 3], b"m".to_vec(), 1).is_ok());

    let all = registry.get_all_relayers();
    assert_eq!(all.len(), 1);
    assert_eq!(all[0].account, 5);
    assert_eq!(all[0].supported_chains, vec![1, 2, 3]);
    assert_eq!(all[0].metadata, b"m".to_vec());
}

#[test]
fn deregister_removes_fully() {
    let mut registry = Registry::new(Config {
        max_supported_chains: 10,
        max_metadata_length: 256,
        max_relayers: 100,
    });

    assert!(registry.register_relayer(1, vec![1], b"a".to_vec(), 1).is_ok());
    let count_before = registry.relayer_count();

    assert!(registry.register_relayer(2, vec![2], b"b".to_vec(), 2).is_ok());
    assert!(registry.deregister_relayer(2).is_ok());

    assert!(!registry.is_relayer(2));
    let all = registry.get_all_relayers();
    assert!(all.iter().all(|r| r.account != 2));
    assert_eq!(registry.relayer_count(), count_before);
}

#[test]
fn deregister_preserves_relative_order() {
    let mut registry = Registry::new(Config {
        max_supported_chains: 10,
        max_metadata_length: 256,
        max_relayers: 100,
    });

    assert!(registry.register_relayer(1, vec![1], b"a".to_vec(), 1).is_ok());
    assert!(registry.register_relayer(2, vec![1], b"b".to_vec(), 2).is_ok());
    assert!(registry.register_relayer(3, vec![1], b"c".to_vec(), 3).is_ok());

    assert!(registry.deregister_relayer(2).is_ok());

    assert_eq!(registry.relayer_list(), vec![1, 3]);
}

#[test]
fn update_preserves_owner_and_timestamp() {
    let mut registry = Registry::new(Config {
        max_supported_chains: 10,
        max_metadata_length: 256,
        max_relayers: 100,
    });

    assert!(registry.register_relayer(1, vec![1], b"old".to_vec(), 5).is_ok());
    assert!(registry.update_relayer(1, vec![2, 3], b"new".to_vec()).is_ok());

    let info = registry.relayers(1).unwrap();
    assert_eq!(info.account, 1);
    assert_eq!(info.registration_block, 5);
    assert_eq!(info.supported_chains, vec![2, 3]);
    assert_eq!(info.metadata, b"new".to_vec());
    assert_eq!(registry.relayer_count(), 1);
}

#[test]
fn update_with_empty_chains_is_rejected() {
    let mut registry = Registry::new(Config {
        max_supported_chains: 10,
        max_metadata_length: 256,
        max_relayers: 100,
    });

    assert!(registry.register_relayer(1, vec![1], b"old".to_vec(), 1).is_ok());

    let result = registry.update_relayer(1, vec![], b"new".to_vec());
    assert_eq!(result, Err(Error::EmptyChainList));

    let info = registry.relayers(1).unwrap();
    assert_eq!(info.supported_chains, vec![1]);
    assert_eq!(info.metadata, b"old".to_vec());
}

#[test]
fn chain_filter_keeps_registration_order() {
    let mut registry = Registry::new(Config {
        max_supported_chains: 10,
        max_metadata_length: 256,
        max_relayers: 100,
    });

    assert!(registry.register_relayer(3, vec![7], b"a".to_vec(), 1).is_ok());
    assert!(registry.register_relayer(1, vec![7, 8], b"b".to_vec(), 2).is_ok());
    assert!(registry.register_relayer(2, vec![8], b"c".to_vec(), 3).is_ok());

    let for_7: Vec<_> = registry.get_relayers_for_chain(7).iter().map(|r| r.account).collect();
    assert_eq!(for_7, vec![3, 1]);

    let for_8: Vec<_> = registry.get_relayers_for_chain(8).iter().map(|r| r.account).collect();
    assert_eq!(for_8, vec![1, 2]);
}
