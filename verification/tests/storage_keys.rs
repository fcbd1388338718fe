use near_sdk::borsh::BorshSerialize;
use nft_minter::storage_key::StorageKey;

#[test]
fn plain_keys_are_one_tag_byte() {
    assert_eq!(StorageKey::NonFungibleToken.into_storage_key(), vec![0u8]);
    assert_eq!(StorageKey::Metadata.into_storage_key(), vec![1u8]);
    assert_eq!(StorageKey::TokenMetadata.into_storage_key(), vec![2u8]);
    assert_eq!(StorageKey::Enumeration.into_storage_key(), vec![3u8]);
    assert_eq!(StorageKey::Approval.into_storage_key(), vec![4u8]);
}

#[test]
fn owner_key_holds_tag_length_and_hash() {
    let key = StorageKey::TokensPerOwner { account_hash: vec![7u8, 8, 9] }.into_storage_key();
    assert_eq!(key, vec![5u8, 3, 0, 0, 0, 7, 8, 9]);
}

#[test]
fn owner_key_of_empty_hash() {
    let key = StorageKey::TokensPerOwner { account_hash: vec![] }.into_storage_key();
    assert_eq!(key, vec![5u8, 0, 0, 0, 0]);
}

#[test]
fn owner_key_length_is_little_endian() {
    let key = StorageKey::TokensPerOwner { account_hash: vec![1u8; 300] }.into_storage_key();
    assert_eq!(key.len(), 305);
    assert_eq!(&key[..5], &[5u8, 44, 1, 0, 0]);
    assert!(key[5..].iter().all(|b| *b == 1));

    let key = StorageKey::TokensPerOwner { account_hash: vec![2u8; 70_000] }.into_storage_key();
    assert_eq!(&key[..5], &[5u8, 112, 17, 1, 0]);
    assert_eq!(key.len(), 70_005);
}

#[test]
fn owner_key_agrees_with_borsh() {
    let hash: Vec<u8> = (0u8..32).collect();
    let key = StorageKey::TokensPerOwner { account_hash: hash.clone() }.into_storage_key();
    let borsh = (5u8, hash).try_to_vec().unwrap();
    assert_eq!(key, borsh);
}

#[test]
fn keys_of_different_places_differ() {
    let keys = vec![
        StorageKey::NonFungibleToken.into_storage_key(),
        StorageKey::Metadata.into_storage_key(),
        StorageKey::TokenMetadata.into_storage_key(),
        StorageKey::Enumeration.into_storage_key(),
        StorageKey::Approval.into_storage_key(),
        StorageKey::TokensPerOwner { account_hash: vec![0u8; 32] }.into_storage_key(),
        StorageKey::TokensPerOwner { account_hash: vec![1u8; 32] }.into_storage_key(),
    ];
    for i in 0..keys.len() {
        for j in 0..keys.len() {
            assert_eq!(keys[i] == keys[j], i == j);
        }
    }
}
