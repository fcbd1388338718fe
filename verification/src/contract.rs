//! The contract: a token ledger and the metadata of the collection.

use vstd::prelude::*;
use crate::account::ValidAccountId;
use crate::ledger::minted;
use crate::ledger::new_ledger;
use crate::ledger::Ledger;
use crate::ledger::LedgerView;
use crate::metadata::default_metadata;
use crate::metadata::default_metadata_view;
use crate::metadata::ContractMetadata;
use crate::metadata::ContractMetadataView;
use crate::metadata::TokenMetadata;
use crate::storage_key::StorageKey;

verus! {

/// The place of the collection's metadata: a storage key, and the metadata
/// kept under it, if any.
#[derive(Debug)]
pub struct MetadataSlot {
    pub key: Vec<u8>,
    pub value: Option<ContractMetadata>,
}

/// The mathematical value of a [`MetadataSlot`].
pub struct MetadataSlotView {
    pub key: Seq<u8>,
    pub value: Option<ContractMetadataView>,
}

impl View for MetadataSlot {
    type V = MetadataSlotView;

    open spec fn view(&self) -> MetadataSlotView {
        MetadataSlotView {
            key: self.key@,
            value: match self.value {
                Some(m) => Some(m@),
                None => None,
            },
        }
    }
}

/// A minter of non-fungible tokens.
#[derive(Debug)]
pub struct Contract {
    /// The ledger that keeps the tokens, their owners and their metadata.
    pub tokenizer: Ledger,
    /// The metadata of the collection.
    pub metadata: MetadataSlot,
}

/// The mathematical value of a [`Contract`].
pub struct ContractView {
    pub tokenizer: LedgerView,
    pub metadata: MetadataSlotView,
}

impl View for Contract {
    type V = ContractView;

    open spec fn view(&self) -> ContractView {
        ContractView { tokenizer: self.tokenizer@, metadata: self.metadata@ }
    }
}

/// The contract as it is set up for an owner with some metadata: a ledger of
/// that owner without tokens and with all three extensions on, and the
/// metadata in its slot, each under its own storage key.
pub open spec fn new_contract(owner: Seq<char>, metadata: ContractMetadataView) -> ContractView {
    ContractView {
        tokenizer: new_ledger(
            StorageKey::NonFungibleToken.bytes(),
            owner,
            Some(StorageKey::TokenMetadata.bytes()),
            Some(StorageKey::Enumeration.bytes()),
            Some(StorageKey::Approval.bytes()),
        ),
        metadata: MetadataSlotView { key: StorageKey::Metadata.bytes(), value: Some(metadata) },
    }
}

impl Contract {
    /// Sets up the contract for `owner_id` with the default metadata.
    ///
    /// A contract is set up once: the caller asks the host beforehand
    /// whether a state is saved.
    pub fn new_default_meta(owner_id: ValidAccountId) -> (contract: Contract)
        ensures
            contract@ == new_contract(owner_id@, default_metadata_view()),
    {
        Contract::new(owner_id, default_metadata())
    }

    /// Sets up the contract for `owner_id` with the given metadata, which
    /// has to be valid.
    ///
    /// A contract is set up once: the caller asks the host beforehand
    /// whether a state is saved.
    pub fn new(owner_id: ValidAccountId, metadata: ContractMetadata) -> (contract: Contract)
        requires
            metadata@.valid(),
        ensures
            contract@ == new_contract(owner_id@, metadata@),
    {
        Contract {
            tokenizer: Ledger::new(
                StorageKey::NonFungibleToken.into_storage_key(),
                owner_id.into_string(),
                Some(StorageKey::TokenMetadata.into_storage_key()),
                Some(StorageKey::Enumeration.into_storage_key()),
                Some(StorageKey::Approval.into_storage_key()),
            ),
            metadata: MetadataSlot {
                key: StorageKey::Metadata.into_storage_key(),
                value: Some(metadata),
            },
        }
    }

    /// Mints the token `token_id` for `receiver_id`, and answers "Done".
    ///
    /// Nothing is checked: a token that exists is overwritten. The token's
    /// metadata has to be given. `account_hash` is the SHA-256 digest of the
    /// receiver's name, which the host computes; a receiver without a token
    /// set gets one under the key made of it.
    pub fn nft_mint(
        &mut self,
        token_id: String,
        receiver_id: ValidAccountId,
        token_metadata: Option<TokenMetadata>,
        account_hash: Vec<u8>,
    ) -> (reply: String)
        requires
            token_metadata.is_some(),
            account_hash@.len() <= u32::MAX,
        ensures
            reply@ == "Done"@,
            final(self)@ == (ContractView {
                tokenizer: minted(
                    old(self)@.tokenizer,
                    token_id@,
                    receiver_id@,
                    token_metadata->0@,
                    account_hash@,
                ),
                ..old(self)@
            }),
    {
        let owner_id = receiver_id.into_string();
        self.tokenizer.mint(token_id, owner_id, token_metadata.unwrap(), account_hash);
        "Done".to_owned()
    }

    /// The metadata of the collection.
    pub fn nft_metadata(&self) -> (metadata: ContractMetadata)
        requires
            self@.metadata.value.is_some(),
        ensures
            self@.metadata.value == Some(metadata@),
    {
        self.metadata.value.as_ref().unwrap().duplicate()
    }
}

} // verus!
