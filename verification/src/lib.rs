//! A minter of non-fungible tokens for the NEAR protocol.
//!
//! The crate holds the rules of the contract on plain values: the ledger of
//! tokens, the metadata of the collection, and the storage keys under which
//! the host keeps each of them. It asks nothing of the host that runs the
//! contract: the caller hands it what the host has to say.

pub mod account;
pub mod contract;
pub mod host;
pub mod ledger;
pub mod metadata;
pub mod records;
pub mod storage_key;

pub use account::ValidAccountId;
pub use contract::Contract;
pub use contract::MetadataSlot;
pub use ledger::Ledger;
pub use ledger::TokenSet;
pub use metadata::ContractMetadata;
pub use metadata::TokenMetadata;
pub use records::Records;
pub use storage_key::StorageKey;
