//! The boundary to `near-sdk` and `near-contract-standards`.
//!
//! Nothing in this module is proved. Each item states what the source of the
//! two libraries shows of one of their items, and the rest of the crate is
//! proved from these statements. Neither item asks the host that runs the
//! contract: what the host has to say (whether a state is saved, the digest
//! of an account's name) is handed to the library by its caller.

use vstd::prelude::*;
use crate::account::valid_account_name;

verus! {

/// `NFT_METADATA_SPEC` of `near-contract-standards`: the version of the
/// metadata standard that the ledger accepts, "nft-1.0.0".
#[verifier::external_body]
pub(crate) fn metadata_spec() -> (version: String)
    ensures
        version@ == "nft-1.0.0"@,
{
    near_contract_standards::non_fungible_token::metadata::NFT_METADATA_SPEC.to_string()
}

/// `near_sdk::env::is_valid_account_id` on the bytes of the text: whether
/// they are 2 to 64 lower-case letters, digits and separators (`-`, `_`,
/// `.`), with no separator at either end and no two in a row.
#[verifier::external_body]
pub(crate) fn is_valid_account_id(name: &String) -> (ok: bool)
    ensures
        ok == valid_account_name(name@),
{
    near_sdk::env::is_valid_account_id(name.as_bytes())
}

} // verus!
