//! Metadata of the contract and of its tokens, as plain values.
//!
//! These are the records that the contract hands to the token ledger. The
//! fields follow the NEAR metadata standard for non-fungible tokens.

use vstd::prelude::*;
use crate::host;

verus! {

/// Icon of the contract, as an SVG image in a data URL. Wallets show it next
/// to the tokens of this contract.
pub const DATA_IMAGE_SVG_NEAR_ICON: &'static str =
    "data:image/svg+xml,<svg xmlns='http://www.w3.org/2000/svg'><circle r='50' cx='50' cy='50' fill='orange'/><circle r='41' cx='47' cy='50' fill='orange'/><circle r='33' cx='48' cy='53' fill='orange'/><circle r='25' cx='49' cy='51' fill='yellowgreen'/><circle r='17' cx='52' cy='50' fill='lightseagreen'/><circle r='9' cx='55' cy='48' fill='orange'/></svg>";

/// The characters of an optional text.
pub open spec fn text_view(text: Option<String>) -> Option<Seq<char>> {
    match text {
        Some(t) => Some(t@),
        None => None,
    }
}

/// The bytes of an optional byte string.
pub open spec fn bytes_view(bytes: Option<Vec<u8>>) -> Option<Seq<u8>> {
    match bytes {
        Some(h) => Some(h@),
        None => None,
    }
}

/// Metadata of the contract itself.
#[derive(Debug, Clone, PartialEq, Eq)]
pub struct ContractMetadata {
    /// Version of the metadata standard, such as "nft-1.0.0".
    pub spec: String,
    /// Name of the collection.
    pub name: String,
    /// Short symbol of the collection.
    pub symbol: String,
    /// Data URL of an icon.
    pub icon: Option<String>,
    /// Gateway through which the assets named by `reference` or `media` URLs are reached.
    pub base_uri: Option<String>,
    /// URL of a JSON file with more information.
    pub reference: Option<String>,
    /// SHA-256 hash of the JSON file behind `reference`.
    pub reference_hash: Option<Vec<u8>>,
}

/// The mathematical value of a [`ContractMetadata`].
pub struct ContractMetadataView {
    pub spec: Seq<char>,
    pub name: Seq<char>,
    pub symbol: Seq<char>,
    pub icon: Option<Seq<char>>,
    pub base_uri: Option<Seq<char>>,
    pub reference: Option<Seq<char>>,
    pub reference_hash: Option<Seq<u8>>,
}

impl ContractMetadataView {
    /// The standard admits metadata that names version "nft-1.0.0" and that
    /// carries a reference exactly when it carries the reference's hash, of
    /// 32 bytes.
    pub open spec fn valid(self) -> bool {
        &&& self.spec == "nft-1.0.0"@
        &&& self.reference.is_some() == self.reference_hash.is_some()
        &&& (self.reference_hash matches Some(h) ==> h.len() == 32)
    }
}

impl View for ContractMetadata {
    type V = ContractMetadataView;

    open spec fn view(&self) -> ContractMetadataView {
        ContractMetadataView {
            spec: self.spec@,
            name: self.name@,
            symbol: self.symbol@,
            icon: text_view(self.icon),
            base_uri: text_view(self.base_uri),
            reference: text_view(self.reference),
            reference_hash: bytes_view(self.reference_hash),
        }
    }
}

/// A copy of an optional text.
pub fn copy_text(text: &Option<String>) -> (copy: Option<String>)
    ensures
        text_view(copy) == text_view(*text),
{
    match text {
        Some(t) => Some(t.clone()),
        None => None,
    }
}

/// A copy of a byte string.
pub fn copy_bytes(bytes: &Vec<u8>) -> (copy: Vec<u8>)
    ensures
        copy@ == bytes@,
{
    let mut copy: Vec<u8> = Vec::new();
    let mut at: usize = 0;
    while at < bytes.len()
        invariant
            at <= bytes@.len(),
            copy@ == bytes@.take(at as int),
        decreases bytes@.len() - at,
    {
        copy.push(bytes[at]);
        at = at + 1;
        assert(bytes@.take(at as int) == bytes@.take(at - 1).push(bytes@[at - 1]));
    }
    assert(bytes@.take(at as int) == bytes@);
    copy
}

/// A copy of an optional byte string.
pub fn copy_hash(hash: &Option<Vec<u8>>) -> (copy: Option<Vec<u8>>)
    ensures
        bytes_view(copy) == bytes_view(*hash),
{
    match hash {
        Some(h) => Some(copy_bytes(h)),
        None => None,
    }
}

impl ContractMetadata {
    /// A copy of the metadata.
    pub fn duplicate(&self) -> (copy: ContractMetadata)
        ensures
            copy@ == self@,
    {
        ContractMetadata {
            spec: self.spec.clone(),
            name: self.name.clone(),
            symbol: self.symbol.clone(),
            icon: copy_text(&self.icon),
            base_uri: copy_text(&self.base_uri),
            reference: copy_text(&self.reference),
            reference_hash: copy_hash(&self.reference_hash),
        }
    }

    /// Tells whether the standard admits this metadata.
    pub fn is_valid(&self) -> (ok: bool)
        ensures
            ok == self@.valid(),
    {
        let version = host::metadata_spec();
        let hash_fits = match &self.reference_hash {
            Some(h) => h.len() == 32,
            None => true,
        };
        self.spec == version && self.reference.is_some() == self.reference_hash.is_some()
            && hash_fits
    }
}

/// The metadata that the contract takes when it is given none.
pub open spec fn default_metadata_view() -> ContractMetadataView {
    ContractMetadataView {
        spec: "nft-1.0.0"@,
        name: "Ukraine Zoo"@,
        symbol: "MHNT"@,
        icon: Some(DATA_IMAGE_SVG_NEAR_ICON@),
        base_uri: Some("https://t.me/msauditech"@),
        reference: None,
        reference_hash: None,
    }
}

/// Builds the metadata that the contract takes when it is given none.
pub fn default_metadata() -> (metadata: ContractMetadata)
    ensures
        metadata@ == default_metadata_view(),
        metadata@.valid(),
{
    ContractMetadata {
        spec: host::metadata_spec(),
        name: "Ukraine Zoo".to_owned(),
        symbol: "MHNT".to_owned(),
        icon: Some(DATA_IMAGE_SVG_NEAR_ICON.to_owned()),
        base_uri: Some("https://t.me/msauditech".to_owned()),
        reference: None,
        reference_hash: None,
    }
}

/// Metadata of a single token.
#[derive(Debug, Clone, PartialEq, Eq)]
pub struct TokenMetadata {
    /// Title of the token.
    pub title: Option<String>,
    /// Free-form description.
    pub description: Option<String>,
    /// URL of the media that the token stands for.
    pub media: Option<String>,
    /// SHA-256 hash of the content behind `media`.
    pub media_hash: Option<Vec<u8>>,
    /// Number of copies of this metadata that existed when the token was minted.
    pub copies: Option<u64>,
    /// When the token was issued.
    pub issued_at: Option<String>,
    /// When the token expires.
    pub expires_at: Option<String>,
    /// When the token starts being valid.
    pub starts_at: Option<String>,
    /// When the token was last updated.
    pub updated_at: Option<String>,
    /// Anything else that is kept on chain.
    pub extra: Option<String>,
    /// URL of a JSON file with more information.
    pub reference: Option<String>,
    /// SHA-256 hash of the JSON file behind `reference`.
    pub reference_hash: Option<Vec<u8>>,
}

/// The mathematical value of a [`TokenMetadata`].
pub struct TokenMetadataView {
    pub title: Option<Seq<char>>,
    pub description: Option<Seq<char>>,
    pub media: Option<Seq<char>>,
    pub media_hash: Option<Seq<u8>>,
    pub copies: Option<u64>,
    pub issued_at: Option<Seq<char>>,
    pub expires_at: Option<Seq<char>>,
    pub starts_at: Option<Seq<char>>,
    pub updated_at: Option<Seq<char>>,
    pub extra: Option<Seq<char>>,
    pub reference: Option<Seq<char>>,
    pub reference_hash: Option<Seq<u8>>,
}

impl View for TokenMetadata {
    type V = TokenMetadataView;

    open spec fn view(&self) -> TokenMetadataView {
        TokenMetadataView {
            title: text_view(self.title),
            description: text_view(self.description),
            media: text_view(self.media),
            media_hash: bytes_view(self.media_hash),
            copies: self.copies,
            issued_at: text_view(self.issued_at),
            expires_at: text_view(self.expires_at),
            starts_at: text_view(self.starts_at),
            updated_at: text_view(self.updated_at),
            extra: text_view(self.extra),
            reference: text_view(self.reference),
            reference_hash: bytes_view(self.reference_hash),
        }
    }
}

} // verus!
