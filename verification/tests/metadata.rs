use near_contract_standards::non_fungible_token::metadata::NFT_METADATA_SPEC;
use nft_minter::metadata::default_metadata;
use nft_minter::metadata::ContractMetadata;
use nft_minter::metadata::DATA_IMAGE_SVG_NEAR_ICON;

fn sample() -> ContractMetadata {
    ContractMetadata {
        spec: "nft-1.0.0".to_string(),
        name: "Mosaics".to_string(),
        symbol: "MOSAIC".to_string(),
        icon: None,
        base_uri: None,
        reference: None,
        reference_hash: None,
    }
}

#[test]
fn default_metadata_values() {
    let m = default_metadata();
    assert_eq!(m.spec, "nft-1.0.0");
    assert_eq!(m.spec, NFT_METADATA_SPEC);
    assert_eq!(m.name, "Ukraine Zoo");
    assert_eq!(m.symbol, "MHNT");
    assert_eq!(m.icon.as_deref(), Some(DATA_IMAGE_SVG_NEAR_ICON));
    assert_eq!(m.base_uri.as_deref(), Some("https://t.me/msauditech"));
    assert_eq!(m.reference, None);
    assert_eq!(m.reference_hash, None);
    assert!(m.is_valid());
}

#[test]
fn icon_is_an_svg_data_url() {
    assert!(DATA_IMAGE_SVG_NEAR_ICON.starts_with("data:image/svg+xml,<svg "));
    assert!(DATA_IMAGE_SVG_NEAR_ICON.ends_with("</svg>"));
    assert_eq!(DATA_IMAGE_SVG_NEAR_ICON.len(), 352);
}

#[test]
fn metadata_without_reference_is_valid() {
    assert!(sample().is_valid());
}

#[test]
fn metadata_of_another_version_is_invalid() {
    let mut m = sample();
    m.spec = "nft-2.0.0".to_string();
    assert!(!m.is_valid());
    m.spec = String::new();
    assert!(!m.is_valid());
}

#[test]
fn reference_and_hash_go_together() {
    let mut m = sample();
    m.reference = Some("https://example.com/info.json".to_string());
    assert!(!m.is_valid());
    m.reference_hash = Some(vec![0u8; 32]);
    assert!(m.is_valid());
    m.reference = None;
    assert!(!m.is_valid());
}

#[test]
fn reference_hash_has_32_bytes() {
    let mut m = sample();
    m.reference = Some("https://example.com/info.json".to_string());
    m.reference_hash = Some(vec![0u8; 31]);
    assert!(!m.is_valid());
    m.reference_hash = Some(vec![0u8; 33]);
    assert!(!m.is_valid());
    m.reference_hash = Some(vec![]);
    assert!(!m.is_valid());
    m.reference_hash = Some(vec![9u8; 32]);
    assert!(m.is_valid());
}

#[test]
fn a_copy_of_metadata_is_equal_to_it() {
    let mut m = sample();
    m.icon = Some("icon".to_string());
    m.reference = Some("ref".to_string());
    m.reference_hash = Some((0u8..32).collect());
    assert_eq!(m.duplicate(), m);
    assert_eq!(default_metadata().duplicate(), default_metadata());
}
