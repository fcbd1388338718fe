//! Storage keys: the byte prefixes under which the contract keeps its records.
//!
//! Every collection of the contract lives under a prefix of its own in the
//! host's key-value storage. A key is written as a one-byte tag, followed, for
//! the per-owner token sets, by the length of the account hash as four
//! little-endian bytes and the hash itself.

use vstd::prelude::*;

verus! {

/// The places in storage that the contract writes to.
#[derive(Debug, PartialEq, Eq)]
pub enum StorageKey {
    NonFungibleToken,
    Metadata,
    TokenMetadata,
    Enumeration,
    Approval,
    TokensPerOwner { account_hash: Vec<u8> },
}

/// The four little-endian bytes of a length below 2^32.
pub open spec fn length_prefix(n: nat) -> Seq<u8> {
    seq![
        (n % 256) as u8,
        ((n / 256) % 256) as u8,
        ((n / 65536) % 256) as u8,
        ((n / 16777216) % 256) as u8,
    ]
}

/// The bytes of the key for the token set of the account with the given hash.
pub open spec fn owner_set_key(account_hash: Seq<u8>) -> Seq<u8> {
    seq![5u8] + length_prefix(account_hash.len()) + account_hash
}

impl StorageKey {
    /// The tag byte: the position of the variant in the declaration.
    pub open spec fn tag(self) -> u8 {
        match self {
            StorageKey::NonFungibleToken => 0,
            StorageKey::Metadata => 1,
            StorageKey::TokenMetadata => 2,
            StorageKey::Enumeration => 3,
            StorageKey::Approval => 4,
            StorageKey::TokensPerOwner { .. } => 5,
        }
    }

    /// The key as bytes.
    pub open spec fn bytes(self) -> Seq<u8> {
        match self {
            StorageKey::TokensPerOwner { account_hash } => owner_set_key(account_hash@),
            _ => seq![self.tag()],
        }
    }

    /// Whether the key can be written down: the length of an account hash
    /// has to fit in four bytes.
    pub open spec fn encodable(self) -> bool {
        match self {
            StorageKey::TokensPerOwner { account_hash } => account_hash@.len() <= u32::MAX,
            _ => true,
        }
    }

    /// Writes the key down as bytes.
    pub fn into_storage_key(self) -> (key: Vec<u8>)
        requires
            self.encodable(),
        ensures
            key@ == self.bytes(),
    {
        match self {
            StorageKey::NonFungibleToken => vec![0u8],
            StorageKey::Metadata => vec![1u8],
            StorageKey::TokenMetadata => vec![2u8],
            StorageKey::Enumeration => vec![3u8],
            StorageKey::Approval => vec![4u8],
            StorageKey::TokensPerOwner { account_hash } => {
                let n: usize = account_hash.len();
                let mut key: Vec<u8> = Vec::new();
                key.push(5u8);
                key.push((n % 256) as u8);
                key.push(((n / 256) % 256) as u8);
                key.push(((n / 65536) % 256) as u8);
                key.push(((n / 16777216) % 256) as u8);
                let mut i: usize = 0;
                while i < n
                    invariant
                        n == account_hash@.len(),
                        i <= n,
                        key@ == (seq![5u8] + length_prefix(n as nat)) + account_hash@.take(i as int),
                    decreases n - i,
                {
                    key.push(account_hash[i]);
                    i = i + 1;
                    assert(account_hash@.take(i as int) == account_hash@.take(i - 1).push(
                        account_hash@[i - 1],
                    ));
                }
                assert(account_hash@.take(n as int) == account_hash@);
                key
            },
        }
    }
}

/// The first byte of a key is its tag.
pub proof fn lemma_key_starts_with_tag(k: StorageKey)
    ensures
        k.bytes().len() >= 1,
        k.bytes()[0] == k.tag(),
{
    match k {
        StorageKey::TokensPerOwner { account_hash } => {
            let head = seq![5u8] + length_prefix(account_hash@.len());
            assert(head[0] == 5u8);
            assert((head + account_hash@)[0] == head[0]);
        },
        _ => {},
    }
}

/// Two keys that give the same bytes are the same key.
pub proof fn lemma_keys_distinct(a: StorageKey, b: StorageKey)
    requires
        a.bytes() == b.bytes(),
    ensures
        a.tag() == b.tag(),
        a matches StorageKey::TokensPerOwner { account_hash: x } ==> (b matches StorageKey::TokensPerOwner {
            account_hash: y,
        } && x@ == y@),
{
    lemma_key_starts_with_tag(a);
    lemma_key_starts_with_tag(b);
    if let StorageKey::TokensPerOwner { account_hash: x } = a {
        if let StorageKey::TokensPerOwner { account_hash: y } = b {
            let ka = a.bytes();
            let kb = b.bytes();
            assert(ka.len() == 5 + x@.len());
            assert(kb.len() == 5 + y@.len());
            assert forall|i: int| 0 <= i < x@.len() implies x@[i] == y@[i] by {
                assert(ka[i + 5] == x@[i]);
                assert(kb[i + 5] == y@[i]);
            }
            assert(x@ =~= y@);
        }
    }
}

/// The first bytes are the beginning of the second.
pub open spec fn begins(first: Seq<u8>, second: Seq<u8>) -> bool {
    first.len() <= second.len() && forall|i: int| 0 <= i < first.len() ==> first[i] == second[i]
}

/// Lengths below 2^32 with the same four bytes are the same length.
pub proof fn lemma_length_prefix_is_exact(m: nat, n: nat)
    requires
        m <= u32::MAX,
        n <= u32::MAX,
        length_prefix(m) == length_prefix(n),
    ensures
        m == n,
{
    let a = length_prefix(m);
    let b = length_prefix(n);
    assert(a[0] == b[0] && a[1] == b[1] && a[2] == b[2] && a[3] == b[3]);
    assert(m % 256 == n % 256);
    assert((m / 256) % 256 == (n / 256) % 256);
    assert((m / 65536) % 256 == (n / 65536) % 256);
    assert((m / 16777216) % 256 == (n / 16777216) % 256);
}

/// No key is the beginning of another: of two keys that can be written
/// down, one begins the other only where they are the same key. So no two
/// collections of the contract share a record in storage.
pub proof fn lemma_no_key_begins_another(a: StorageKey, b: StorageKey)
    requires
        a.encodable(),
        b.encodable(),
        begins(a.bytes(), b.bytes()),
    ensures
        a.bytes() == b.bytes(),
        a.tag() == b.tag(),
        a matches StorageKey::TokensPerOwner { account_hash: x } ==> (b matches StorageKey::TokensPerOwner {
            account_hash: y,
        } && x@ == y@),
{
    lemma_key_starts_with_tag(a);
    lemma_key_starts_with_tag(b);
    let ka = a.bytes();
    let kb = b.bytes();
    assert(ka[0] == kb[0]);
    if let StorageKey::TokensPerOwner { account_hash: x } = a {
        if let StorageKey::TokensPerOwner { account_hash: y } = b {
            let la = length_prefix(x@.len());
            let lb = length_prefix(y@.len());
            assert(ka.len() == 5 + x@.len());
            assert(kb.len() == 5 + y@.len());
            assert forall|i: int| 0 <= i < 4 implies la[i] == lb[i] by {
                assert(ka[i + 1] == la[i]);
                assert(kb[i + 1] == lb[i]);
            }
            assert(la =~= lb);
            lemma_length_prefix_is_exact(x@.len(), y@.len());
            assert(ka =~= kb);
        }
    } else {
        assert(ka =~= kb);
    }
    lemma_keys_distinct(a, b);
}

} // verus!
