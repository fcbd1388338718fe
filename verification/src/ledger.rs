//! The token ledger: who owns which token, what each token is, and which
//! tokens each owner has.
//!
//! The ledger holds its records as plain values. Each collection carries the
//! storage key under which the host keeps it, so that the one who binds the
//! ledger to the host knows where every record goes.

use vstd::prelude::*;
use crate::metadata::bytes_view;
use crate::metadata::copy_bytes;
use crate::metadata::TokenMetadata;
use crate::metadata::TokenMetadataView;
use crate::records::Records;
use crate::storage_key::owner_set_key;
use crate::storage_key::StorageKey;

verus! {

/// The tokens of one owner, in the order in which they came, under the
/// storage key of the set.
#[derive(Debug, PartialEq, Eq)]
pub struct TokenSet {
    pub key: Vec<u8>,
    pub tokens: Vec<String>,
}

/// The mathematical value of a [`TokenSet`].
pub struct TokenSetView {
    pub key: Seq<u8>,
    pub tokens: Seq<Seq<char>>,
}

/// The characters of each text.
pub open spec fn texts_view(texts: Seq<String>) -> Seq<Seq<char>> {
    Seq::new(texts.len(), |i: int| texts[i]@)
}

/// No text stands twice.
pub open spec fn each_once(texts: Seq<Seq<char>>) -> bool {
    forall|i: int, j: int| 0 <= i < j < texts.len() ==> texts[i] != texts[j]
}

/// The texts with one more, unless it stands among them.
pub open spec fn with_text(texts: Seq<Seq<char>>, text: Seq<char>) -> Seq<Seq<char>> {
    if texts.contains(text) {
        texts
    } else {
        texts.push(text)
    }
}

/// Adding a text keeps every text once.
pub proof fn lemma_with_text_keeps_each_once(texts: Seq<Seq<char>>, text: Seq<char>)
    requires
        each_once(texts),
    ensures
        each_once(with_text(texts, text)),
        with_text(texts, text).contains(text),
        forall|other: Seq<char>| texts.contains(other) ==> with_text(texts, text).contains(other),
{
    let after = with_text(texts, text);
    if !texts.contains(text) {
        assert(after[after.len() - 1] == text);
        assert forall|i: int, j: int| 0 <= i < j < after.len() implies after[i] != after[j] by {
            if j == after.len() - 1 {
                assert(texts[i] == after[i]);
                assert(texts.contains(after[i]));
            }
        }
        assert forall|other: Seq<char>| texts.contains(other) implies after.contains(other) by {
            let i = choose|i: int| 0 <= i < texts.len() && texts[i] == other;
            assert(after[i] == other);
        }
    }
}

impl View for TokenSet {
    type V = TokenSetView;

    open spec fn view(&self) -> TokenSetView {
        TokenSetView { key: self.key@, tokens: texts_view(self.tokens@) }
    }
}

impl TokenSet {
    /// A set under the given key, with no token in it.
    pub fn new(key: Vec<u8>) -> (set: TokenSet)
        ensures
            set@ == (TokenSetView { key: key@, tokens: Seq::empty() }),
    {
        let set = TokenSet { key, tokens: Vec::new() };
        assert(texts_view(set.tokens@) =~= Seq::<Seq<char>>::empty());
        set
    }

    /// Whether the token is in the set.
    pub fn contains(&self, token_id: &String) -> (held: bool)
        ensures
            held == self@.tokens.contains(token_id@),
    {
        let mut at: usize = 0;
        while at < self.tokens.len()
            invariant
                at <= self.tokens@.len(),
                forall|i: int| 0 <= i < at ==> self@.tokens[i] != token_id@,
            decreases self.tokens@.len() - at,
        {
            if self.tokens[at] == *token_id {
                assert(self@.tokens[at as int] == token_id@);
                return true;
            }
            at = at + 1;
        }
        false
    }

    /// Puts the token at the end of the set, unless it is in the set, and
    /// tells whether it was new.
    pub fn insert(&mut self, token_id: String) -> (added: bool)
        ensures
            added == !old(self)@.tokens.contains(token_id@),
            final(self)@ == (TokenSetView {
                tokens: with_text(old(self)@.tokens, token_id@),
                ..old(self)@
            }),
            added ==> final(self).tokens@ == old(self).tokens@.push(token_id),
            !added ==> final(self).tokens@ == old(self).tokens@,
    {
        if self.contains(&token_id) {
            false
        } else {
            self.tokens.push(token_id);
            assert(texts_view(self.tokens@) =~= texts_view(old(self).tokens@).push(token_id@));
            true
        }
    }

    /// A copy of the set: the same key, and the same tokens in the same
    /// order.
    pub fn duplicate(&self) -> (copy: TokenSet)
        ensures
            copy@ == self@,
            copy.key@ == self.key@,
            copy.tokens@.len() == self.tokens@.len(),
            forall|i: int| 0 <= i < self.tokens@.len() ==> copy.tokens@[i]@ == self.tokens@[i]@,
    {
        let mut tokens: Vec<String> = Vec::new();
        let mut at: usize = 0;
        while at < self.tokens.len()
            invariant
                at <= self.tokens@.len(),
                tokens@.len() == at,
                forall|i: int| 0 <= i < at ==> tokens@[i]@ == self.tokens@[i]@,
            decreases self.tokens@.len() - at,
        {
            tokens.push(self.tokens[at].clone());
            at = at + 1;
        }
        assert(texts_view(tokens@) =~= texts_view(self.tokens@));
        TokenSet { key: copy_bytes(&self.key), tokens }
    }
}

/// Which accounts may move a token, each with the number of its approval.
pub type Approvals = Records<u64>;

/// The ledger of a collection of non-fungible tokens.
#[derive(Debug)]
pub struct Ledger {
    /// The account that owns the collection.
    pub owner_id: String,
    /// The storage key of `owner_by_id`.
    pub owners_key: Vec<u8>,
    /// The storage key of `token_metadata_by_id`, where metadata is kept.
    pub metadata_key: Option<Vec<u8>>,
    /// The storage key of `tokens_per_owner`, where the token sets are kept.
    pub enumeration_key: Option<Vec<u8>>,
    /// The storage key of the approvals, where approvals are kept.
    pub approval_key: Option<Vec<u8>>,
    /// The owner of each token.
    pub owner_by_id: Records<String>,
    /// The metadata of each token.
    pub token_metadata_by_id: Option<Records<TokenMetadata>>,
    /// The tokens of each owner.
    pub tokens_per_owner: Option<Records<TokenSet>>,
    /// The approvals of each token.
    pub approvals_by_id: Option<Records<Approvals>>,
    /// The number that the next approval of each token gets.
    pub next_approval_id_by_id: Option<Records<u64>>,
}

/// The mathematical value of a [`Ledger`].
pub struct LedgerView {
    pub owner_id: Seq<char>,
    pub owners_key: Seq<u8>,
    pub metadata_key: Option<Seq<u8>>,
    pub enumeration_key: Option<Seq<u8>>,
    pub approval_key: Option<Seq<u8>>,
    pub owner_by_id: Map<Seq<char>, Seq<char>>,
    pub token_metadata_by_id: Option<Map<Seq<char>, TokenMetadataView>>,
    pub tokens_per_owner: Option<Map<Seq<char>, TokenSetView>>,
    pub approvals_by_id: Option<Map<Seq<char>, Map<Seq<char>, u64>>>,
    pub next_approval_id_by_id: Option<Map<Seq<char>, u64>>,
}

/// What optional records hold.
pub open spec fn records_view<V: View>(records: Option<Records<V>>) -> Option<Map<Seq<char>, V::V>> {
    match records {
        Some(r) => Some(r@),
        None => None,
    }
}

impl View for Ledger {
    type V = LedgerView;

    open spec fn view(&self) -> LedgerView {
        LedgerView {
            owner_id: self.owner_id@,
            owners_key: self.owners_key@,
            metadata_key: bytes_view(self.metadata_key),
            enumeration_key: bytes_view(self.enumeration_key),
            approval_key: bytes_view(self.approval_key),
            owner_by_id: self.owner_by_id@,
            token_metadata_by_id: records_view(self.token_metadata_by_id),
            tokens_per_owner: records_view(self.tokens_per_owner),
            approvals_by_id: records_view(self.approvals_by_id),
            next_approval_id_by_id: records_view(self.next_approval_id_by_id),
        }
    }
}

/// No records where there is no key, and empty records where there is one.
pub open spec fn empty_where<K, V>(key: Option<Seq<u8>>) -> Option<Map<K, V>> {
    match key {
        Some(_) => Some(Map::empty()),
        None => None,
    }
}

/// A ledger without tokens: each of the three extensions (metadata, token
/// sets, approvals) is on where a key is given for it.
pub open spec fn new_ledger(
    owners_key: Seq<u8>,
    owner_id: Seq<char>,
    metadata_key: Option<Seq<u8>>,
    enumeration_key: Option<Seq<u8>>,
    approval_key: Option<Seq<u8>>,
) -> LedgerView {
    LedgerView {
        owner_id,
        owners_key,
        metadata_key,
        enumeration_key,
        approval_key,
        owner_by_id: Map::empty(),
        token_metadata_by_id: empty_where(metadata_key),
        tokens_per_owner: empty_where(enumeration_key),
        approvals_by_id: empty_where(approval_key),
        next_approval_id_by_id: empty_where(approval_key),
    }
}

/// The token set of an owner after a token was minted for them: the set they
/// had, with the token at its end unless it was in it; or else a new set
/// with that token alone, under the key made of the hash of their account.
pub open spec fn owner_set_after(
    sets: Map<Seq<char>, TokenSetView>,
    owner: Seq<char>,
    token: Seq<char>,
    account_hash: Seq<u8>,
) -> TokenSetView {
    if sets.contains_key(owner) {
        TokenSetView { tokens: with_text(sets[owner].tokens, token), ..sets[owner] }
    } else {
        TokenSetView { key: owner_set_key(account_hash), tokens: seq![token] }
    }
}

/// The ledger after a token was minted: the token belongs to the owner; if
/// the ledger keeps metadata, the token has the given one; if the ledger
/// keeps the tokens of each owner, the token is among the owner's. A token
/// that existed before is overwritten, and stays in the set of the owner it
/// had. The approvals stay as they were.
pub open spec fn minted(
    before: LedgerView,
    token: Seq<char>,
    owner: Seq<char>,
    metadata: TokenMetadataView,
    account_hash: Seq<u8>,
) -> LedgerView {
    LedgerView {
        owner_by_id: before.owner_by_id.insert(token, owner),
        token_metadata_by_id: match before.token_metadata_by_id {
            Some(by_id) => Some(by_id.insert(token, metadata)),
            None => None,
        },
        tokens_per_owner: match before.tokens_per_owner {
            Some(sets) => Some(
                sets.insert(owner, owner_set_after(sets, owner, token, account_hash)),
            ),
            None => None,
        },
        ..before
    }
}

impl Ledger {
    /// A ledger of `owner_id` without tokens, with its collections under the
    /// given storage keys.
    pub fn new(
        owners_key: Vec<u8>,
        owner_id: String,
        metadata_key: Option<Vec<u8>>,
        enumeration_key: Option<Vec<u8>>,
        approval_key: Option<Vec<u8>>,
    ) -> (ledger: Ledger)
        ensures
            ledger@ == new_ledger(
                owners_key@,
                owner_id@,
                bytes_view(metadata_key),
                bytes_view(enumeration_key),
                bytes_view(approval_key),
            ),
    {
        let token_metadata_by_id = if metadata_key.is_some() {
            Some(Records::new())
        } else {
            None
        };
        let tokens_per_owner = if enumeration_key.is_some() {
            Some(Records::new())
        } else {
            None
        };
        let approvals_by_id = if approval_key.is_some() {
            Some(Records::new())
        } else {
            None
        };
        let next_approval_id_by_id = if approval_key.is_some() {
            Some(Records::new())
        } else {
            None
        };
        Ledger {
            owner_id,
            owners_key,
            metadata_key,
            enumeration_key,
            approval_key,
            owner_by_id: Records::new(),
            token_metadata_by_id,
            tokens_per_owner,
            approvals_by_id,
            next_approval_id_by_id,
        }
    }

    /// Records the token `token_id` for `owner_id`. Nothing is checked: a
    /// token that exists is overwritten.
    ///
    /// `account_hash` is the SHA-256 digest of the owner's name, which the
    /// host computes. An owner without a token set gets one under the key
    /// made of it.
    pub fn mint(
        &mut self,
        token_id: String,
        owner_id: String,
        metadata: TokenMetadata,
        account_hash: Vec<u8>,
    )
        requires
            account_hash@.len() <= u32::MAX,
        ensures
            final(self)@ == minted(old(self)@, token_id@, owner_id@, metadata@, account_hash@),
    {
        self.owner_by_id.insert(token_id.clone(), owner_id.clone());

        let token_metadata_by_id = self.token_metadata_by_id.take();
        self.token_metadata_by_id = match token_metadata_by_id {
            Some(mut by_id) => {
                by_id.insert(token_id.clone(), metadata);
                Some(by_id)
            },
            None => None,
        };

        let tokens_per_owner = self.tokens_per_owner.take();
        self.tokens_per_owner = match tokens_per_owner {
            Some(mut sets) => {
                let mut token_ids = match sets.get(&owner_id) {
                    Some(set) => set.duplicate(),
                    None => TokenSet::new(
                        StorageKey::TokensPerOwner { account_hash }.into_storage_key(),
                    ),
                };
                token_ids.insert(token_id);
                sets.insert(owner_id, token_ids);
                Some(sets)
            },
            None => None,
        };
    }
}

/// The ledger keeps token sets, and the token is in the set of the owner.
pub open spec fn listed_under(ledger: LedgerView, owner: Seq<char>, token: Seq<char>) -> bool {
    &&& ledger.tokens_per_owner matches Some(sets)
    &&& sets.contains_key(owner)
    &&& sets[owner].tokens.contains(token)
}

/// The ledger keeps token sets, and the owner has one.
pub open spec fn has_set(ledger: LedgerView, owner: Seq<char>) -> bool {
    ledger.tokens_per_owner matches Some(sets) && sets.contains_key(owner)
}

/// The ledger keeps metadata, and the token has some.
pub open spec fn described(ledger: LedgerView, token: Seq<char>) -> bool {
    ledger.token_metadata_by_id matches Some(by_id) && by_id.contains_key(token)
}

/// Every token that has an owner is in the token set of that owner.
pub open spec fn owned_tokens_are_listed(ledger: LedgerView) -> bool {
    forall|token: Seq<char>| #[trigger]
        ledger.owner_by_id.contains_key(token) ==> listed_under(
            ledger,
            ledger.owner_by_id[token],
            token,
        )
}

/// Every token in a token set belongs to the owner of the set.
pub open spec fn listed_tokens_are_owned(ledger: LedgerView) -> bool {
    forall|owner: Seq<char>, token: Seq<char>| #[trigger]
        listed_under(ledger, owner, token) ==> ledger.owner_by_id.contains_key(token)
            && ledger.owner_by_id[token] == owner
}

/// Every token that has an owner has metadata.
pub open spec fn owned_tokens_have_metadata(ledger: LedgerView) -> bool {
    forall|token: Seq<char>| #[trigger]
        ledger.owner_by_id.contains_key(token) ==> described(ledger, token)
}

/// No token stands twice in a token set.
pub open spec fn tokens_are_listed_once(ledger: LedgerView) -> bool {
    forall|owner: Seq<char>| #[trigger]
        has_set(ledger, owner) ==> each_once(ledger.tokens_per_owner->0[owner].tokens)
}

/// Every token set lies under the key made of the hash of its owner, where
/// `hash_of` gives the hash of each account.
pub open spec fn token_sets_lie_under_their_keys(
    ledger: LedgerView,
    hash_of: spec_fn(Seq<char>) -> Seq<u8>,
) -> bool {
    forall|owner: Seq<char>| #[trigger]
        has_set(ledger, owner) ==> ledger.tokens_per_owner->0[owner].key == owner_set_key(
            hash_of(owner),
        )
}

/// After a mint the token belongs to the receiver, carries the given
/// metadata where the ledger keeps metadata, and is in the receiver's token
/// set where the ledger keeps the sets.
pub proof fn lemma_minted_token(
    before: LedgerView,
    token: Seq<char>,
    owner: Seq<char>,
    metadata: TokenMetadataView,
    account_hash: Seq<u8>,
)
    ensures
        ({
            let after = minted(before, token, owner, metadata, account_hash);
            &&& after.owner_by_id.contains_key(token)
            &&& after.owner_by_id[token] == owner
            &&& before.token_metadata_by_id.is_some() ==> described(after, token)
                && after.token_metadata_by_id->0[token] == metadata
            &&& before.tokens_per_owner.is_some() ==> listed_under(after, owner, token)
        }),
{
    if let Some(sets) = before.tokens_per_owner {
        let set = owner_set_after(sets, owner, token, account_hash);
        if sets.contains_key(owner) {
            if !sets[owner].tokens.contains(token) {
                assert(set.tokens[set.tokens.len() - 1] == token);
            }
        } else {
            assert(set.tokens[0] == token);
        }
    }
}

/// A mint leaves every other token with its owner and its metadata, and
/// every other owner with their token set. It leaves the owner of the
/// collection, the storage keys and the approvals as they were, and turns no
/// extension on or off.
pub proof fn lemma_minted_frame(
    before: LedgerView,
    token: Seq<char>,
    owner: Seq<char>,
    metadata: TokenMetadataView,
    account_hash: Seq<u8>,
    other_token: Seq<char>,
    other_owner: Seq<char>,
)
    requires
        other_token != token,
        other_owner != owner,
    ensures
        ({
            let after = minted(before, token, owner, metadata, account_hash);
            &&& after.owner_by_id.contains_key(other_token) == before.owner_by_id.contains_key(
                other_token,
            )
            &&& after.owner_by_id[other_token] == before.owner_by_id[other_token]
            &&& described(after, other_token) == described(before, other_token)
            &&& after.token_metadata_by_id->0[other_token]
                == before.token_metadata_by_id->0[other_token]
            &&& has_set(after, other_owner) == has_set(before, other_owner)
            &&& after.tokens_per_owner->0[other_owner] == before.tokens_per_owner->0[other_owner]
            &&& after.owner_id == before.owner_id
            &&& after.owners_key == before.owners_key
            &&& after.metadata_key == before.metadata_key
            &&& after.enumeration_key == before.enumeration_key
            &&& after.approval_key == before.approval_key
            &&& after.approvals_by_id == before.approvals_by_id
            &&& after.next_approval_id_by_id == before.next_approval_id_by_id
            &&& after.token_metadata_by_id.is_some() == before.token_metadata_by_id.is_some()
            &&& after.tokens_per_owner.is_some() == before.tokens_per_owner.is_some()
        }),
{
}

/// The first mint on a ledger without tokens leaves one token, one piece of
/// metadata and one token set with that token, and no approval.
pub proof fn lemma_first_mint(
    owners_key: Seq<u8>,
    owner_id: Seq<char>,
    metadata_key: Seq<u8>,
    enumeration_key: Seq<u8>,
    approval_key: Seq<u8>,
    token: Seq<char>,
    owner: Seq<char>,
    metadata: TokenMetadataView,
    account_hash: Seq<u8>,
)
    ensures
        ({
            let before = new_ledger(
                owners_key,
                owner_id,
                Some(metadata_key),
                Some(enumeration_key),
                Some(approval_key),
            );
            let after = minted(before, token, owner, metadata, account_hash);
            &&& after.owner_id == owner_id
            &&& after.owner_by_id == Map::<Seq<char>, Seq<char>>::empty().insert(token, owner)
            &&& after.token_metadata_by_id == Some(
                Map::<Seq<char>, TokenMetadataView>::empty().insert(token, metadata),
            )
            &&& after.tokens_per_owner == Some(
                Map::<Seq<char>, TokenSetView>::empty().insert(
                    owner,
                    TokenSetView { key: owner_set_key(account_hash), tokens: seq![token] },
                ),
            )
            &&& after.approvals_by_id == Some(Map::<Seq<char>, Map<Seq<char>, u64>>::empty())
            &&& after.next_approval_id_by_id == Some(Map::<Seq<char>, u64>::empty())
        }),
{
}

/// A mint adds to the receiver's token set and takes nothing out of it.
pub proof fn lemma_minted_set_grows(
    before: LedgerView,
    token: Seq<char>,
    owner: Seq<char>,
    metadata: TokenMetadataView,
    account_hash: Seq<u8>,
    other_token: Seq<char>,
)
    requires
        listed_under(before, owner, other_token),
    ensures
        listed_under(
            minted(before, token, owner, metadata, account_hash),
            owner,
            other_token,
        ),
{
    let tokens = before.tokens_per_owner->0[owner].tokens;
    if !tokens.contains(token) {
        let i = choose|i: int| 0 <= i < tokens.len() && tokens[i] == other_token;
        assert(tokens.push(token)[i] == other_token);
    }
}

/// On a ledger that keeps the token sets, a mint keeps every owned token
/// listed under its owner.
pub proof fn lemma_mint_keeps_owned_tokens_listed(
    before: LedgerView,
    token: Seq<char>,
    owner: Seq<char>,
    metadata: TokenMetadataView,
    account_hash: Seq<u8>,
)
    requires
        before.tokens_per_owner.is_some(),
        owned_tokens_are_listed(before),
    ensures
        owned_tokens_are_listed(minted(before, token, owner, metadata, account_hash)),
{
    let after = minted(before, token, owner, metadata, account_hash);
    assert forall|t: Seq<char>| #[trigger] after.owner_by_id.contains_key(t) implies listed_under(
        after,
        after.owner_by_id[t],
        t,
    ) by {
        if t != token {
            assert(before.owner_by_id.contains_key(t));
            assert(listed_under(before, before.owner_by_id[t], t));
            if before.owner_by_id[t] == owner {
                lemma_minted_set_grows(before, token, owner, metadata, account_hash, t);
            }
        } else {
            lemma_minted_token(before, token, owner, metadata, account_hash);
        }
    }
}

/// On a ledger that keeps the token sets, the mint of a token that has no
/// owner yet keeps every listed token with the owner of its set. A token
/// that is minted again stays in the set of the owner it had.
pub proof fn lemma_mint_of_new_token_keeps_listed_tokens_owned(
    before: LedgerView,
    token: Seq<char>,
    owner: Seq<char>,
    metadata: TokenMetadataView,
    account_hash: Seq<u8>,
)
    requires
        before.tokens_per_owner.is_some(),
        listed_tokens_are_owned(before),
        !before.owner_by_id.contains_key(token),
    ensures
        listed_tokens_are_owned(minted(before, token, owner, metadata, account_hash)),
{
    let after = minted(before, token, owner, metadata, account_hash);
    let sets = before.tokens_per_owner->0;
    assert forall|o: Seq<char>, t: Seq<char>| #[trigger]
        listed_under(after, o, t) implies after.owner_by_id.contains_key(t)
        && after.owner_by_id[t] == o by {
        if o != owner {
            assert(listed_under(before, o, t));
        } else if t != token {
            let tokens = after.tokens_per_owner->0[owner].tokens;
            let i = choose|i: int| 0 <= i < tokens.len() && tokens[i] == t;
            if sets.contains_key(owner) {
                assert(sets[owner].tokens[i] == t);
            }
            assert(listed_under(before, o, t));
        }
    }
}

/// On a ledger that keeps metadata, a mint keeps every owned token with
/// metadata.
pub proof fn lemma_mint_keeps_metadata_of_owned_tokens(
    before: LedgerView,
    token: Seq<char>,
    owner: Seq<char>,
    metadata: TokenMetadataView,
    account_hash: Seq<u8>,
)
    requires
        before.token_metadata_by_id.is_some(),
        owned_tokens_have_metadata(before),
    ensures
        owned_tokens_have_metadata(minted(before, token, owner, metadata, account_hash)),
{
    let after = minted(before, token, owner, metadata, account_hash);
    assert forall|t: Seq<char>| #[trigger] after.owner_by_id.contains_key(t) implies described(
        after,
        t,
    ) by {
        if t != token {
            assert(before.owner_by_id.contains_key(t));
            assert(described(before, t));
        }
    }
}

/// A mint keeps every token once in its set.
pub proof fn lemma_mint_keeps_tokens_listed_once(
    before: LedgerView,
    token: Seq<char>,
    owner: Seq<char>,
    metadata: TokenMetadataView,
    account_hash: Seq<u8>,
)
    requires
        tokens_are_listed_once(before),
    ensures
        tokens_are_listed_once(minted(before, token, owner, metadata, account_hash)),
{
    let after = minted(before, token, owner, metadata, account_hash);
    assert forall|o: Seq<char>| #[trigger] has_set(after, o) implies each_once(
        after.tokens_per_owner->0[o].tokens,
    ) by {
        if o != owner {
            assert(has_set(before, o));
        } else if has_set(before, owner) {
            lemma_with_text_keeps_each_once(before.tokens_per_owner->0[owner].tokens, token);
        }
    }
}

/// A mint keeps every token set under the key of its owner, where the hash
/// that is handed to it is the hash of the receiver: an owner without a set
/// gets one under the key made of that hash.
pub proof fn lemma_mint_keeps_token_sets_under_their_keys(
    before: LedgerView,
    token: Seq<char>,
    owner: Seq<char>,
    metadata: TokenMetadataView,
    account_hash: Seq<u8>,
    hash_of: spec_fn(Seq<char>) -> Seq<u8>,
)
    requires
        token_sets_lie_under_their_keys(before, hash_of),
        account_hash == hash_of(owner),
    ensures
        token_sets_lie_under_their_keys(
            minted(before, token, owner, metadata, account_hash),
            hash_of,
        ),
{
    let after = minted(before, token, owner, metadata, account_hash);
    assert forall|o: Seq<char>| #[trigger] has_set(after, o) implies after.tokens_per_owner->0[o].key
        == owner_set_key(hash_of(o)) by {
        if o != owner {
            assert(has_set(before, o));
        } else if has_set(before, owner) {
        }
    }
}

} // verus!
