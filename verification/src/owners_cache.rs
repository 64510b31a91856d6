//! The cache that maps a token wallet to the account that owns it.
//!
//! Two maps are kept: token wallet to owner, which is persisted, and root
//! token contract to its fetched state, which lives in memory only. Each is
//! a value of its own. Network and storage access belong to the caller; the
//! cache decides what has to be fetched and what is known afterwards.

use vstd::prelude::*;
use crate::address::Address;
use crate::address_map::{AddressMap, encodes, insert_all, pairs_to_map};

verus! {

/// Why an operation of the cache failed.
#[derive(Clone, Copy, Debug, PartialEq, Eq, Structural)]
pub enum OwnersCacheError {
    /// The root token contract does not exist or is of no known kind.
    InvalidRootTokenContract,
    /// The persisted record is not a list of pairs of strings.
    InvalidRecord,
    /// An entry of the persisted record holds text that is no address.
    InvalidAddress,
}

impl OwnersCacheError {
    /// The message that describes the error.
    pub fn message(&self) -> (r: &'static str)
        ensures
            r@ == (match *self {
                OwnersCacheError::InvalidRootTokenContract => "Invalid root token contract"@,
                OwnersCacheError::InvalidRecord => "Invalid owners cache record"@,
                OwnersCacheError::InvalidAddress => "Invalid address in owners cache record"@,
            }),
    {
        match self {
            OwnersCacheError::InvalidRootTokenContract => "Invalid root token contract",
            OwnersCacheError::InvalidRecord => "Invalid owners cache record",
            OwnersCacheError::InvalidAddress => "Invalid address in owners cache record",
        }
    }
}

/// Whether an owner already has a token wallet under a root contract.
#[derive(Clone, Copy, Debug, PartialEq, Eq, Structural)]
pub enum RecipientWallet {
    NotExists,
    Exists(Address),
}

/// The state of a root token contract as it was fetched, with the version of
/// the wallet schema that was detected for it.
#[derive(Debug, PartialEq, Eq)]
pub struct RootTokenContract {
    pub snapshot: Vec<u8>,
    pub version: u32,
}

/// One entry of the persisted record: each address is present where its text
/// could be read as an address.
pub type StoredEntry = (Option<Address>, Option<Address>);

/// The record as a sequence of entries.
pub open spec fn spec_record(record: Option<Vec<StoredEntry>>) -> Option<Seq<StoredEntry>> {
    match record {
        Some(entries) => Some(entries@),
        None => None,
    }
}

/// Every address of the record could be read.
pub open spec fn record_valid(record: Option<Seq<StoredEntry>>) -> bool {
    match record {
        Some(entries) => forall|i: int| 0 <= i < entries.len() ==> (#[trigger] entries[i]).0.is_some() && entries[i].1.is_some(),
        None => true,
    }
}

/// The pairs of a record whose addresses could all be read.
pub open spec fn record_pairs(record: Option<Seq<StoredEntry>>) -> Seq<(Address, Address)> {
    match record {
        Some(entries) => entries.map_values(|e: StoredEntry| (e.0.unwrap(), e.1.unwrap())),
        None => Seq::empty(),
    }
}

/// What a batch resolution returns: for each requested wallet its owner, from
/// the cache where the cache knows it, else from what was fetched.
pub open spec fn resolved_owners(
    known: Map<Address, Address>,
    wallets: Seq<Address>,
    fetched: Map<Address, Address>,
) -> Map<Address, Address> {
    Map::new(
        |k: Address| wallets.contains(k) && (known.dom().contains(k) || fetched.dom().contains(k)),
        |k: Address| if known.dom().contains(k) { known[k] } else { fetched[k] },
    )
}

/// What the cache knows after a batch resolution: what it knew, and the
/// fetched owner of each requested wallet that it did not know.
pub open spec fn owners_after(
    known: Map<Address, Address>,
    wallets: Seq<Address>,
    fetched: Map<Address, Address>,
) -> Map<Address, Address> {
    Map::new(
        |k: Address| known.dom().contains(k) || (wallets.contains(k) && fetched.dom().contains(k)),
        |k: Address| if known.dom().contains(k) { known[k] } else { fetched[k] },
    )
}

/// No address occurs in two places of the list.
pub open spec fn no_duplicates(s: Seq<Address>) -> bool {
    forall|i: int, j: int| 0 <= i < j < s.len() ==> s[i] != s[j]
}

proof fn lemma_take_contains(s: Seq<Address>, i: int)
    requires
        0 <= i < s.len(),
    ensures
        forall|k: Address| #[trigger] s.take(i + 1).contains(k) <==> (s.take(i).contains(k) || k == s[i]),
{
    let a = s.take(i);
    let b = s.take(i + 1);
    assert forall|k: Address| #[trigger] b.contains(k) implies (a.contains(k) || k == s[i]) by {
        let j = choose|j: int| 0 <= j < b.len() && b[j] == k;
        if j < i {
            assert(a[j] == k);
        }
    }
    assert forall|k: Address| (a.contains(k) || k == s[i]) implies #[trigger] b.contains(k) by {
        if a.contains(k) {
            let j = choose|j: int| 0 <= j < a.len() && a[j] == k;
            assert(b[j] == k);
        } else {
            assert(b[i] == k);
        }
    }
}

fn list_contains(list: &Vec<Address>, key: &Address) -> (r: bool)
    ensures
        r == list@.contains(*key),
{
    let mut i: usize = 0;
    while i < list.len()
        invariant
            i <= list@.len(),
            forall|j: int| 0 <= j < i ==> list@[j] != *key,
        decreases list@.len() - i,
    {
        if list[i].same(key) {
            return true;
        }
        i += 1;
    }
    false
}

/// The owners cache: what is known of token wallets and root contracts, and
/// the number of resolutions that may run at one time.
pub struct OwnersCache {
    owners: AddressMap<Address>,
    concurrent_resolvers: usize,
}

/// The root token contracts that were fetched, by their address. The map is
/// kept in memory only, beside the owners cache and apart from it, so that
/// neither has to wait for the other.
pub struct TokenContractStates {
    states: AddressMap<RootTokenContract>,
}

impl OwnersCache {
    /// The owner map: token wallet to owner.
    pub closed spec fn owner_map(&self) -> Map<Address, Address> {
        self.owners@
    }

    /// The number of resolutions that may run at one time.
    pub closed spec fn resolver_limit(&self) -> usize {
        self.concurrent_resolvers
    }

    /// A cache that knows nothing.
    pub fn empty(concurrent_resolvers: usize) -> (r: OwnersCache)
        ensures
            r.owner_map() == Map::<Address, Address>::empty(),
            r.resolver_limit() == concurrent_resolvers,
    {
        OwnersCache {
            owners: AddressMap::new(),
            concurrent_resolvers,
        }
    }

    /// The number of resolutions that may run at one time.
    pub fn concurrent_resolvers(&self) -> (r: usize)
        ensures
            r == self.resolver_limit(),
    {
        self.concurrent_resolvers
    }

    /// Builds the cache from the persisted record, whose entries come with
    /// their addresses as they were read from their text. No record gives an
    /// empty cache; a record with an address that could not be read is
    /// refused. Of two entries for one token wallet the later one counts.
    pub fn load(record: Option<Vec<StoredEntry>>, concurrent_resolvers: usize) -> (r: Result<
        OwnersCache,
        OwnersCacheError,
    >)
        ensures
            match r {
                Ok(cache) => {
                    &&& record_valid(spec_record(record))
                    &&& cache.owner_map() == pairs_to_map(record_pairs(spec_record(record)))
                    &&& cache.resolver_limit() == concurrent_resolvers
                },
                Err(e) => !record_valid(spec_record(record)) && e == OwnersCacheError::InvalidAddress,
            },
    {
        let mut pairs: Vec<(Address, Address)> = Vec::new();
        match &record {
            Some(entries) => {
                let mut i: usize = 0;
                while i < entries.len()
                    invariant
                        i <= entries@.len(),
                        spec_record(record) == Some(entries@),
                        record_valid(Some(entries@.take(i as int))),
                        pairs@ == record_pairs(Some(entries@.take(i as int))),
                    decreases entries@.len() - i,
                {
                    let entry = entries[i];
                    match entry {
                        (Some(token_wallet), Some(owner_wallet)) => {
                            pairs.push((token_wallet, owner_wallet));
                        },
                        _ => {
                            proof {
                                assert(!(entries@[i as int].0.is_some() && entries@[i as int].1.is_some()));
                            }
                            return Err(OwnersCacheError::InvalidAddress);
                        },
                    }
                    proof {
                        assert(entries@.take(i + 1) =~= entries@.take(i as int).push(entry));
                        assert(pairs@ =~= record_pairs(Some(entries@.take(i + 1))));
                    }
                    i += 1;
                }
                proof {
                    assert(entries@.take(entries@.len() as int) =~= entries@);
                }
            },
            None => {},
        }
        let mut cache = OwnersCache::empty(concurrent_resolvers);
        cache.owners = AddressMap::from_pairs(&pairs);
        Ok(cache)
    }

    /// As `load`, but a record that is refused gives an empty cache.
    pub fn load_unchecked(record: Option<Vec<StoredEntry>>, concurrent_resolvers: usize) -> (r:
        OwnersCache)
        ensures
            r.owner_map() == (if record_valid(spec_record(record)) {
                pairs_to_map(record_pairs(spec_record(record)))
            } else {
                Map::<Address, Address>::empty()
            }),
            r.resolver_limit() == concurrent_resolvers,
    {
        match OwnersCache::load(record, concurrent_resolvers) {
            Ok(cache) => cache,
            Err(_) => OwnersCache::empty(concurrent_resolvers),
        }
    }

    /// The owner of a token wallet, where the cache knows it.
    pub fn get_owner(&self, token_wallet: &Address) -> (r: Option<Address>)
        ensures
            r == (if self.owner_map().dom().contains(*token_wallet) {
                Some(self.owner_map()[*token_wallet])
            } else {
                None
            }),
    {
        match self.owners.get(token_wallet) {
            Some(owner) => Some(*owner),
            None => None,
        }
    }

    /// The owner map as the list of pairs to persist, each token wallet once.
    pub fn save(&self) -> (r: Vec<(Address, Address)>)
        ensures
            encodes(r@, self.owner_map()),
    {
        self.owners.to_pairs()
    }

    /// Records the owner of a token wallet and returns the list to persist.
    pub fn add_entry(&mut self, token_wallet: Address, owner_wallet: Address) -> (r: Vec<
        (Address, Address),
    >)
        ensures
            final(self).owner_map() == old(self).owner_map().insert(token_wallet, owner_wallet),
            final(self).resolver_limit() == old(self).resolver_limit(),
            encodes(r@, final(self).owner_map()),
    {
        self.owners.insert(token_wallet, owner_wallet);
        self.save()
    }

    /// Records a list of known owners, from first to last, and returns the
    /// list to persist.
    pub fn add_owners_list(&mut self, new_owners: &Vec<(Address, Address)>) -> (r: Vec<
        (Address, Address),
    >)
        ensures
            final(self).owner_map() == insert_all(old(self).owner_map(), new_owners@),
            final(self).resolver_limit() == old(self).resolver_limit(),
            encodes(r@, final(self).owner_map()),
    {
        self.owners.extend(new_owners);
        self.save()
    }
}

impl OwnersCache {
    /// The requested token wallets that the cache does not know, each once:
    /// the wallets whose owner has to be fetched.
    pub fn unresolved(&self, token_wallets: &Vec<Address>) -> (r: Vec<Address>)
        ensures
            no_duplicates(r@),
            forall|k: Address| r@.contains(k) <==> (token_wallets@.contains(k) && !self.owner_map().dom().contains(k)),
    {
        let mut r: Vec<Address> = Vec::new();
        let mut i: usize = 0;
        while i < token_wallets.len()
            invariant
                i <= token_wallets@.len(),
                no_duplicates(r@),
                forall|k: Address| r@.contains(k) <==> (token_wallets@.take(i as int).contains(k) && !self.owner_map().dom().contains(k)),
            decreases token_wallets@.len() - i,
        {
            let wallet = token_wallets[i];
            let ghost before = r@;
            proof {
                lemma_take_contains(token_wallets@, i as int);
            }
            if !self.owners.contains_key(&wallet) && !list_contains(&r, &wallet) {
                r.push(wallet);
                proof {
                    assert forall|k: Address| r@.contains(k) <==> (before.contains(k) || k == wallet) by {
                        if before.contains(k) {
                            let j = choose|j: int| 0 <= j < before.len() && before[j] == k;
                            assert(r@[j] == k);
                        }
                        if k == wallet {
                            assert(r@[before.len() as int] == k);
                        }
                        if r@.contains(k) {
                            let j = choose|j: int| 0 <= j < r@.len() && r@[j] == k;
                            if j < before.len() {
                                assert(before[j] == k);
                            }
                        }
                    }
                    assert forall|a: int, b: int| 0 <= a < b < r@.len() implies r@[a] != r@[b] by {
                        if b == before.len() {
                            assert(before[a] == r@[a]);
                            assert(before.contains(r@[a]));
                        } else {
                            assert(before[a] == r@[a] && before[b] == r@[b]);
                        }
                    }
                }
            }
            proof {
                let seen = token_wallets@.take(i as int);
                let next = token_wallets@.take(i + 1);
                assert forall|k: Address| r@.contains(k) <==> (next.contains(k) && !self.owner_map().dom().contains(k)) by {
                    assert(next.contains(k) <==> (seen.contains(k) || k == wallet));
                    assert(before.contains(k) <==> (seen.contains(k) && !self.owner_map().dom().contains(k)));
                }
            }
            i += 1;
        }
        proof {
            assert(token_wallets@.take(token_wallets@.len() as int) =~= token_wallets@);
        }
        r
    }

    /// The owner of each requested wallet that the cache knows: what a batch
    /// resolution returns where nothing is fetched. The cache is only read.
    pub fn known_owners(&self, token_wallets: &Vec<Address>) -> (r: AddressMap<Address>)
        ensures
            r@ == resolved_owners(self.owner_map(), token_wallets@, Map::<Address, Address>::empty()),
    {
        let ghost nothing = Map::<Address, Address>::empty();
        let mut resolved: AddressMap<Address> = AddressMap::new();
        let mut i: usize = 0;
        proof {
            assert(resolved@ =~= resolved_owners(self.owner_map(), token_wallets@.take(0), nothing));
        }
        while i < token_wallets.len()
            invariant
                i <= token_wallets@.len(),
                nothing == Map::<Address, Address>::empty(),
                resolved@ == resolved_owners(self.owner_map(), token_wallets@.take(i as int), nothing),
            decreases token_wallets@.len() - i,
        {
            let wallet = token_wallets[i];
            proof {
                lemma_take_contains(token_wallets@, i as int);
            }
            match self.owners.get(&wallet) {
                Some(owner) => {
                    resolved.insert(wallet, *owner);
                },
                None => {},
            }
            proof {
                assert(resolved@ =~= resolved_owners(self.owner_map(), token_wallets@.take(i + 1), nothing));
            }
            i += 1;
        }
        proof {
            assert(token_wallets@.take(token_wallets@.len() as int) =~= token_wallets@);
        }
        resolved
    }

    /// Completes a batch resolution. `fetched` holds the owner of each token
    /// wallet whose resolution succeeded; a wallet that failed is absent from
    /// it. Returns the owner of each requested wallet that is known now, and
    /// the list to persist. What the cache knew is never replaced.
    pub fn resolve_owners(&mut self, token_wallets: &Vec<Address>, fetched: &AddressMap<Address>) -> (r: (
        AddressMap<Address>,
        Vec<(Address, Address)>,
    ))
        ensures
            r.0@ == resolved_owners(old(self).owner_map(), token_wallets@, fetched@),
            final(self).owner_map() == owners_after(old(self).owner_map(), token_wallets@, fetched@),
            final(self).resolver_limit() == old(self).resolver_limit(),
            encodes(r.1@, final(self).owner_map()),
    {
        let mut resolved: AddressMap<Address> = AddressMap::new();
        let mut i: usize = 0;
        proof {
            assert(resolved@ =~= resolved_owners(old(self).owner_map(), token_wallets@.take(0), fetched@));
            assert(self.owner_map() =~= owners_after(old(self).owner_map(), token_wallets@.take(0), fetched@));
        }
        while i < token_wallets.len()
            invariant
                i <= token_wallets@.len(),
                resolved@ == resolved_owners(old(self).owner_map(), token_wallets@.take(i as int), fetched@),
                self.owner_map() == owners_after(old(self).owner_map(), token_wallets@.take(i as int), fetched@),
                self.resolver_limit() == old(self).resolver_limit(),
            decreases token_wallets@.len() - i,
        {
            let wallet = token_wallets[i];
            proof {
                lemma_take_contains(token_wallets@, i as int);
            }
            match self.owners.get(&wallet) {
                Some(owner) => {
                    resolved.insert(wallet, *owner);
                },
                None => {
                    match fetched.get(&wallet) {
                        Some(owner) => {
                            self.owners.insert(wallet, *owner);
                            resolved.insert(wallet, *owner);
                        },
                        None => {},
                    }
                },
            }
            proof {
                assert(resolved@ =~= resolved_owners(old(self).owner_map(), token_wallets@.take(i + 1), fetched@));
                assert(self.owner_map() =~= owners_after(old(self).owner_map(), token_wallets@.take(i + 1), fetched@));
            }
            i += 1;
        }
        proof {
            assert(token_wallets@.take(token_wallets@.len() as int) =~= token_wallets@);
        }
        let snapshot = self.save();
        (resolved, snapshot)
    }

    /// Records that `token_wallet` is the token wallet of `owner_wallet`,
    /// whether or not it exists yet, and says which of the two holds. Returns
    /// the list to persist with it.
    pub fn check_recipient_wallet(&mut self, token_wallet: Address, owner_wallet: Address, exists: bool) -> (r: (
        RecipientWallet,
        Vec<(Address, Address)>,
    ))
        ensures
            r.0 == (if exists {
                RecipientWallet::Exists(token_wallet)
            } else {
                RecipientWallet::NotExists
            }),
            final(self).owner_map() == old(self).owner_map().insert(token_wallet, owner_wallet),
            final(self).resolver_limit() == old(self).resolver_limit(),
            encodes(r.1@, final(self).owner_map()),
    {
        let snapshot = self.add_entry(token_wallet, owner_wallet);
        let wallet = if exists {
            RecipientWallet::Exists(token_wallet)
        } else {
            RecipientWallet::NotExists
        };
        (wallet, snapshot)
    }
}

impl TokenContractStates {
    /// The fetched root token contracts, by their address.
    pub closed spec fn view(&self) -> Map<Address, RootTokenContract> {
        self.states@
    }

    /// No root token contract is cached.
    pub fn new() -> (r: TokenContractStates)
        ensures
            r@ == Map::<Address, RootTokenContract>::empty(),
    {
        TokenContractStates { states: AddressMap::new() }
    }

    /// The cached state of a root token contract. Where there is one, nothing
    /// has to be fetched for it.
    pub fn token_contract_state(&self, root_token_contract: &Address) -> (r: Option<&RootTokenContract>)
        ensures
            r == (if self@.dom().contains(*root_token_contract) {
                Some(&self@[*root_token_contract])
            } else {
                None
            }),
    {
        self.states.get(root_token_contract)
    }

    /// Takes in what a fetch of a root token contract gave: its state with
    /// the detected version, or nothing where the contract does not exist or
    /// its version could not be detected. Nothing is the error
    /// `InvalidRootTokenContract`; a fetched state is cached unless one is
    /// cached already.
    pub fn cache_token_contract(&mut self, root_token_contract: Address, fetched: Option<RootTokenContract>) -> (r: Result<(), OwnersCacheError>)
        ensures
            match fetched {
                Some(state) => r == Ok::<(), OwnersCacheError>(()) && final(self)@ == (
                if old(self)@.dom().contains(root_token_contract) {
                    old(self)@
                } else {
                    old(self)@.insert(root_token_contract, state)
                }),
                None => r == Err::<(), OwnersCacheError>(OwnersCacheError::InvalidRootTokenContract)
                    && final(self)@ == old(self)@,
            },
    {
        match fetched {
            Some(state) => {
                if !self.states.contains_key(&root_token_contract) {
                    self.states.insert(root_token_contract, state);
                }
                Ok(())
            },
            None => Err(OwnersCacheError::InvalidRootTokenContract),
        }
    }
}

/// A second resolution of the same wallets finds in the cache every wallet
/// that the first one returned, and returns the same owner for it. Where the
/// second fetch brings nothing for the wallets that the first left out, both
/// the returned map and the cache are those of the first.
pub proof fn lemma_resolve_owners_again(
    known: Map<Address, Address>,
    wallets: Seq<Address>,
    first_fetch: Map<Address, Address>,
    second_fetch: Map<Address, Address>,
)
    ensures
        ({
            let first = resolved_owners(known, wallets, first_fetch);
            let cache = owners_after(known, wallets, first_fetch);
            let second = resolved_owners(cache, wallets, second_fetch);
            &&& forall|k: Address| first.dom().contains(k) ==> cache.dom().contains(k) && second.contains_pair(k, first[k])
            &&& (forall|k: Address| wallets.contains(k) && !first.dom().contains(k) ==> !second_fetch.dom().contains(k))
                ==> second == first && owners_after(cache, wallets, second_fetch) == cache
        }),
{
    let first = resolved_owners(known, wallets, first_fetch);
    let cache = owners_after(known, wallets, first_fetch);
    let second = resolved_owners(cache, wallets, second_fetch);
    if forall|k: Address| wallets.contains(k) && !first.dom().contains(k) ==> !second_fetch.dom().contains(k) {
        assert(second =~= first);
        assert(owners_after(cache, wallets, second_fetch) =~= cache);
    }
}

/// A batch resolution returns what the cache knew of the requested wallets,
/// and beside it the fetched owner of each requested wallet that the cache
/// did not know: the wallets may be resolved one by one.
pub proof fn lemma_resolution_splits(
    known: Map<Address, Address>,
    wallets: Seq<Address>,
    fetched: Map<Address, Address>,
)
    ensures
        ({
            let all = resolved_owners(known, wallets, fetched);
            let hits = resolved_owners(known, wallets, Map::<Address, Address>::empty());
            &&& forall|k: Address| hits.dom().contains(k) ==> all.contains_pair(k, hits[k])
            &&& forall|k: Address| wallets.contains(k) && !known.dom().contains(k) && fetched.dom().contains(k)
                ==> all.contains_pair(k, fetched[k]) && resolved_owners(known, seq![k], fetched).contains_pair(k, fetched[k])
            &&& forall|k: Address| all.dom().contains(k) ==> hits.dom().contains(k) || (!known.dom().contains(k)
                && fetched.dom().contains(k))
        }),
{
    assert forall|k: Address| wallets.contains(k) && !known.dom().contains(k) && fetched.dom().contains(k)
        implies resolved_owners(known, seq![k], fetched).contains_pair(k, fetched[k]) by {
        assert(seq![k][0] == k);
    }
}

/// However often a wallet is requested, the pairs of a batch resolution hold
/// it at most once, and they hold requested wallets only.
pub proof fn lemma_resolved_once(
    known: Map<Address, Address>,
    wallets: Seq<Address>,
    fetched: Map<Address, Address>,
    pairs: Seq<(Address, Address)>,
)
    requires
        encodes(pairs, resolved_owners(known, wallets, fetched)),
    ensures
        forall|i: int, j: int| 0 <= i < j < pairs.len() ==> pairs[i].0 != pairs[j].0,
        forall|i: int| 0 <= i < pairs.len() ==> wallets.contains(pairs[i].0),
{
    assert forall|i: int| 0 <= i < pairs.len() implies wallets.contains(pairs[i].0) by {
        assert(resolved_owners(known, wallets, fetched).contains_pair(pairs[i].0, pairs[i].1));
    }
}

/// A batch resolution never forgets or replaces what the cache knew.
pub proof fn lemma_resolution_keeps_known(
    known: Map<Address, Address>,
    wallets: Seq<Address>,
    fetched: Map<Address, Address>,
)
    ensures
        forall|k: Address| known.dom().contains(k) ==> owners_after(known, wallets, fetched).contains_pair(k, known[k]),
{
}

} // verus!
