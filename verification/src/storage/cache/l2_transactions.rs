//! The transaction tier: a cache bounded in size and in the age of its
//! entries.

use crate::pipeline::types::{Transaction, TransactionView};
use vstd::prelude::*;

verus! {

/// Seconds that a cached transaction lives after its insert.
pub const TRANSACTION_TTL_SECS: u64 = 3600;

/// `moka::sync::Cache`, taken as an opaque value.
#[verifier::external_type_specification]
#[verifier::external_body]
#[verifier::reject_recursive_types(K)]
#[verifier::reject_recursive_types(V)]
#[verifier::reject_recursive_types(S)]
pub struct ExMokaCache<K, V, S>(moka::sync::Cache<K, V, S>);

/// The cache that holds the transactions.
pub type TransactionCache = moka::sync::Cache<String, Transaction>;

/// What has been put into a cache: under each key the value of the last
/// insert. The cache itself may have let go of any of it since, under
/// capacity pressure or by age.
pub uninterp spec fn inserted_entries(cache: moka::sync::Cache<String, Transaction>) -> Map<
    Seq<char>,
    TransactionView,
>;

/// The number of entries that a cache was built to hold.
pub uninterp spec fn max_entries(cache: moka::sync::Cache<String, Transaction>) -> u64;

/// The seconds that a cache was built to keep an entry after its insert.
pub uninterp spec fn time_to_live_secs(cache: moka::sync::Cache<String, Transaction>) -> u64;

/// `moka::sync::Cache::builder`, with `max_capacity`, `time_to_live` and
/// `build`: a cache that holds nothing yet and carries the two limits it
/// was given. The builder refuses a time to live of more than a thousand
/// years, which the bound on `ttl_secs` keeps out.
#[verifier::external_body]
fn build_cache(max_capacity: u64, ttl_secs: u64) -> (built: TransactionCache)
    requires
        ttl_secs <= 31_536_000_000,
    ensures
        inserted_entries(built) == (Map::<Seq<char>, TransactionView>::empty()),
        max_entries(built) == max_capacity,
        time_to_live_secs(built) == ttl_secs,
{
    moka::sync::Cache::builder()
        .max_capacity(max_capacity)
        .time_to_live(std::time::Duration::from_secs(ttl_secs))
        .build()
}

/// `moka::sync::Cache::get`: a clone of the value held under `key`, if the
/// cache still holds one. What it hands out is what was last inserted under
/// that key; a cache built for no entries hands out nothing.
#[verifier::external_body]
fn cache_get(cache: &TransactionCache, key: &str) -> (found: Option<Transaction>)
    ensures
        found matches Some(record) ==> inserted_entries(*cache).contains_key(key@) && record@ == inserted_entries(
            *cache,
        )[key@],
        max_entries(*cache) == 0 ==> found is None,
{
    cache.get(key)
}

/// `moka::sync::Cache::insert`: the value is recorded under the key, in
/// place of an earlier one; the limits of the cache stay as they were.
#[verifier::external_body]
fn cache_insert(cache: &mut TransactionCache, key: String, value: Transaction)
    ensures
        inserted_entries(*final(cache)) == inserted_entries(*old(cache)).insert(key@, value@),
        max_entries(*final(cache)) == max_entries(*old(cache)),
        time_to_live_secs(*final(cache)) == time_to_live_secs(*old(cache)),
{
    cache.insert(key, value)
}

/// Recent transactions by signature, bounded in count and in age.
pub struct L2Transactions {
    cache: TransactionCache,
}

impl L2Transactions {
    /// What has been inserted: under each signature the record of the last
    /// insert. A record may have left the cache since.
    pub closed spec fn inserted(&self) -> Map<Seq<char>, TransactionView> {
        inserted_entries(self.cache)
    }

    /// The configured capacity.
    pub closed spec fn capacity(&self) -> u64 {
        max_entries(self.cache)
    }

    /// The seconds after its insert at which a record expires.
    pub closed spec fn ttl_secs(&self) -> u64 {
        time_to_live_secs(self.cache)
    }

    pub fn new(max_size: usize) -> (cache: L2Transactions)
        ensures
            cache.inserted() == Map::<Seq<char>, TransactionView>::empty(),
            cache.capacity() == max_size,
            cache.ttl_secs() == TRANSACTION_TTL_SECS,
    {
        L2Transactions { cache: build_cache(max_size as u64, TRANSACTION_TTL_SECS) }
    }

    pub fn get(&self, signature: &str) -> (found: Option<Transaction>)
        ensures
            found matches Some(record) ==> self.inserted().contains_key(signature@) && record@
                == self.inserted()[signature@],
            self.capacity() == 0 ==> found is None,
    {
        cache_get(&self.cache, signature)
    }

    pub fn insert(&mut self, tx: Transaction)
        ensures
            final(self).inserted() == old(self).inserted().insert(tx@.signature, tx@),
            final(self).capacity() == old(self).capacity(),
            final(self).ttl_secs() == old(self).ttl_secs(),
    {
        let key = tx.signature.clone();
        cache_insert(&mut self.cache, key, tx)
    }
}

/// Upsert idempotence: a second insert of the same record leaves what the
/// cache has been given as the first left it.
pub proof fn lemma_insert_twice(inserted: Map<Seq<char>, TransactionView>, record: TransactionView)
    ensures
        inserted.insert(record.signature, record).insert(record.signature, record)
            == inserted.insert(record.signature, record),
{
    assert(inserted.insert(record.signature, record).insert(record.signature, record)
        =~= inserted.insert(record.signature, record));
}

} // verus!
