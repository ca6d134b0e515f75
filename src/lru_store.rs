use lru::LruCache;
use vstd::prelude::*;

use crate::message::{DnsMessage, MessageView, QueryView};

verus! {

/// A cache key: the first question's name (ASCII lower case), type and class.
pub type CacheKey = (Vec<u8>, u16, u16);

/// A stored answer, when it was stored (milliseconds on the cache's clock)
/// and how long it stays fresh (seconds).
pub struct CacheEntry {
    pub message: DnsMessage,
    pub stored_at: u64,
    pub ttl: u32,
}

pub struct EntryView {
    pub message: MessageView,
    pub stored_at: u64,
    pub ttl: u32,
}

impl View for CacheEntry {
    type V = EntryView;

    open spec fn view(&self) -> EntryView {
        EntryView { message: self.message@, stored_at: self.stored_at, ttl: self.ttl }
    }
}

pub open spec fn key_view(k: CacheKey) -> QueryView {
    (k.0@, k.1, k.2)
}

#[verifier::external_type_specification]
#[verifier::external_body]
#[verifier::reject_recursive_types(K)]
#[verifier::reject_recursive_types(V)]
#[verifier::reject_recursive_types(S)]
pub struct ExLruCache<K, V, S>(LruCache<K, V, S>);

#[verifier::external_type_specification]
#[verifier::external_body]
pub struct ExDefaultHasher(lru::DefaultHasher);

/// The entries of an LRU cache, most recently used first.
pub uninterp spec fn lru_items(c: LruCache<CacheKey, CacheEntry>) -> Seq<(QueryView, EntryView)>;

/// The capacity that an LRU cache was made with.
pub uninterp spec fn lru_cap(c: LruCache<CacheKey, CacheEntry>) -> nat;

/// The index of the entry under `k`, or -1.
pub open spec fn find(items: Seq<(QueryView, EntryView)>, k: QueryView) -> int
    decreases items.len(),
{
    if items.len() == 0 {
        -1
    } else if items[0].0 == k {
        0
    } else {
        let i = find(items.drop_first(), k);
        if i < 0 {
            -1
        } else {
            i + 1
        }
    }
}

/// The entries after the one at `i` was used: it moves to the front.
pub open spec fn touched(items: Seq<(QueryView, EntryView)>, i: int) -> Seq<(QueryView, EntryView)> {
    seq![items[i]] + items.remove(i)
}

/// The entries after `(k, v)` was put into a cache of capacity `cap`.
pub open spec fn put_items(
    items: Seq<(QueryView, EntryView)>,
    cap: nat,
    k: QueryView,
    v: EntryView,
) -> Seq<(QueryView, EntryView)> {
    let i = find(items, k);
    if i >= 0 {
        seq![(k, v)] + items.remove(i)
    } else if cap == 0 {
        items
    } else if items.len() == cap {
        seq![(k, v)] + items.drop_last()
    } else {
        seq![(k, v)] + items
    }
}

/// Relies on lru's `LruCache::new`: an empty cache that holds at most `cap` entries.
#[verifier::external_body]
pub(crate) fn lru_new(cap: usize) -> (r: LruCache<CacheKey, CacheEntry>)
    ensures
        lru_items(r) == Seq::<(QueryView, EntryView)>::empty(),
        lru_cap(r) == cap,
{
    LruCache::new(cap)
}

/// Relies on lru's `LruCache::put`: an existing entry under the key is
/// replaced and moves to the front; otherwise, unless the capacity is zero,
/// the new entry goes to the front, and a full cache drops its least
/// recently used entry.
#[verifier::external_body]
pub(crate) fn lru_put(c: &mut LruCache<CacheKey, CacheEntry>, k: CacheKey, v: CacheEntry)
    ensures
        lru_items(*final(c)) == put_items(lru_items(*old(c)), lru_cap(*old(c)), key_view(k), v@),
        lru_cap(*final(c)) == lru_cap(*old(c)),
{
    c.put(k, v);
}

/// Relies on lru's `LruCache::get`: the entry under the key, if any, which
/// then moves to the front.
#[verifier::external_body]
pub(crate) fn lru_get<'a>(c: &'a mut LruCache<CacheKey, CacheEntry>, k: &CacheKey) -> (r: Option<
    &'a CacheEntry,
>)
    ensures
        ({
            let i = find(lru_items(*old(c)), key_view(*k));
            if i >= 0 {
                r matches Some(e) && e@ == lru_items(*old(c))[i].1 && lru_items(*final(c))
                    == touched(lru_items(*old(c)), i)
            } else {
                r is None && lru_items(*final(c)) == lru_items(*old(c))
            }
        }),
        lru_cap(*final(c)) == lru_cap(*old(c)),
{
    c.get(k)
}

/// Relies on lru's `LruCache::pop`: the entry under the key, if any, is removed.
#[verifier::external_body]
pub(crate) fn lru_pop(c: &mut LruCache<CacheKey, CacheEntry>, k: &CacheKey)
    ensures
        ({
            let i = find(lru_items(*old(c)), key_view(*k));
            if i >= 0 {
                lru_items(*final(c)) == lru_items(*old(c)).remove(i)
            } else {
                lru_items(*final(c)) == lru_items(*old(c))
            }
        }),
        lru_cap(*final(c)) == lru_cap(*old(c)),
{
    c.pop(k);
}

} // verus!
