use lru::LruCache;
use std::time::Instant;
use vstd::prelude::*;

use crate::lru_store::{
    find, lru_cap, lru_get, lru_items, lru_new, lru_pop, lru_put, put_items, touched, CacheEntry,
    CacheKey, EntryView,
};
use crate::message::{wire_with_id, Answer, DnsMessage, MessageView, QueryView};

verus! {

/// The capacity of a cache made by `Cache::new`.
pub const DEFAULT_CAPACITY: usize = 1024;

#[verifier::external_type_specification]
#[verifier::external_body]
pub struct ExInstant(Instant);

/// Relies on `Instant::now`: a point on the monotonic clock.
#[verifier::external_body]
fn clock_start() -> Instant {
    Instant::now()
}

/// Relies on `Instant::elapsed`: whole milliseconds since `origin`; nothing
/// is known of the value.
#[verifier::external_body]
fn millis_since(origin: &Instant) -> u64 {
    origin.elapsed().as_millis() as u64
}

/// ASCII letters of a name folded to lower case, as DNS compares names.
pub open spec fn ascii_lower(s: Seq<u8>) -> Seq<u8> {
    s.map_values(|b: u8| if 65 <= b <= 90 { (b + 32) as u8 } else { b })
}

/// The cache key of a message: its first question, with the name in lower case.
pub open spec fn key_of(m: MessageView) -> Option<QueryView> {
    match m.query {
        Some(q) => Some((ascii_lower(q.0), q.1, q.2)),
        None => None,
    }
}

/// The smallest TTL among the answers (zero where there is none).
pub open spec fn min_ttl(answers: Seq<Answer>) -> u32
    decreases answers.len(),
{
    if answers.len() == 0 {
        0
    } else if answers.len() == 1 {
        answers[0].ttl
    } else {
        let rest = min_ttl(answers.drop_first());
        if answers[0].ttl <= rest {
            answers[0].ttl
        } else {
            rest
        }
    }
}

/// Milliseconds from `from` to `now`, zero if `now` is earlier.
pub open spec fn elapsed(from: u64, now: u64) -> int {
    if now >= from {
        now - from
    } else {
        0
    }
}

/// An entry is fresh while less than its TTL has elapsed since it was stored.
pub open spec fn is_fresh(e: EntryView, now: u64) -> bool {
    elapsed(e.stored_at, now) < e.ttl as int * 1000
}

/// The state of a cache: its entries, most recently used first, and its capacity.
pub struct CacheView {
    pub items: Seq<(QueryView, EntryView)>,
    pub capacity: nat,
}

impl CacheView {
    /// Every stored message has a full header, and no key is stored twice.
    pub open spec fn wf(self) -> bool {
        &&& forall|i: int| 0 <= i < self.items.len() ==> (#[trigger] self.items[i]).1.message.wf()
        &&& forall|i: int, j: int|
            0 <= i < j < self.items.len() ==> (#[trigger] self.items[i]).0 != (#[trigger] self.items[j]).0
    }

    /// Whether an entry is stored under `k`.
    pub open spec fn contains(self, k: QueryView) -> bool {
        find(self.items, k) >= 0
    }

    /// The state after `m` is stored at time `now`: a message without a
    /// question or without answers leaves the cache as it is; otherwise it is
    /// stored under its key, fresh for the smallest TTL of its answers.
    pub open spec fn put(self, m: MessageView, now: u64) -> CacheView {
        match key_of(m) {
            None => self,
            Some(k) => if m.answers.len() == 0 {
                self
            } else {
                CacheView {
                    items: put_items(
                        self.items,
                        self.capacity,
                        k,
                        EntryView { message: m, stored_at: now, ttl: min_ttl(m.answers) },
                    ),
                    ..self
                }
            },
        }
    }

    /// The state and the answer after a lookup for `req` at time `now`: a
    /// fresh entry under the request's key is returned under the request's
    /// ID and becomes the most recently used; an expired one is removed and
    /// nothing is returned.
    pub open spec fn get(self, req: MessageView, now: u64) -> (CacheView, Option<MessageView>) {
        match key_of(req) {
            None => (self, None),
            Some(k) => {
                let i = find(self.items, k);
                if i < 0 {
                    (self, None)
                } else if is_fresh(self.items[i].1, now) {
                    (
                        CacheView { items: touched(self.items, i), ..self },
                        Some(self.items[i].1.message.with_id(req.id())),
                    )
                } else {
                    (CacheView { items: self.items.remove(i), ..self }, None)
                }
            },
        }
    }
}

pub open spec fn opt_view(r: Option<DnsMessage>) -> Option<MessageView> {
    match r {
        Some(m) => Some(m@),
        None => None,
    }
}

/// A response cache bounded in size, with least-recently-used eviction and
/// per-entry expiry.
pub struct Cache {
    store: LruCache<CacheKey, CacheEntry>,
    origin: Instant,
}

impl View for Cache {
    type V = CacheView;

    closed spec fn view(&self) -> CacheView {
        CacheView { items: lru_items(self.store), capacity: lru_cap(self.store) }
    }
}

/// The cache key of a message, if it has a question.
pub fn cache_key(m: &DnsMessage) -> (r: Option<CacheKey>)
    ensures
        match r {
            Some(k) => key_of(m@) == Some((k.0@, k.1, k.2)),
            None => key_of(m@) is None,
        },
{
    match &m.query {
        None => None,
        Some(q) => {
            let name = &q.0;
            let mut lower: Vec<u8> = Vec::new();
            let mut i: usize = 0;
            while i < name.len()
                invariant
                    i <= name@.len(),
                    lower@ =~= ascii_lower(name@).subrange(0, i as int),
                decreases name@.len() - i,
            {
                let b = name[i];
                if 65 <= b && b <= 90 {
                    lower.push(b + 32);
                } else {
                    lower.push(b);
                }
                i = i + 1;
                assert(lower@ =~= ascii_lower(name@).subrange(0, i as int));
            }
            assert(lower@ =~= ascii_lower(name@));
            Some((lower, q.1, q.2))
        },
    }
}

proof fn lemma_min_ttl_step(a: Seq<Answer>, i: int)
    requires
        0 < i < a.len(),
    ensures
        min_ttl(a.subrange(0, i + 1)) == if a[i].ttl < min_ttl(a.subrange(0, i)) {
            a[i].ttl
        } else {
            min_ttl(a.subrange(0, i))
        },
    decreases i,
{
    let s = a.subrange(0, i + 1);
    assert(s.drop_first() =~= a.subrange(1, i + 1));
    if i == 1 {
        assert(a.subrange(0, 1).len() == 1);
        assert(s.drop_first().len() == 1);
        assert(min_ttl(s.drop_first()) == a[1].ttl);
    } else {
        let b = a.drop_first();
        assert(b.subrange(0, i) =~= a.subrange(1, i + 1));
        assert(b.subrange(0, i - 1) =~= a.subrange(1, i));
        assert(a.subrange(0, i).drop_first() =~= a.subrange(1, i));
        lemma_min_ttl_step(b, i - 1);
        assert(min_ttl(s) == if a[0].ttl <= min_ttl(s.drop_first()) {
            a[0].ttl
        } else {
            min_ttl(s.drop_first())
        });
        let t = a.subrange(0, i);
        assert(min_ttl(t) == if a[0].ttl <= min_ttl(t.drop_first()) {
            a[0].ttl
        } else {
            min_ttl(t.drop_first())
        });
    }
}

/// The smallest TTL among the answers.
pub fn smallest_ttl(answers: &Vec<Answer>) -> (r: u32)
    requires
        answers@.len() > 0,
    ensures
        r == min_ttl(answers@),
{
    let mut m = answers[0].ttl;
    let mut i: usize = 1;
    assert(answers@.subrange(0, 1).len() == 1);
    while i < answers.len()
        invariant
            1 <= i <= answers@.len(),
            m == min_ttl(answers@.subrange(0, i as int)),
        decreases answers@.len() - i,
    {
        proof {
            lemma_min_ttl_step(answers@, i as int);
        }
        if answers[i].ttl < m {
            m = answers[i].ttl;
        }
        i = i + 1;
    }
    assert(answers@.subrange(0, answers@.len() as int) =~= answers@);
    m
}

/// `find` gives the first index of an entry under `k`, or -1 when there is none.
pub proof fn lemma_find(items: Seq<(QueryView, EntryView)>, k: QueryView)
    ensures
        -1 <= find(items, k) < items.len(),
        find(items, k) >= 0 ==> items[find(items, k)].0 == k,
        find(items, k) < 0 ==> forall|j: int| 0 <= j < items.len() ==> items[j].0 != k,
        forall|j: int| 0 <= j < find(items, k) ==> items[j].0 != k,
    decreases items.len(),
{
    if items.len() > 0 && items[0].0 != k {
        let rest = items.drop_first();
        lemma_find(rest, k);
        assert forall|j: int| 0 < j < items.len() implies items[j] == rest[j - 1] by {}
    }
}

proof fn lemma_put_items_wf(
    items: Seq<(QueryView, EntryView)>,
    cap: nat,
    k: QueryView,
    v: EntryView,
)
    requires
        (CacheView { items, capacity: cap }).wf(),
        v.message.wf(),
    ensures
        (CacheView { items: put_items(items, cap, k, v), capacity: cap }).wf(),
{
    lemma_find(items, k);
    let i = find(items, k);
    if i >= 0 {
        lemma_remove_wf(items, i, cap);
        let t = items.remove(i);
        assert forall|j: int| 0 <= j < t.len() implies (#[trigger] t[j]).0 != k by {
            assert(t[j] == if j < i { items[j] } else { items[j + 1] });
        }
        lemma_cons_wf(t, cap, k, v);
    } else if cap != 0 && items.len() == cap {
        let t = items.drop_last();
        assert forall|j: int| 0 <= j < t.len() implies (#[trigger] t[j]).1.message.wf() && t[j].0 != k by {
            assert(t[j] == items[j]);
        }
        assert forall|a: int, b: int| 0 <= a < b < t.len() implies (#[trigger] t[a]).0 != (#[trigger] t[b]).0 by {
            assert(t[a] == items[a] && t[b] == items[b]);
        }
        lemma_cons_wf(t, cap, k, v);
    } else if cap != 0 {
        lemma_cons_wf(items, cap, k, v);
    }
}

proof fn lemma_cons_wf(t: Seq<(QueryView, EntryView)>, cap: nat, k: QueryView, v: EntryView)
    requires
        (CacheView { items: t, capacity: cap }).wf(),
        v.message.wf(),
        forall|j: int| 0 <= j < t.len() ==> (#[trigger] t[j]).0 != k,
    ensures
        (CacheView { items: seq![(k, v)] + t, capacity: cap }).wf(),
{
    let r = seq![(k, v)] + t;
    assert forall|j: int| 0 < j < r.len() implies (#[trigger] r[j]) == t[j - 1] by {}
    assert forall|a: int, b: int| 0 <= a < b < r.len() implies (#[trigger] r[a]).0 != (#[trigger] r[b]).0 by {
        assert(r[b] == t[b - 1]);
        if a > 0 {
            assert(r[a] == t[a - 1]);
        }
    }
}

proof fn lemma_remove_wf(items: Seq<(QueryView, EntryView)>, i: int, cap: nat)
    requires
        (CacheView { items, capacity: cap }).wf(),
        0 <= i < items.len(),
    ensures
        (CacheView { items: items.remove(i), capacity: cap }).wf(),
        (CacheView { items: touched(items, i), capacity: cap }).wf(),
        touched(items, i).remove(0) == items.remove(i),
        find(touched(items, i), items[i].0) == 0,
        forall|j: int| 0 <= j < items.remove(i).len() ==> (#[trigger] items.remove(i)[j]).0 != items[i].0,
{
    let r = items.remove(i);
    assert forall|j: int| 0 <= j < r.len() implies (#[trigger] r[j]) == if j < i { items[j] } else { items[j + 1] } by {}
    assert forall|j: int| 0 <= j < r.len() implies (#[trigger] r[j]).1.message.wf() && r[j].0 != items[i].0 by {
        assert(r[j] == if j < i { items[j] } else { items[j + 1] });
    }
    assert forall|a: int, b: int| 0 <= a < b < r.len() implies (#[trigger] r[a]).0 != (#[trigger] r[b]).0 by {
        assert(r[a] == if a < i { items[a] } else { items[a + 1] });
        assert(r[b] == if b < i { items[b] } else { items[b + 1] });
    }
    lemma_cons_wf(r, cap, items[i].0, items[i].1);
    assert(touched(items, i) =~= seq![(items[i].0, items[i].1)] + r);
    assert(touched(items, i).remove(0) =~= r);
}

impl Cache {
    /// An empty cache holding at most `DEFAULT_CAPACITY` entries.
    pub fn new() -> (r: Cache)
        ensures
            r@.items.len() == 0,
            r@.capacity == DEFAULT_CAPACITY,
            r@.wf(),
    {
        Cache::with_capacity(DEFAULT_CAPACITY)
    }

    /// An empty cache holding at most `capacity` entries.
    pub fn with_capacity(capacity: usize) -> (r: Cache)
        ensures
            r@.items.len() == 0,
            r@.capacity == capacity,
            r@.wf(),
    {
        Cache { store: lru_new(capacity), origin: clock_start() }
    }

    /// Stores `message` as read at time `now` (milliseconds on the cache's clock).
    pub fn put_at(&mut self, message: DnsMessage, now: u64)
        requires
            old(self)@.wf(),
            message@.wf(),
        ensures
            final(self)@ == old(self)@.put(message@, now),
            final(self)@.wf(),
    {
        let key = match cache_key(&message) {
            Some(k) => k,
            None => return ,
        };
        if message.answers.len() == 0 {
            return ;
        }
        let ttl = smallest_ttl(&message.answers);
        let entry = CacheEntry { message, stored_at: now, ttl };
        proof {
            lemma_put_items_wf(self@.items, self@.capacity, (key.0@, key.1, key.2), entry@);
        }
        lru_put(&mut self.store, key, entry);
    }

    /// Looks up the answer to `message` at time `now` (milliseconds on the
    /// cache's clock).
    pub fn get_at(&mut self, message: &DnsMessage, now: u64) -> (r: Option<DnsMessage>)
        requires
            old(self)@.wf(),
            message@.wf(),
        ensures
            (final(self)@, opt_view(r)) == old(self)@.get(message@, now),
            final(self)@.wf(),
    {
        let key = match cache_key(message) {
            Some(k) => k,
            None => return None,
        };
        let ghost items = self@.items;
        proof {
            lemma_find(items, (key.0@, key.1, key.2));
        }
        let found = match lru_get(&mut self.store, &key) {
            None => return None,
            Some(e) => {
                let age: u64 = if now >= e.stored_at {
                    now - e.stored_at
                } else {
                    0
                };
                if age < e.ttl as u64 * 1000 {
                    Some(e.message.with_id(message.id()))
                } else {
                    None
                }
            },
        };
        proof {
            lemma_remove_wf(items, find(items, (key.0@, key.1, key.2)), self@.capacity);
        }
        if found.is_none() {
            lru_pop(&mut self.store, &key);
        }
        found
    }

    /// The current time on the cache's clock, in milliseconds.
    pub fn now(&self) -> u64 {
        millis_since(&self.origin)
    }

    /// Stores `message`, stamped with the current time.
    pub fn put(&mut self, message: DnsMessage)
        requires
            old(self)@.wf(),
            message@.wf(),
        ensures
            exists|now: u64| final(self)@ == old(self)@.put(message@, now),
            final(self)@.wf(),
    {
        let now = millis_since(&self.origin);
        self.put_at(message, now);
    }

    /// Looks up the answer to `message` at the current time.
    pub fn get(&mut self, message: &DnsMessage) -> (r: Option<DnsMessage>)
        requires
            old(self)@.wf(),
            message@.wf(),
        ensures
            exists|now: u64| (final(self)@, opt_view(r)) == old(self)@.get(message@, now),
            final(self)@.wf(),
    {
        let now = millis_since(&self.origin);
        self.get_at(message, now)
    }
}

impl Default for Cache {
    fn default() -> (r: Cache)
        ensures
            r@.items.len() == 0,
            r@.capacity == DEFAULT_CAPACITY,
            r@.wf(),
    {
        Cache::new()
    }
}

/// After an entry under `k` goes in front of `t`, a key is present exactly
/// when it is `k` or was present in `t`; `k` itself is found at the front.
proof fn lemma_contains_cons(t: Seq<(QueryView, EntryView)>, k: QueryView, v: EntryView, q: QueryView)
    ensures
        find(seq![(k, v)] + t, q) >= 0 <==> (q == k || find(t, q) >= 0),
        find(seq![(k, v)] + t, k) == 0,
{
    let r = seq![(k, v)] + t;
    lemma_find(r, q);
    lemma_find(t, q);
    assert(r.drop_first() =~= t);
    if find(t, q) >= 0 {
        assert(r[find(t, q) + 1] == t[find(t, q)]);
    }
    if find(r, q) > 0 {
        assert(r[find(r, q)] == t[find(r, q) - 1]);
    }
}

/// Storing a message without a question, or without answers, changes nothing.
pub proof fn lemma_uncacheable_put_changes_nothing(c: CacheView, m: MessageView, now: u64)
    requires
        key_of(m) is None || m.answers.len() == 0,
    ensures
        c.put(m, now) == c,
{
}

/// Storing a cacheable message and then asking for the same question under
/// another ID, while the answer is fresh, returns the stored answer carrying
/// the requester's ID rather than the stored one.
pub proof fn lemma_hit_returns_request_id(
    c: CacheView,
    m: MessageView,
    req: MessageView,
    stored_at: u64,
    now: u64,
)
    requires
        c.wf(),
        c.capacity > 0,
        m.wf(),
        req.wf(),
        key_of(m) is Some,
        key_of(req) == key_of(m),
        m.answers.len() > 0,
        elapsed(stored_at, now) < min_ttl(m.answers) as int * 1000,
    ensures
        c.put(m, stored_at).get(req, now).1 == Some(m.with_id(req.id())),
        m.with_id(req.id()).id() == req.id(),
{
    let k = key_of(m)->0;
    let v = EntryView { message: m, stored_at, ttl: min_ttl(m.answers) };
    lemma_find(c.items, k);
    let i = find(c.items, k);
    if i >= 0 {
        lemma_contains_cons(c.items.remove(i), k, v, k);
    } else if c.items.len() == c.capacity {
        lemma_contains_cons(c.items.drop_last(), k, v, k);
    } else {
        lemma_contains_cons(c.items, k, v, k);
    }
    let w = wire_with_id(m.wire, req.id());
    assert(w[0] as int * 256 + w[1] as int == req.id()) by (nonlinear_arith)
        requires
            w[0] == (req.id() / 256) as u8,
            w[1] == (req.id() % 256) as u8,
    ;
}

/// An entry stored with a TTL of zero is never returned, and the lookup that
/// meets it removes it, so a later lookup of the same question at any time
/// finds nothing either.
pub proof fn lemma_expired_entry_removed(
    c: CacheView,
    m: MessageView,
    req: MessageView,
    stored_at: u64,
    now: u64,
    later: u64,
)
    requires
        c.wf(),
        m.wf(),
        key_of(m) is Some,
        key_of(req) == key_of(m),
        m.answers.len() > 0,
        min_ttl(m.answers) == 0,
    ensures
        c.put(m, stored_at).get(req, now).1 is None,
        !c.put(m, stored_at).get(req, now).0.contains(key_of(m)->0),
        c.put(m, stored_at).get(req, now).0.get(req, later).1 is None,
{
    let k = key_of(m)->0;
    let c1 = c.put(m, stored_at);
    lemma_put_items_wf(c.items, c.capacity, k, EntryView { message: m, stored_at, ttl: 0 });
    lemma_find(c1.items, k);
    let i = find(c1.items, k);
    if i >= 0 {
        lemma_remove_wf(c1.items, i, c1.capacity);
        lemma_find(c1.items.remove(i), k);
    }
}

/// When the cache is full, storing a message under a new key evicts the
/// least recently used entry, and no other.
pub proof fn lemma_full_cache_evicts_least_recent(c: CacheView, m: MessageView, now: u64)
    requires
        c.wf(),
        c.capacity > 0,
        c.items.len() == c.capacity,
        m.answers.len() > 0,
        key_of(m) is Some,
        !c.contains(key_of(m)->0),
    ensures
        !c.put(m, now).contains(c.items.last().0),
        forall|j: int| 0 <= j < c.items.len() - 1 ==> c.put(m, now).contains(#[trigger] c.items[j].0),
        c.put(m, now).contains(key_of(m)->0),
{
    let k = key_of(m)->0;
    let v = EntryView { message: m, stored_at: now, ttl: min_ttl(m.answers) };
    let t = c.items.drop_last();
    let last = c.items.last().0;
    lemma_find(c.items, k);
    lemma_contains_cons(t, k, v, last);
    lemma_find(t, last);
    if find(t, last) >= 0 {
        assert(t[find(t, last)] == c.items[find(t, last)]);
    }
    assert forall|j: int| 0 <= j < c.items.len() - 1 implies c.put(m, now).contains(
        #[trigger] c.items[j].0,
    ) by {
        lemma_contains_cons(t, k, v, c.items[j].0);
        lemma_find(t, c.items[j].0);
        assert(t[j] == c.items[j]);
    }
}

/// A fresh entry that a lookup has just used is not the one evicted when a
/// full cache (of capacity two or more) then takes a new key.
pub proof fn lemma_lookup_protects_from_eviction(
    c: CacheView,
    req: MessageView,
    m: MessageView,
    now: u64,
    later: u64,
)
    requires
        c.wf(),
        c.capacity >= 2,
        c.items.len() == c.capacity,
        key_of(req) is Some,
        c.contains(key_of(req)->0),
        is_fresh(c.items[find(c.items, key_of(req)->0)].1, now),
        m.answers.len() > 0,
        key_of(m) is Some,
        !c.contains(key_of(m)->0),
    ensures
        c.get(req, now).0.put(m, later).contains(key_of(req)->0),
{
    let q = key_of(req)->0;
    let i = find(c.items, q);
    lemma_find(c.items, q);
    lemma_remove_wf(c.items, i, c.capacity);
    let c1 = c.get(req, now).0;
    assert(c1.items == touched(c.items, i));
    let k = key_of(m)->0;
    let v = EntryView { message: m, stored_at: later, ttl: min_ttl(m.answers) };
    lemma_find(c.items, k);
    lemma_find(c1.items, k);
    if find(c1.items, k) >= 0 {
        let j = find(c1.items, k);
        if j == 0 {
            assert(c1.items[0] == c.items[i]);
        } else {
            let r = c.items.remove(i);
            assert(c1.items[j] == r[j - 1]);
            assert(r[j - 1] == if j - 1 < i { c.items[j - 1] } else { c.items[j] });
        }
    }
    let t = c1.items.drop_last();
    assert(t[0] == c1.items[0]);
    lemma_find(t, q);
    lemma_contains_cons(t, k, v, q);
}

} // verus!
