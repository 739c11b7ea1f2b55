//! Rate limiting: configuration, key derivation and fixed/sliding window accounting.
//!
//! Times are microseconds on a monotonic clock that the caller reads. The
//! token bucket computes with floating point; its arithmetic is the caller's
//! `refill` function, and the store keeps its state (the bits of the `f64`
//! token count and the time of the last refill).
use vstd::prelude::*;
use vstd::string::*;
use crate::keyed::{find_key, index_of_key};
use crate::text::{concat2, concat3, concat4, owned};

verus! {

/// Which requests share a rate-limit budget.
#[derive(Debug)]
pub enum LimitStrategy {
    /// One budget per client address.
    PerIP,
    /// One budget per authenticated user.
    PerUser,
    /// One budget per request path.
    PerRoute,
    /// One budget per client address and path.
    PerIPAndRoute,
    /// One budget per user and path.
    PerUserAndRoute,
    /// Several configurations; keys are derived from the first.
    Composite(Vec<RateLimitConfig>),
}

/// How requests are counted against the budget.
#[derive(PartialEq, Eq, Structural, Clone, Copy, Debug)]
pub enum WindowType {
    FixedWindow,
    SlidingWindow,
    TokenBucket,
}

/// Rate-limit configuration. The window length is held in whole seconds.
#[derive(Debug)]
pub struct RateLimitConfig {
    pub strategy: LimitStrategy,
    pub requests_per_window: u64,
    pub window_duration_secs: u64,
    pub burst_allowance: u64,
    pub window_type: WindowType,
    pub enable_redis: bool,
    pub redis_key_prefix: String,
}

/// Microseconds in a second.
pub open spec fn micros_per_sec() -> u64 {
    1_000_000
}

/// Microseconds from `since` to `now`, zero when `now` is earlier.
pub open spec fn elapsed_us(now: u64, since: u64) -> u64 {
    if now >= since {
        (now - since) as u64
    } else {
        0
    }
}

/// Whether at least `secs` whole seconds lie between `since` and `now`.
pub open spec fn at_least_secs(now: u64, since: u64, secs: u64) -> bool {
    elapsed_us(now, since) / micros_per_sec() >= secs
}

/// The requests a window admits: its budget and the burst allowance.
pub open spec fn window_limit(c: &RateLimitConfig) -> int {
    c.requests_per_window + c.burst_allowance
}

/// The rate-limit state of one key.
#[derive(Debug)]
pub struct RateLimitEntry {
    pub request_count: u64,
    pub window_start: u64,
    pub request_times: Vec<u64>,
    pub available_tokens_bits: u64,
    pub last_refill: u64,
}

/// An entry by value.
pub struct EntryView {
    pub request_count: u64,
    pub window_start: u64,
    pub request_times: Seq<u64>,
    pub available_tokens_bits: u64,
    pub last_refill: u64,
}

impl View for RateLimitEntry {
    type V = EntryView;

    open spec fn view(&self) -> EntryView {
        EntryView {
            request_count: self.request_count,
            window_start: self.window_start,
            request_times: self.request_times@,
            available_tokens_bits: self.available_tokens_bits,
            last_refill: self.last_refill,
        }
    }
}

/// A new entry at `now`: no requests, no tokens, window and refill starting now.
pub open spec fn new_entry(now: u64) -> EntryView {
    EntryView {
        request_count: 0,
        window_start: now,
        request_times: Seq::empty(),
        available_tokens_bits: 0,
        last_refill: now,
    }
}

impl RateLimitEntry {
    /// An entry created at `now`: no requests and no tokens.
    pub fn new(now: u64) -> (r: Self)
        ensures
            r@ == new_entry(now),
    {
        RateLimitEntry {
            request_count: 0,
            window_start: now,
            request_times: Vec::new(),
            available_tokens_bits: 0,
            last_refill: now,
        }
    }
}

/// The fixed-window verdict at `now` and the entry after it: a window at
/// least `window_duration_secs` old restarts empty; the request is admitted
/// while the count is under the limit, and counted when admitted.
pub open spec fn fixed_window(e: EntryView, c: &RateLimitConfig, now: u64) -> (bool, EntryView) {
    let e1 = if at_least_secs(now, e.window_start, c.window_duration_secs) {
        EntryView { window_start: now, request_count: 0, ..e }
    } else {
        e
    };
    let allowed = e1.request_count < window_limit(c);
    if allowed {
        (true, EntryView { request_count: (e1.request_count + 1) as u64, ..e1 })
    } else {
        (false, e1)
    }
}

/// Whether a request time is still inside the sliding window at `now`.
pub open spec fn in_window(t: u64, now: u64, secs: u64) -> bool {
    !at_least_secs(now, t, secs)
}

/// The request times still inside the window, in order.
pub open spec fn recent_times(ts: Seq<u64>, now: u64, secs: u64) -> Seq<u64>
    decreases ts.len(),
{
    if ts.len() == 0 {
        Seq::empty()
    } else if in_window(ts.last(), now, secs) {
        recent_times(ts.drop_last(), now, secs).push(ts.last())
    } else {
        recent_times(ts.drop_last(), now, secs)
    }
}

/// The sliding-window verdict at `now` and the entry after it: times older
/// than the window are dropped; the request is admitted while fewer than the
/// limit remain, and its time recorded when admitted.
pub open spec fn sliding_window(e: EntryView, c: &RateLimitConfig, now: u64) -> (bool, EntryView) {
    let ts = recent_times(e.request_times, now, c.window_duration_secs);
    if ts.len() < window_limit(c) {
        (true, EntryView { request_times: ts.push(now), ..e })
    } else {
        (false, EntryView { request_times: ts, ..e })
    }
}

/// One key's entry in the store.
#[derive(Debug)]
struct KeyedEntry {
    key: String,
    entry: RateLimitEntry,
}

/// The store's keyed entries by value.
pub type StoreSeq = Seq<(Seq<char>, EntryView)>;

/// Whether an entry survives a cleanup at `now`: its window began less than
/// `secs` seconds before.
pub open spec fn survives(e: EntryView, now: u64, secs: u64) -> bool {
    !at_least_secs(now, e.window_start, secs)
}

/// The keyed entries that survive a cleanup, in order.
pub open spec fn surviving(es: StoreSeq, now: u64, secs: u64) -> StoreSeq
    decreases es.len(),
{
    if es.len() == 0 {
        Seq::empty()
    } else if survives(es.last().1, now, secs) {
        surviving(es.drop_last(), now, secs).push(es.last())
    } else {
        surviving(es.drop_last(), now, secs)
    }
}

/// The keys of keyed entries.
pub open spec fn store_keys(es: StoreSeq) -> Seq<Seq<char>> {
    es.map_values(|e: (Seq<char>, EntryView)| e.0)
}

/// The entries left by the cleanup a check at `now` may run: expired ones
/// are dropped when 300 seconds have passed since the last cleanup.
pub open spec fn cleaned_pairs(pairs: StoreSeq, last_cleanup: u64, now: u64, config: &RateLimitConfig) -> StoreSeq {
    if at_least_secs(now, last_cleanup, 300) {
        surviving(pairs, now, (2 * config.window_duration_secs) as u64)
    } else {
        pairs
    }
}

/// When the last cleanup ran, after a check at `now`.
pub open spec fn cleanup_time(last_cleanup: u64, now: u64) -> u64 {
    if at_least_secs(now, last_cleanup, 300) {
        now
    } else {
        last_cleanup
    }
}

/// The entries once `key` is tracked: a new entry at the end when it was not.
pub open spec fn with_key(cleaned: StoreSeq, key: Seq<char>, now: u64) -> StoreSeq {
    if index_of_key(store_keys(cleaned), key) >= 0 {
        cleaned
    } else {
        cleaned.push((key, new_entry(now)))
    }
}

/// The position of `key` once it is tracked.
pub open spec fn key_slot(cleaned: StoreSeq, key: Seq<char>) -> int {
    let i = index_of_key(store_keys(cleaned), key);
    if i >= 0 {
        i
    } else {
        cleaned.len() as int
    }
}

/// What a check of `key` at `now` does to the entries `pairs`: after the
/// cleanup, `key`'s entry (a new one when it had none) is decided by the
/// configured window and is the only entry that changes. A token bucket is
/// decided by `refill`, given the token count, the microseconds since the
/// last refill and the window budget, burst and length; the refill time
/// becomes `now`.
pub open spec fn check_outcome<F: Fn(u64, u64, u64, u64, u64) -> (bool, u64)>(
    pairs: StoreSeq,
    last_cleanup: u64,
    after: StoreSeq,
    key: Seq<char>,
    config: &RateLimitConfig,
    now: u64,
    refill: F,
    r: Result<bool, String>,
) -> bool {
    let cleaned = cleaned_pairs(pairs, last_cleanup, now, config);
    let grown = with_key(cleaned, key, now);
    let j = key_slot(cleaned, key);
    let before = grown[j].1;
    let e = after[j].1;
    &&& 0 <= j < grown.len()
    &&& after == grown.update(j, (key, e))
    &&& r is Ok
    &&& match config.window_type {
        WindowType::FixedWindow => (r->Ok_0, e) == fixed_window(before, config, now),
        WindowType::SlidingWindow => (r->Ok_0, e) == sliding_window(before, config, now),
        WindowType::TokenBucket => call_ensures(
            refill,
            (
                before.available_tokens_bits,
                elapsed_us(now, before.last_refill),
                config.requests_per_window,
                config.burst_allowance,
                config.window_duration_secs,
            ),
            (r->Ok_0, e.available_tokens_bits),
        ) && e == EntryView { available_tokens_bits: e.available_tokens_bits, last_refill: now, ..before },
    }
}

/// Rate-limit state by key.
#[derive(Debug)]
pub struct RateLimitStore {
    entries: Vec<KeyedEntry>,
    last_cleanup: u64,
}

fn copy_entry(e: &RateLimitEntry) -> (r: RateLimitEntry)
    ensures
        r@ == e@,
{
    RateLimitEntry {
        request_count: e.request_count,
        window_start: e.window_start,
        request_times: copy_times(&e.request_times),
        available_tokens_bits: e.available_tokens_bits,
        last_refill: e.last_refill,
    }
}

impl RateLimitStore {
    /// The keyed entries, in order.
    pub closed spec fn pairs(&self) -> StoreSeq {
        self.entries@.map_values(|k: KeyedEntry| (k.key@, k.entry@))
    }

    /// When expired entries were last dropped.
    pub closed spec fn spec_last_cleanup(&self) -> u64 {
        self.last_cleanup
    }

    /// The entry of `key`, if tracked.
    pub open spec fn entry_of(&self, key: Seq<char>) -> Option<EntryView> {
        let i = index_of_key(store_keys(self.pairs()), key);
        if i >= 0 {
            Some(self.pairs()[i].1)
        } else {
            None
        }
    }

    /// An empty store whose cleanup clock starts at `now`.
    pub fn new(now: u64) -> (r: Self)
        ensures
            r.pairs().len() == 0,
            r.spec_last_cleanup() == now,
    {
        let r = RateLimitStore { entries: Vec::new(), last_cleanup: now };
        assert(r.pairs() =~= Seq::<(Seq<char>, EntryView)>::empty());
        r
    }

    fn key_list(&self) -> (r: Vec<String>)
        ensures
            r@.map_values(|s: String| s@) == store_keys(self.pairs()),
    {
        let mut r: Vec<String> = Vec::new();
        let mut i: usize = 0;
        while i < self.entries.len()
            invariant
                i <= self.entries.len(),
                r@.map_values(|s: String| s@) == store_keys(self.pairs()).take(i as int),
            decreases self.entries.len() - i,
        {
            let ghost before = r@;
            r.push(self.entries[i].key.clone());
            assert(r@.map_values(|s: String| s@) =~= before.map_values(|s: String| s@).push(
                self.entries@[i as int].key@,
            ));
            assert(r@.map_values(|s: String| s@) =~= store_keys(self.pairs()).take(i + 1));
            i = i + 1;
        }
        assert(r@.map_values(|s: String| s@) =~= store_keys(self.pairs()));
        r
    }

    /// Drops, at most once every 300 seconds, the entries whose window began
    /// at least twice the window length before `now`.
    pub fn cleanup_expired_entries(&mut self, config: &RateLimitConfig, now: u64)
        requires
            config.window_duration_secs <= u64::MAX / 2,
        ensures
            !at_least_secs(now, old(self).spec_last_cleanup(), 300) ==> final(self).pairs() == old(
                self,
            ).pairs() && final(self).spec_last_cleanup() == old(self).spec_last_cleanup(),
            at_least_secs(now, old(self).spec_last_cleanup(), 300) ==> final(self).pairs()
                == surviving(old(self).pairs(), now, (2 * config.window_duration_secs) as u64)
                && final(self).spec_last_cleanup() == now,
    {
        let waited = if now >= self.last_cleanup {
            now - self.last_cleanup
        } else {
            0
        };
        if waited / 1_000_000 < 300 {
            return;
        }
        let threshold = config.window_duration_secs * 2;
        let ghost ps = self.pairs();
        let mut kept: Vec<KeyedEntry> = Vec::new();
        let mut i: usize = 0;
        assert(ps.take(0) =~= Seq::<(Seq<char>, EntryView)>::empty());
        while i < self.entries.len()
            invariant
                i <= self.entries.len(),
                ps == self.pairs(),
                kept@.map_values(|k: KeyedEntry| (k.key@, k.entry@)) == surviving(
                    ps.take(i as int),
                    now,
                    threshold,
                ),
            decreases self.entries.len() - i,
        {
            assert(ps.take(i + 1).drop_last() =~= ps.take(i as int));
            assert(ps.take(i + 1).last() == ps[i as int]);
            let e = &self.entries[i];
            let age = if now >= e.entry.window_start {
                now - e.entry.window_start
            } else {
                0
            };
            if age / 1_000_000 < threshold {
                let ghost before = kept@;
                let copy = KeyedEntry { key: e.key.clone(), entry: copy_entry(&e.entry) };
                kept.push(copy);
                assert(kept@.map_values(|k: KeyedEntry| (k.key@, k.entry@)) =~= before.map_values(
                    |k: KeyedEntry| (k.key@, k.entry@),
                ).push(ps[i as int]));
            }
            i = i + 1;
        }
        assert(ps.take(self.entries.len() as int) =~= ps);
        self.entries = kept;
        self.last_cleanup = now;
    }

    /// Checks a request under `key` at `now`, first dropping expired entries
    /// and creating the key's entry when it has none. Fixed and sliding
    /// windows are decided here; a token bucket by `refill`, which is given
    /// the entry's token count (as `f64` bits), the microseconds since its
    /// last refill, and the window budget, burst and length, and returns the
    /// verdict and the new token count; the refill time becomes `now`.
    pub fn check_rate_limit<F: Fn(u64, u64, u64, u64, u64) -> (bool, u64)>(
        &mut self,
        key: &str,
        config: &RateLimitConfig,
        now: u64,
        refill: F,
    ) -> (r: Result<bool, String>)
        requires
            config.window_duration_secs <= u64::MAX / 2,
            config.requests_per_window + config.burst_allowance <= u64::MAX,
            forall|a: u64, b: u64, c: u64, d: u64, e: u64| call_requires(refill, (a, b, c, d, e)),
        ensures
            check_outcome(
                old(self).pairs(),
                old(self).spec_last_cleanup(),
                final(self).pairs(),
                key@,
                config,
                now,
                refill,
                r,
            ),
            final(self).spec_last_cleanup() == cleanup_time(old(self).spec_last_cleanup(), now),
    {
        self.cleanup_expired_entries(config, now);
        let keys = self.key_list();
        let ghost cleaned = self.pairs();
        let idx = match find_key(&keys, key) {
            Some(i) => i,
            None => {
                let ghost before = self.entries@;
                self.entries.push(KeyedEntry { key: owned(key), entry: RateLimitEntry::new(now) });
                assert(self.pairs() =~= cleaned.push((key@, new_entry(now))));
                proof {
                    assert(store_keys(self.pairs()) =~= store_keys(cleaned).push(key@));
                    assert(crate::keyed::is_first_index(
                        store_keys(self.pairs()),
                        key@,
                        cleaned.len() as int,
                    ));
                    crate::keyed::lemma_index_of_key(
                        store_keys(self.pairs()),
                        key@,
                        cleaned.len() as int,
                    );
                }
                self.entries.len() - 1
            },
        };
        let ghost mid = self.pairs();
        let ghost before_entry = mid[idx as int].1;
        let ghost all_keys = store_keys(mid);
        assert(crate::keyed::index_of_key(all_keys, key@) == idx);
        let mut slot = self.entries.remove(idx);
        let allowed = match config.window_type {
            WindowType::FixedWindow => check_fixed_window(&mut slot.entry, config, now),
            WindowType::SlidingWindow => check_sliding_window(&mut slot.entry, config, now),
            WindowType::TokenBucket => {
                let waited = if now >= slot.entry.last_refill {
                    now - slot.entry.last_refill
                } else {
                    0
                };
                let (ok, tokens) = refill(
                    slot.entry.available_tokens_bits,
                    waited,
                    config.requests_per_window,
                    config.burst_allowance,
                    config.window_duration_secs,
                );
                slot.entry.available_tokens_bits = tokens;
                slot.entry.last_refill = now;
                ok
            },
        };
        let ghost nv = (slot.key@, slot.entry@);
        self.entries.insert(idx, slot);
        assert(self.pairs() =~= mid.update(idx as int, nv));
        assert(mid == with_key(cleaned, key@, now));
        assert(idx as int == key_slot(cleaned, key@));
        assert(nv.0 == key@);
        Ok(allowed)
    }
}

/// Decides a request by the fixed window.
fn check_fixed_window(entry: &mut RateLimitEntry, config: &RateLimitConfig, now: u64) -> (r: bool)
    requires
        config.requests_per_window + config.burst_allowance <= u64::MAX,
    ensures
        (r, final(entry)@) == fixed_window(old(entry)@, config, now),
{
    let waited = if now >= entry.window_start {
        now - entry.window_start
    } else {
        0
    };
    if waited / 1_000_000 >= config.window_duration_secs {
        entry.window_start = now;
        entry.request_count = 0;
    }
    let allowed = entry.request_count < config.requests_per_window + config.burst_allowance;
    if allowed {
        entry.request_count = entry.request_count + 1;
    }
    allowed
}

/// Decides a request by the sliding window.
fn check_sliding_window(entry: &mut RateLimitEntry, config: &RateLimitConfig, now: u64) -> (r: bool)
    requires
        config.requests_per_window + config.burst_allowance <= u64::MAX,
    ensures
        (r, final(entry)@) == sliding_window(old(entry)@, config, now),
{
    let ghost ts = entry.request_times@;
    let mut kept: Vec<u64> = Vec::new();
    let mut i: usize = 0;
    assert(ts.take(0) =~= Seq::<u64>::empty());
    while i < entry.request_times.len()
        invariant
            i <= entry.request_times.len(),
            ts == entry.request_times@,
            kept@ == recent_times(ts.take(i as int), now, config.window_duration_secs),
        decreases entry.request_times.len() - i,
    {
        assert(ts.take(i + 1).drop_last() =~= ts.take(i as int));
        let t = entry.request_times[i];
        let age = if now >= t {
            now - t
        } else {
            0
        };
        if age / 1_000_000 < config.window_duration_secs {
            kept.push(t);
        }
        i = i + 1;
    }
    assert(ts.take(entry.request_times.len() as int) =~= ts);
    let count = kept.len() as u64;
    let allowed = count < config.requests_per_window + config.burst_allowance;
    if allowed {
        kept.push(now);
    }
    entry.request_times = kept;
    allowed
}

/// A copy of a list of times.
pub fn copy_times(v: &Vec<u64>) -> (r: Vec<u64>)
    ensures
        r@ == v@,
{
    let mut r: Vec<u64> = Vec::new();
    let mut i: usize = 0;
    while i < v.len()
        invariant
            i <= v.len(),
            r@ == v@.take(i as int),
        decreases v.len() - i,
    {
        r.push(v[i]);
        assert(r@ =~= v@.take(i + 1));
        i = i + 1;
    }
    assert(r@ =~= v@);
    r
}

/// The client address, or `unknown` when there is none.
pub open spec fn peer_or_unknown(peer: Option<Seq<char>>) -> Seq<char> {
    match peer {
        Some(p) => p,
        None => "unknown"@,
    }
}

/// The key a request is counted under: by client address, user and/or
/// path; a composite strategy uses its first configuration. Strategies that
/// need a user fail without one.
pub open spec fn key_for(
    strategy: LimitStrategy,
    peer: Option<Seq<char>>,
    user: Option<Seq<char>>,
    path: Seq<char>,
) -> Result<Seq<char>, Seq<char>>
    decreases strategy,
{
    match strategy {
        LimitStrategy::PerIP => Ok("ip:"@ + peer_or_unknown(peer)),
        LimitStrategy::PerUser => match user {
            Some(u) => Ok("user:"@ + u),
            None => Err("No user claims found for per-user rate limiting"@),
        },
        LimitStrategy::PerRoute => Ok("route:"@ + path),
        LimitStrategy::PerIPAndRoute => Ok("ip_route:"@ + peer_or_unknown(peer) + ":"@ + path),
        LimitStrategy::PerUserAndRoute => match user {
            Some(u) => Ok("user_route:"@ + u + ":"@ + path),
            None => Err("No user claims found for per-user-route rate limiting"@),
        },
        LimitStrategy::Composite(cs) => if cs@.len() > 0 {
            key_for(cs@[0].strategy, peer, user, path)
        } else {
            Err("No configurations in composite strategy"@)
        },
    }
}

/// The outcome of a key derivation, by text.
pub open spec fn key_view(r: Result<String, String>) -> Result<Seq<char>, Seq<char>> {
    match r {
        Ok(k) => Ok(k@),
        Err(e) => Err(e@),
    }
}

fn key_for_strategy(
    strategy: &LimitStrategy,
    peer_addr: Option<&str>,
    user: Option<&str>,
    path: &str,
) -> (r: Result<String, String>)
    ensures
        key_view(r) == key_for(
            *strategy,
            match peer_addr {
                Some(p) => Some(p@),
                None => None,
            },
            match user {
                Some(u) => Some(u@),
                None => None,
            },
            path@,
        ),
    decreases strategy,
{
    let peer = match peer_addr {
        Some(p) => p,
        None => "unknown",
    };
    match strategy {
        LimitStrategy::PerIP => Ok(concat2("ip:", peer)),
        LimitStrategy::PerUser => match user {
            Some(u) => Ok(concat2("user:", u)),
            None => Err(owned("No user claims found for per-user rate limiting")),
        },
        LimitStrategy::PerRoute => Ok(concat2("route:", path)),
        LimitStrategy::PerIPAndRoute => Ok(concat4("ip_route:", peer, ":", path)),
        LimitStrategy::PerUserAndRoute => match user {
            Some(u) => Ok(concat4("user_route:", u, ":", path)),
            None => Err(owned("No user claims found for per-user-route rate limiting")),
        },
        LimitStrategy::Composite(configs) => {
            if configs.len() > 0 {
                key_for_strategy(&configs[0].strategy, peer_addr, user, path)
            } else {
                Err(owned("No configurations in composite strategy"))
            }
        },
    }
}

/// Whether a request goes on: only a check that ran and refused stops it;
/// a key that cannot be derived or a failed check lets it through.
pub fn allows_request(verdict: &Result<bool, String>) -> (r: bool)
    ensures
        r == !(verdict matches Ok(false)),
{
    match verdict {
        Ok(allowed) => *allowed,
        Err(_) => true,
    }
}

/// Rate limiting by one configuration, with its store.
#[derive(Debug)]
pub struct AdvancedRateLimit {
    config: RateLimitConfig,
    store: RateLimitStore,
}

impl AdvancedRateLimit {
    /// The configuration applied.
    pub closed spec fn spec_config(&self) -> RateLimitConfig {
        self.config
    }

    /// The store of counts.
    pub closed spec fn spec_store(&self) -> RateLimitStore {
        self.store
    }

    /// A limiter applying `config`, with an empty store whose cleanup clock
    /// starts at `now`.
    pub fn new(config: RateLimitConfig, now: u64) -> (r: Self)
        ensures
            r.spec_config() == config,
            r.spec_store().pairs().len() == 0,
            r.spec_store().spec_last_cleanup() == now,
    {
        AdvancedRateLimit { config, store: RateLimitStore::new(now) }
    }

    /// The key a request is counted under, from its client address (if
    /// known), its user (if authenticated) and its path.
    pub fn extract_key(&self, peer_addr: Option<&str>, user: Option<&str>, path: &str) -> (r: Result<
        String,
        String,
    >)
        ensures
            key_view(r) == key_for(
                self.spec_config().strategy,
                match peer_addr {
                    Some(p) => Some(p@),
                    None => None,
                },
                match user {
                    Some(u) => Some(u@),
                    None => None,
                },
                path@,
            ),
    {
        key_for_strategy(&self.config.strategy, peer_addr, user, path)
    }

    /// Checks a request under `key` at `now` against the configuration.
    pub fn check<F: Fn(u64, u64, u64, u64, u64) -> (bool, u64)>(
        &mut self,
        key: &str,
        now: u64,
        refill: F,
    ) -> (r: Result<bool, String>)
        requires
            old(self).spec_config().window_duration_secs <= u64::MAX / 2,
            old(self).spec_config().requests_per_window + old(self).spec_config().burst_allowance
                <= u64::MAX,
            forall|a: u64, b: u64, c: u64, d: u64, e: u64| call_requires(refill, (a, b, c, d, e)),
        ensures
            final(self).spec_config() == old(self).spec_config(),
            check_outcome(
                old(self).spec_store().pairs(),
                old(self).spec_store().spec_last_cleanup(),
                final(self).spec_store().pairs(),
                key@,
                &old(self).spec_config(),
                now,
                refill,
                r,
            ),
            final(self).spec_store().spec_last_cleanup() == cleanup_time(
                old(self).spec_store().spec_last_cleanup(),
                now,
            ),
    {
        self.store.check_rate_limit(key, &self.config, now, refill)
    }
}

/// The entry after `n` fixed-window checks at the same time `now`.
pub open spec fn fixed_checks(e: EntryView, c: &RateLimitConfig, now: u64, n: nat) -> EntryView
    decreases n,
{
    if n == 0 {
        e
    } else {
        fixed_window(fixed_checks(e, c, now, (n - 1) as nat), c, now).1
    }
}

/// Within one window, a fresh key is admitted exactly `requests_per_window +
/// burst_allowance` times: the `n`-th check at the same moment is admitted
/// exactly when fewer than the limit came before it.
pub proof fn lemma_fixed_window_limit(c: &RateLimitConfig, now: u64, n: nat)
    requires
        c.window_duration_secs > 0,
        c.requests_per_window + c.burst_allowance <= u64::MAX,
    ensures
        fixed_checks(new_entry(now), c, now, n).request_count == if n < window_limit(c) {
            n as int
        } else {
            window_limit(c)
        },
        fixed_checks(new_entry(now), c, now, n).window_start == now,
        fixed_window(fixed_checks(new_entry(now), c, now, n), c, now).0 <==> n < window_limit(c),
    decreases n,
{
    if n > 0 {
        lemma_fixed_window_limit(c, now, (n - 1) as nat);
    }
}

/// Dropping old request times never adds any.
pub proof fn lemma_recent_times_len(ts: Seq<u64>, now: u64, secs: u64)
    ensures
        recent_times(ts, now, secs).len() <= ts.len(),
    decreases ts.len(),
{
    if ts.len() > 0 {
        lemma_recent_times_len(ts.drop_last(), now, secs);
    }
}

/// A sliding window never holds more request times than the limit once it
/// starts within it.
pub proof fn lemma_sliding_window_bounded(e: EntryView, c: &RateLimitConfig, now: u64)
    requires
        e.request_times.len() <= window_limit(c),
    ensures
        sliding_window(e, c, now).1.request_times.len() <= window_limit(c),
{
    lemma_recent_times_len(e.request_times, now, c.window_duration_secs);
}

/// Under per-user-and-route limiting a user always gets a key, and one
/// user's requests to two different paths get different keys, so each route
/// has its own budget.
pub proof fn lemma_user_route_keys_split_paths(
    peer: Option<Seq<char>>,
    user: Seq<char>,
    p1: Seq<char>,
    p2: Seq<char>,
)
    ensures
        key_for(LimitStrategy::PerUserAndRoute, peer, Some(user), p1) is Ok,
        key_for(LimitStrategy::PerUserAndRoute, peer, Some(user), p1) == key_for(
            LimitStrategy::PerUserAndRoute,
            peer,
            Some(user),
            p2,
        ) ==> p1 == p2,
{
    let k1 = key_for(LimitStrategy::PerUserAndRoute, peer, Some(user), p1);
    let k2 = key_for(LimitStrategy::PerUserAndRoute, peer, Some(user), p2);
    if k1 == k2 {
        let head = "user_route:"@ + user + ":"@;
        assert(k1->Ok_0 == head + p1);
        assert(k2->Ok_0 == head + p2);
        assert((head + p1).skip(head.len() as int) =~= p1);
        assert((head + p2).skip(head.len() as int) =~= p2);
    }
}

/// Under per-route limiting, two different paths get different keys.
pub proof fn lemma_route_keys_split_paths(peer: Option<Seq<char>>, user: Option<Seq<char>>, p1: Seq<
    char,
>, p2: Seq<char>)
    ensures
        key_for(LimitStrategy::PerRoute, peer, user, p1) is Ok,
        key_for(LimitStrategy::PerRoute, peer, user, p1) == key_for(
            LimitStrategy::PerRoute,
            peer,
            user,
            p2,
        ) ==> p1 == p2,
{
    let head = "route:"@;
    if key_for(LimitStrategy::PerRoute, peer, user, p1) == key_for(LimitStrategy::PerRoute, peer, user, p2) {
        assert((head + p1).skip(head.len() as int) =~= p1);
        assert((head + p2).skip(head.len() as int) =~= p2);
    }
}

/// Under per-address-and-route limiting, requests from one address to two
/// different paths get different keys.
pub proof fn lemma_ip_route_keys_split_paths(peer: Option<Seq<char>>, user: Option<Seq<char>>, p1: Seq<
    char,
>, p2: Seq<char>)
    ensures
        key_for(LimitStrategy::PerIPAndRoute, peer, user, p1) is Ok,
        key_for(LimitStrategy::PerIPAndRoute, peer, user, p1) == key_for(
            LimitStrategy::PerIPAndRoute,
            peer,
            user,
            p2,
        ) ==> p1 == p2,
{
    let head = "ip_route:"@ + peer_or_unknown(peer) + ":"@;
    if key_for(LimitStrategy::PerIPAndRoute, peer, user, p1) == key_for(LimitStrategy::PerIPAndRoute, peer, user, p2) {
        assert((head + p1).skip(head.len() as int) =~= p1);
        assert((head + p2).skip(head.len() as int) =~= p2);
    }
}

/// Under per-user limiting, two different users get different keys.
pub proof fn lemma_user_keys_split_users(peer: Option<Seq<char>>, u1: Seq<char>, u2: Seq<char>, path: Seq<
    char,
>)
    ensures
        key_for(LimitStrategy::PerUser, peer, Some(u1), path) is Ok,
        key_for(LimitStrategy::PerUser, peer, Some(u1), path) == key_for(
            LimitStrategy::PerUser,
            peer,
            Some(u2),
            path,
        ) ==> u1 == u2,
{
    let head = "user:"@;
    if key_for(LimitStrategy::PerUser, peer, Some(u1), path) == key_for(LimitStrategy::PerUser, peer, Some(u2), path) {
        assert((head + u1).skip(head.len() as int) =~= u1);
        assert((head + u2).skip(head.len() as int) =~= u2);
    }
}

/// Under per-address limiting, two different known addresses get different
/// keys.
pub proof fn lemma_ip_keys_split_peers(a1: Seq<char>, a2: Seq<char>, user: Option<Seq<char>>, path: Seq<
    char,
>)
    ensures
        key_for(LimitStrategy::PerIP, Some(a1), user, path) is Ok,
        key_for(LimitStrategy::PerIP, Some(a1), user, path) == key_for(
            LimitStrategy::PerIP,
            Some(a2),
            user,
            path,
        ) ==> a1 == a2,
{
    let head = "ip:"@;
    if key_for(LimitStrategy::PerIP, Some(a1), user, path) == key_for(LimitStrategy::PerIP, Some(a2), user, path) {
        assert((head + a1).skip(head.len() as int) =~= a1);
        assert((head + a2).skip(head.len() as int) =~= a2);
    }
}

} // verus!
