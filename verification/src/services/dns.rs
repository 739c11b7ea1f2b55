//! DNS forwarding with a response cache.
//!
//! Messages are decoded by `hickory-proto`; the cache and its expiry are
//! decided here. A query is answered from the cache (`begin_query`) or sent
//! to the backend server by the caller, who hands the response back
//! (`finish_query`) to be cached for its shortest answer TTL. Times are
//! milliseconds on a monotonic clock that the caller reads.
use vstd::prelude::*;
use vstd::string::*;
use crate::keyed::{find_key, index_of_key};
use crate::models::error::GatewayError;
use crate::models::router::Backend;
use crate::text::{concat2, concat3, concat5, dec, owned, starts_with, str_strip_prefix, u64_to_decimal};
use hickory_proto::op::Message;

verus! {

/// What the gateway reads from a DNS message.
#[derive(Debug)]
pub struct DnsMessage {
    /// Name, record type and class of the first question, as displayed.
    pub question: Option<(String, String, String)>,
    /// The TTL of each answer record.
    pub answer_ttls: Vec<u32>,
    /// The message encoded again, or why it could not be.
    pub encoded: Result<Vec<u8>, String>,
}

/// A decoded DNS message by value.
pub struct DnsMessageView {
    pub question: Option<(Seq<char>, Seq<char>, Seq<char>)>,
    pub answer_ttls: Seq<u32>,
    pub encoded: Result<Seq<u8>, Seq<char>>,
}

/// The view of a decoded DNS message.
pub open spec fn dns_message_view(m: DnsMessage) -> DnsMessageView {
    DnsMessageView {
        question: match m.question {
            Some(q) => Some((q.0@, q.1@, q.2@)),
            None => None,
        },
        answer_ttls: m.answer_ttls@,
        encoded: match m.encoded {
            Ok(v) => Ok(v@),
            Err(e) => Err(e@),
        },
    }
}

/// What `hickory_proto::op::Message::from_vec` makes of the bytes, read as
/// a `DnsMessage`, or the text of its error.
pub uninterp spec fn dns_decode(bytes: Seq<u8>) -> Result<DnsMessageView, Seq<char>>;

/// Decodes a DNS message with `Message::from_vec`, and reads its first
/// question (`queries`, `name`, `query_type`, `query_class`, each as
/// displayed), its answers' TTLs (`answers`, `ttl`) and its re-encoding
/// (`to_vec`). The result is the named `dns_decode`.
#[verifier::external_body]
pub(crate) fn decode_dns(bytes: &[u8]) -> (r: Result<DnsMessage, String>)
    ensures
        match r {
            Ok(m) => dns_decode(bytes@) == Ok::<DnsMessageView, Seq<char>>(dns_message_view(m)),
            Err(e) => dns_decode(bytes@) == Err::<DnsMessageView, Seq<char>>(e@),
        },
{
    match Message::from_vec(bytes) {
        Ok(m) => Ok(DnsMessage {
            question: m.queries().first().map(
                |q| (q.name().to_string(), q.query_type().to_string(), q.query_class().to_string()),
            ),
            answer_ttls: m.answers().iter().map(|a| a.ttl()).collect(),
            encoded: m.to_vec().map_err(|e| e.to_string()),
        }),
        Err(e) => Err(e.to_string()),
    }
}

/// The cache key of a query: name, type and class of its first question,
/// or `unknown` without one.
pub open spec fn cache_key_of(q: Option<(Seq<char>, Seq<char>, Seq<char>)>) -> Seq<char> {
    match q {
        Some(t) => t.0 + ":"@ + t.1 + ":"@ + t.2,
        None => "unknown"@,
    }
}

/// The smallest of `ttls`, with `u32::MAX` for none.
pub open spec fn min_of(ttls: Seq<u32>) -> u32
    decreases ttls.len(),
{
    if ttls.len() == 0 {
        u32::MAX
    } else {
        let m = min_of(ttls.drop_last());
        if ttls.last() < m {
            ttls.last()
        } else {
            m
        }
    }
}

/// How long a response may be cached, in seconds: its shortest answer TTL,
/// or zero (not cached) when it has no answer or every TTL is `u32::MAX`.
pub open spec fn min_ttl(ttls: Seq<u32>) -> u32 {
    if min_of(ttls) == u32::MAX {
        0
    } else {
        min_of(ttls)
    }
}

/// A backend URL without its `dns://` or `udp://` scheme.
pub open spec fn dns_host(url: Seq<char>) -> Seq<char> {
    if starts_with(url, "dns://"@) {
        url.subrange(6, url.len() as int)
    } else if starts_with(url, "udp://"@) {
        url.subrange(6, url.len() as int)
    } else {
        url
    }
}

/// `now + secs` seconds in milliseconds, capped at `u64::MAX`.
pub open spec fn expiry(now: u64, secs: u32) -> u64 {
    if now + secs * 1000 > u64::MAX {
        u64::MAX
    } else {
        (now + secs * 1000) as u64
    }
}

/// What to do with a query.
#[derive(Debug)]
pub enum DnsPlan {
    /// Answer with these bytes from the cache.
    Cached(Vec<u8>),
    /// Send the query to `server` (`host:port`) and cache the answer under `cache_key`.
    Forward { cache_key: String, server: String },
}

/// One cached response.
#[derive(Debug)]
struct CacheEntry {
    key: String,
    response: Result<Vec<u8>, String>,
    expires_at: u64,
}

/// A cached response by value.
pub struct CacheView {
    pub key: Seq<char>,
    pub response: Result<Seq<u8>, Seq<char>>,
    pub expires_at: u64,
}

/// The keys of cached responses.
pub open spec fn cache_keys(c: Seq<CacheView>) -> Seq<Seq<char>> {
    c.map_values(|e: CacheView| e.key)
}

/// The cache with `e` stored under its key: in the place of the key's
/// entry, or at the end.
pub open spec fn cache_put(c: Seq<CacheView>, e: CacheView) -> Seq<CacheView> {
    let i = index_of_key(cache_keys(c), e.key);
    if i >= 0 {
        c.update(i, e)
    } else {
        c.push(e)
    }
}

/// A response stored under a key is the one found under that key, and the
/// entries of other keys stay as they were.
pub proof fn lemma_cache_put_then_find(c: Seq<CacheView>, e: CacheView)
    ensures
        ({
            let c2 = cache_put(c, e);
            let i = index_of_key(cache_keys(c2), e.key);
            0 <= i < c2.len() && c2[i] == e
        }),
        forall|k: Seq<char>|
            k != e.key && #[trigger] index_of_key(cache_keys(c), k) >= 0 ==> index_of_key(
                cache_keys(cache_put(c, e)),
                k,
            ) == index_of_key(cache_keys(c), k) && cache_put(c, e)[index_of_key(cache_keys(c), k)]
                == c[index_of_key(cache_keys(c), k)],
{
    let i = index_of_key(cache_keys(c), e.key);
    let c2 = cache_put(c, e);
    if i >= 0 {
        assert(crate::keyed::is_first_index(cache_keys(c), e.key, i)) by {
            assert(exists|j: int| crate::keyed::is_first_index(cache_keys(c), e.key, j));
        }
        assert(cache_keys(c2) =~= cache_keys(c));
        crate::keyed::lemma_index_of_key(cache_keys(c2), e.key, i);
    } else {
        assert(!cache_keys(c).contains(e.key)) by {
            if cache_keys(c).contains(e.key) {
                let w = choose|w: int| 0 <= w < cache_keys(c).len() && cache_keys(c)[w] == e.key;
                crate::keyed::lemma_key_held(cache_keys(c), e.key, w);
            }
        }
        assert(cache_keys(c2) =~= cache_keys(c).push(e.key));
        assert(crate::keyed::is_first_index(cache_keys(c2), e.key, c.len() as int));
        crate::keyed::lemma_index_of_key(cache_keys(c2), e.key, c.len() as int);
    }
    assert forall|k: Seq<char>|
        k != e.key && #[trigger] index_of_key(cache_keys(c), k) >= 0 implies index_of_key(
            cache_keys(cache_put(c, e)),
            k,
        ) == index_of_key(cache_keys(c), k) && cache_put(c, e)[index_of_key(cache_keys(c), k)]
            == c[index_of_key(cache_keys(c), k)] by {
        let j = index_of_key(cache_keys(c), k);
        assert(crate::keyed::is_first_index(cache_keys(c), k, j)) by {
            assert(exists|m: int| crate::keyed::is_first_index(cache_keys(c), k, m));
        }
        if i >= 0 {
            assert(cache_keys(c2) =~= cache_keys(c));
        } else {
            assert(cache_keys(c2) =~= cache_keys(c).push(e.key));
        }
        assert(crate::keyed::is_first_index(cache_keys(c2), k, j));
        crate::keyed::lemma_index_of_key(cache_keys(c2), k, j);
    }
}

/// The entries still valid at `now`, in order.
pub open spec fn unexpired(c: Seq<CacheView>, now: u64) -> Seq<CacheView>
    decreases c.len(),
{
    if c.len() == 0 {
        Seq::empty()
    } else if c.last().expires_at > now {
        unexpired(c.drop_last(), now).push(c.last())
    } else {
        unexpired(c.drop_last(), now)
    }
}

/// The DNS forwarder and its cache.
#[derive(Debug)]
pub struct DnsHandler {
    timeout_seconds: u64,
    cache: Vec<CacheEntry>,
}

fn copy_bytes(v: &Vec<u8>) -> (r: Vec<u8>)
    ensures
        r@ == v@,
{
    vstd::slice::slice_to_vec(v.as_slice())
}

impl DnsHandler {
    /// The upstream timeout in seconds.
    pub closed spec fn spec_timeout(&self) -> u64 {
        self.timeout_seconds
    }

    /// The upstream timeout in seconds.
    pub fn timeout_seconds(&self) -> (r: u64)
        ensures
            r == self.spec_timeout(),
    {
        self.timeout_seconds
    }

    /// The cached responses, in order.
    pub closed spec fn spec_cache(&self) -> Seq<CacheView> {
        self.cache@.map_values(
            |e: CacheEntry|
                CacheView {
                    key: e.key@,
                    response: match e.response {
                        Ok(v) => Ok(v@),
                        Err(s) => Err(s@),
                    },
                    expires_at: e.expires_at,
                },
        )
    }

    /// A forwarder with an empty cache.
    pub fn new(timeout_seconds: u64) -> (r: Self)
        ensures
            r.spec_timeout() == timeout_seconds,
            r.spec_cache().len() == 0,
    {
        let r = DnsHandler { timeout_seconds, cache: Vec::new() };
        assert(r.spec_cache() =~= Seq::<CacheView>::empty());
        r
    }

    /// The cache key of a decoded query.
    pub fn generate_cache_key(&self, message: &DnsMessage) -> (r: String)
        ensures
            r@ == cache_key_of(dns_message_view(*message).question),
    {
        match &message.question {
            Some(q) => concat5(q.0.as_str(), ":", q.1.as_str(), ":", q.2.as_str()),
            None => owned("unknown"),
        }
    }

    /// How long a decoded response may be cached, in seconds.
    pub fn get_min_ttl(&self, message: &DnsMessage) -> (r: u32)
        ensures
            r == min_ttl(message.answer_ttls@),
    {
        let ttls = &message.answer_ttls;
        let mut m: u32 = u32::MAX;
        let mut i: usize = 0;
        assert(ttls@.take(0) =~= Seq::<u32>::empty());
        while i < ttls.len()
            invariant
                i <= ttls.len(),
                m == min_of(ttls@.take(i as int)),
            decreases ttls.len() - i,
        {
            assert(ttls@.take(i + 1).drop_last() =~= ttls@.take(i as int));
            if ttls[i] < m {
                m = ttls[i];
            }
            i = i + 1;
        }
        assert(ttls@.take(ttls.len() as int) =~= ttls@);
        if m == u32::MAX {
            0
        } else {
            m
        }
    }

    /// The DNS server named by a backend host: without a `dns://` or
    /// `udp://` scheme.
    pub fn extract_host(&self, url: &str) -> (r: Result<String, GatewayError>)
        ensures
            r matches Ok(h) && h@ == dns_host(url@),
    {
        match str_strip_prefix(url, "dns://") {
            Some(h) => {
                assert("dns://"@.len() == 6) by {
                    reveal_strlit("dns://");
                }
                Ok(h)
            },
            None => match str_strip_prefix(url, "udp://") {
                Some(h) => {
                    assert("udp://"@.len() == 6) by {
                        reveal_strlit("udp://");
                    }
                    Ok(h)
                },
                None => Ok(owned(url)),
            },
        }
    }

    /// Starts a query at `now`: refused when it does not decode, answered
    /// from the cache while its key's entry is valid (an entry that cannot
    /// be encoded fails the query), otherwise to be forwarded to the backend.
    pub fn begin_query(&self, query_bytes: &[u8], backend: &Backend, now: u64) -> (r: Result<
        DnsPlan,
        GatewayError,
    >)
        ensures
            match dns_decode(query_bytes@) {
                Err(e) => r matches Err(GatewayError::Config { message, route }) && message@
                    == "Failed to parse DNS query: "@ + e && route@ == "dns"@,
                Ok(m) => {
                    let key = cache_key_of(m.question);
                    let i = index_of_key(cache_keys(self.spec_cache()), key);
                    if i >= 0 && self.spec_cache()[i].expires_at > now {
                        match self.spec_cache()[i].response {
                            Ok(b) => r matches Ok(DnsPlan::Cached(v)) && v@ == b,
                            Err(e) => r matches Err(GatewayError::Config { message, route })
                                && message@ == "Failed to serialize cached response: "@ + e
                                && route@ == "dns"@,
                        }
                    } else {
                        r matches Ok(DnsPlan::Forward { cache_key, server }) && cache_key@ == key
                            && server@ == dns_host(backend@.host) + ":"@ + dec(
                            backend@.port as nat,
                        )
                    }
                },
            },
    {
        let query = match decode_dns(query_bytes) {
            Ok(m) => m,
            Err(e) => {
                return Err(
                    GatewayError::Config {
                        message: concat2("Failed to parse DNS query: ", e.as_str()),
                        route: owned("dns"),
                    },
                );
            },
        };
        let cache_key = self.generate_cache_key(&query);
        let keys = self.cache_key_list();
        match find_key(&keys, cache_key.as_str()) {
            Some(i) => {
                if self.cache[i].expires_at > now {
                    match &self.cache[i].response {
                        Ok(b) => {
                            return Ok(DnsPlan::Cached(copy_bytes(b)));
                        },
                        Err(e) => {
                            return Err(
                                GatewayError::Config {
                                    message: concat2(
                                        "Failed to serialize cached response: ",
                                        e.as_str(),
                                    ),
                                    route: owned("dns"),
                                },
                            );
                        },
                    }
                }
            },
            None => {},
        }
        let host = match self.extract_host(backend.host.as_str()) {
            Ok(h) => h,
            Err(e) => {
                return Err(e);
            },
        };
        let port = u64_to_decimal(backend.port as u64);
        let server = concat3(host.as_str(), ":", port.as_str());
        Ok(DnsPlan::Forward { cache_key, server })
    }

    fn cache_key_list(&self) -> (r: Vec<String>)
        ensures
            r@.map_values(|s: String| s@) == cache_keys(self.spec_cache()),
    {
        let mut r: Vec<String> = Vec::new();
        let mut i: usize = 0;
        while i < self.cache.len()
            invariant
                i <= self.cache.len(),
                r@.map_values(|s: String| s@) == cache_keys(self.spec_cache()).take(i as int),
            decreases self.cache.len() - i,
        {
            let ghost before = r@;
            r.push(self.cache[i].key.clone());
            assert(r@.map_values(|s: String| s@) =~= before.map_values(|s: String| s@).push(
                self.cache@[i as int].key@,
            ));
            assert(r@.map_values(|s: String| s@) =~= cache_keys(self.spec_cache()).take(i + 1));
            i = i + 1;
        }
        assert(r@.map_values(|s: String| s@) =~= cache_keys(self.spec_cache()));
        r
    }

    /// Finishes a forwarded query with the backend's `response` at `now`:
    /// a response that decodes and has a positive shortest TTL is cached
    /// under `cache_key` for that many seconds. The response is returned as
    /// it came.
    pub fn finish_query(&mut self, cache_key: String, response: Vec<u8>, now: u64) -> (r: Vec<u8>)
        ensures
            r@ == response@,
            final(self).spec_timeout() == old(self).spec_timeout(),
            match dns_decode(response@) {
                Ok(m) => if min_ttl(m.answer_ttls) > 0 {
                    final(self).spec_cache() == cache_put(
                        old(self).spec_cache(),
                        CacheView {
                            key: cache_key@,
                            response: m.encoded,
                            expires_at: expiry(now, min_ttl(m.answer_ttls)),
                        },
                    )
                } else {
                    final(self).spec_cache() == old(self).spec_cache()
                },
                Err(_) => final(self).spec_cache() == old(self).spec_cache(),
            },
    {
        match decode_dns(response.as_slice()) {
            Ok(m) => {
                let ttl = self.get_min_ttl(&m);
                if ttl > 0 {
                    let span: u64 = (ttl as u64) * 1000;
                    let expires_at = if now > u64::MAX - span {
                        u64::MAX
                    } else {
                        now + span
                    };
                    let ghost ev = CacheView {
                        key: cache_key@,
                        response: dns_message_view(m).encoded,
                        expires_at,
                    };
                    let ghost c = self.spec_cache();
                    let keys = self.cache_key_list();
                    let entry = CacheEntry { key: cache_key, response: m.encoded, expires_at };
                    match find_key(&keys, entry.key.as_str()) {
                        Some(i) => {
                            self.cache.set(i, entry);
                            assert(self.spec_cache() =~= c.update(i as int, ev));
                        },
                        None => {
                            self.cache.push(entry);
                            assert(self.spec_cache() =~= c.push(ev));
                        },
                    }
                }
            },
            Err(_) => {},
        }
        response
    }

    /// Drops the entries that are no longer valid at `now`.
    pub fn clear_expired(&mut self, now: u64)
        ensures
            final(self).spec_cache() == unexpired(old(self).spec_cache(), now),
            final(self).spec_timeout() == old(self).spec_timeout(),
    {
        let ghost c = self.spec_cache();
        let mut kept: Vec<CacheEntry> = Vec::new();
        let mut old_cache: Vec<CacheEntry> = Vec::new();
        std::mem::swap(&mut old_cache, &mut self.cache);
        let mut i: usize = 0;
        let n = old_cache.len();
        assert(c.take(0) =~= Seq::<CacheView>::empty());
        while old_cache.len() > 0
            invariant
                old_cache@.len() <= n,
                i == n - old_cache@.len(),
                c.len() == n,
                old_cache@.map_values(
                    |e: CacheEntry|
                        CacheView {
                            key: e.key@,
                            response: match e.response {
                                Ok(v) => Ok(v@),
                                Err(s) => Err(s@),
                            },
                            expires_at: e.expires_at,
                        },
                ) == c.skip(i as int),
                kept@.map_values(
                    |e: CacheEntry|
                        CacheView {
                            key: e.key@,
                            response: match e.response {
                                Ok(v) => Ok(v@),
                                Err(s) => Err(s@),
                            },
                            expires_at: e.expires_at,
                        },
                ) == unexpired(c.take(i as int), now),
            decreases old_cache@.len(),
        {
            let ghost rest = old_cache@;
            let e = old_cache.remove(0);
            assert(c.take(i + 1).drop_last() =~= c.take(i as int));
            assert(c.skip(i as int)[0] == c[i as int]);
            assert(c.take(i + 1).last() == c[i as int]);
            assert(old_cache@ =~= rest.skip(1));
            assert(c.skip(i + 1) =~= c.skip(i as int).skip(1));
            if e.expires_at > now {
                let ghost before = kept@;
                kept.push(e);
                assert(kept@ =~= before.push(rest[0]));
            }
            i = i + 1;
        }
        assert(c.take(n as int) =~= c);
        self.cache = kept;
    }

    /// The number of cached responses.
    pub fn cache_size(&self) -> (r: usize)
        ensures
            r == self.spec_cache().len(),
    {
        self.cache.len()
    }
}

impl Clone for DnsHandler {
    /// A forwarder with the same timeout and a copy of the cache.
    fn clone(&self) -> (r: Self)
        ensures
            r.spec_timeout() == self.spec_timeout(),
            r.spec_cache() == self.spec_cache(),
    {
        let mut cache: Vec<CacheEntry> = Vec::new();
        let mut i: usize = 0;
        while i < self.cache.len()
            invariant
                i <= self.cache.len(),
                cache@.len() == i,
                forall|k: int|
                    0 <= k < i ==> (#[trigger] cache@[k]).key@ == self.cache@[k].key@
                        && cache@[k].expires_at == self.cache@[k].expires_at && match (
                        cache@[k].response,
                        self.cache@[k].response,
                    ) {
                        (Ok(a), Ok(b)) => a@ == b@,
                        (Err(a), Err(b)) => a@ == b@,
                        _ => false,
                    },
            decreases self.cache.len() - i,
        {
            let e = &self.cache[i];
            let response = match &e.response {
                Ok(b) => Ok(copy_bytes(b)),
                Err(s) => Err(s.clone()),
            };
            cache.push(CacheEntry { key: e.key.clone(), response, expires_at: e.expires_at });
            i = i + 1;
        }
        let r = DnsHandler { timeout_seconds: self.timeout_seconds, cache };
        assert(r.spec_cache() =~= self.spec_cache());
        r
    }
}

} // verus!
