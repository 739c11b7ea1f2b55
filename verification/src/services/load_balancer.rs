//! Backend selection strategies.
use vstd::prelude::*;
use vstd::string::*;
use crate::models::router::{Backend, BackendView, LoadBalancingStrategy};
use crate::text::{concat3, dec, str_eq, u64_to_decimal};
use rand::Rng;
use std::collections::hash_map::DefaultHasher;
use std::hash::{BuildHasher, BuildHasherDefault};

verus! {

/// A way of choosing which backend serves the next request.
pub trait LoadBalancer {
    /// Picks one of `backends`; `None` when there are none.
    fn select_backend(&mut self, backends: &[Backend], client_ip: Option<&str>) -> (r: Option<
        Backend,
    >)
        ensures
            backends@.len() == 0 ==> r is None,
            r matches Some(b) ==> exists|i: int|
                0 <= i < backends@.len() && b@ == #[trigger] backends@[i]@,
    ;

    /// Notes that a request to `backend` succeeded.
    fn record_success(&mut self, backend: &Backend);

    /// Notes that a request to `backend` failed.
    fn record_failure(&mut self, backend: &Backend);
}

/// `counter + 1`, wrapping to zero past `usize::MAX`.
pub open spec fn next_count(counter: usize) -> usize {
    if counter == usize::MAX {
        0
    } else {
        (counter + 1) as usize
    }
}

fn wrapping_increment(counter: usize) -> (r: usize)
    ensures
        r == next_count(counter),
{
    if counter == usize::MAX {
        0
    } else {
        counter + 1
    }
}

/// A round-robin selection from `backends` with the count at `before`:
/// the backend at the count modulo their number, the count advancing to
/// `after`; nothing, and the count kept, when there are none.
pub open spec fn round_robin_step(before: usize, after: usize, backends: Seq<Backend>, r: Option<Backend>) -> bool {
    &&& backends.len() == 0 ==> r is None && after == before
    &&& backends.len() > 0 ==> r is Some && r->0@ == backends[(before as int) % (backends.len() as int)]@
        && after == next_count(before)
}

/// Hands out backends in circular order.
#[derive(Debug)]
pub struct RoundRobinBalancer {
    counter: usize,
}

impl RoundRobinBalancer {
    /// Number of selections made so far, modulo the word size.
    pub closed spec fn count(&self) -> usize {
        self.counter
    }

    /// A balancer that starts with the first backend.
    pub fn new() -> (r: Self)
        ensures
            r.count() == 0,
    {
        RoundRobinBalancer { counter: 0 }
    }
}

impl Default for RoundRobinBalancer {
    fn default() -> (r: Self)
        ensures
            r.count() == 0,
    {
        RoundRobinBalancer::new()
    }
}

impl LoadBalancer for RoundRobinBalancer {
    /// The backend at the count modulo the number of backends; the count then advances.
    fn select_backend(&mut self, backends: &[Backend], client_ip: Option<&str>) -> (r: Option<
        Backend,
    >)
        ensures
            round_robin_step(old(self).count(), final(self).count(), backends@, r),
    {
        if backends.len() == 0 {
            return None;
        }
        let index = self.counter % backends.len();
        self.counter = wrapping_increment(self.counter);
        let r = backends[index].clone();
        assert(r@ == backends@[index as int]@);
        Some(r)
    }

    fn record_success(&mut self, backend: &Backend)
        ensures
            final(self).count() == old(self).count(),
    {
    }

    fn record_failure(&mut self, backend: &Backend)
        ensures
            final(self).count() == old(self).count(),
    {
    }
}

/// The connection-count key of a backend: host, a colon and the port.
pub open spec fn backend_key(b: BackendView) -> Seq<char> {
    b.host + ":"@ + dec(b.port as nat)
}

/// Tracked connection counts, in the order their keys were first seen.
pub type CountEntries = Seq<(Seq<char>, u64)>;

/// `i` is the first position of `e` whose key is `key`.
pub open spec fn is_first_key(e: CountEntries, key: Seq<char>, i: int) -> bool {
    &&& 0 <= i < e.len()
    &&& e[i].0 == key
    &&& forall|j: int| 0 <= j < i ==> #[trigger] e[j].0 != key
}

/// The first position of `e` holding `key`, or -1 when no entry does.
pub open spec fn key_position(e: CountEntries, key: Seq<char>) -> int {
    if exists|i: int| is_first_key(e, key, i) {
        choose|i: int| is_first_key(e, key, i)
    } else {
        -1
    }
}

/// The count recorded for `key`, zero when it is not tracked.
pub open spec fn count_for(e: CountEntries, key: Seq<char>) -> u64 {
    let p = key_position(e, key);
    if p >= 0 {
        e[p].1
    } else {
        0
    }
}

/// `c + 1`, wrapping to zero past `u64::MAX`.
pub open spec fn count_up(c: u64) -> u64 {
    if c == u64::MAX {
        0
    } else {
        (c + 1) as u64
    }
}

/// `c - 1`, wrapping to `u64::MAX` below zero.
pub open spec fn count_down(c: u64) -> u64 {
    if c == 0 {
        u64::MAX
    } else {
        (c - 1) as u64
    }
}

/// The counts after a connection to `key` opens: its count goes up by one,
/// and an untracked key starts at one.
pub open spec fn acquire_entries(e: CountEntries, key: Seq<char>) -> CountEntries {
    let p = key_position(e, key);
    if p >= 0 {
        e.update(p, (key, count_up(e[p].1)))
    } else {
        e.push((key, 1u64))
    }
}

/// The counts after a connection to `key` ends: a tracked count goes down by
/// one; an untracked key stays untracked.
pub open spec fn release_entries(e: CountEntries, key: Seq<char>) -> CountEntries {
    let p = key_position(e, key);
    if p >= 0 {
        e.update(p, (key, count_down(e[p].1)))
    } else {
        e
    }
}

/// The first position holding a key is the position `key_position` names.
pub proof fn lemma_key_position(e: CountEntries, key: Seq<char>, i: int)
    requires
        is_first_key(e, key, i),
    ensures
        key_position(e, key) == i,
{
    let c = choose|c: int| is_first_key(e, key, c);
    assert(is_first_key(e, key, c));
    if c < i {
        assert(e[c].0 != key);
    } else if c > i {
        assert(e[i].0 != key);
    }
}

/// A key that no entry holds has no position.
pub proof fn lemma_key_absent(e: CountEntries, key: Seq<char>)
    requires
        forall|j: int| 0 <= j < e.len() ==> #[trigger] e[j].0 != key,
    ensures
        key_position(e, key) == -1,
{
    if exists|i: int| is_first_key(e, key, i) {
        let c = choose|c: int| is_first_key(e, key, c);
        assert(e[c].0 == key);
    }
}

/// A key that some entry holds has a first position.
pub proof fn lemma_first_key_exists(e: CountEntries, key: Seq<char>, j: int)
    requires
        0 <= j < e.len(),
        e[j].0 == key,
    ensures
        key_position(e, key) >= 0,
        is_first_key(e, key, key_position(e, key)),
    decreases j,
{
    if exists|k: int| 0 <= k < j && #[trigger] e[k].0 == key {
        let k = choose|k: int| 0 <= k < j && #[trigger] e[k].0 == key;
        lemma_first_key_exists(e, key, k);
    } else {
        assert(is_first_key(e, key, j));
        lemma_key_position(e, key, j);
    }
}

/// Every entry's key differs from `key` when `key` has no position.
pub proof fn lemma_no_position(e: CountEntries, key: Seq<char>)
    requires
        key_position(e, key) < 0,
    ensures
        forall|j: int| 0 <= j < e.len() ==> #[trigger] e[j].0 != key,
{
    assert forall|j: int| 0 <= j < e.len() implies #[trigger] e[j].0 != key by {
        if e[j].0 == key {
            lemma_first_key_exists(e, key, j);
        }
    }
}

/// One tracked connection count.
#[derive(Debug)]
struct ConnectionCount {
    key: String,
    count: u64,
}

/// Sends each request to the backend with the fewest active connections,
/// the first such backend on ties. Selecting a backend opens a connection
/// to it; a recorded success or failure closes one.
#[derive(Debug)]
pub struct LeastConnectionsBalancer {
    connections: Vec<ConnectionCount>,
}

impl LeastConnectionsBalancer {
    /// The tracked counts, by key.
    pub closed spec fn entries(&self) -> CountEntries {
        self.connections@.map_values(|c: ConnectionCount| (c.key@, c.count))
    }

    /// The count the balancer holds for a backend.
    pub open spec fn spec_count(&self, b: BackendView) -> u64 {
        count_for(self.entries(), backend_key(b))
    }

    /// A balancer tracking no connections.
    pub fn new() -> (r: Self)
        ensures
            r.entries() == Seq::<(Seq<char>, u64)>::empty(),
    {
        let r = LeastConnectionsBalancer { connections: Vec::new() };
        assert(r.entries() =~= Seq::<(Seq<char>, u64)>::empty());
        r
    }

    /// The key under which connections to `backend` are counted.
    fn get_backend_key(backend: &Backend) -> (r: String)
        ensures
            r@ == backend_key(backend@),
    {
        let port = u64_to_decimal(backend.port as u64);
        concat3(backend.host.as_str(), ":", port.as_str())
    }

    /// The first tracked position of `key`.
    fn find_key(&self, key: &str) -> (r: Option<usize>)
        ensures
            r matches Some(i) ==> is_first_key(self.entries(), key@, i as int),
            r is None ==> key_position(self.entries(), key@) == -1,
    {
        let ghost e = self.entries();
        let mut i: usize = 0;
        while i < self.connections.len()
            invariant
                i <= self.connections.len(),
                e == self.entries(),
                forall|j: int| 0 <= j < i ==> #[trigger] e[j].0 != key@,
            decreases self.connections.len() - i,
        {
            if str_eq(self.connections[i].key.as_str(), key) {
                return Some(i);
            }
            i = i + 1;
        }
        proof {
            lemma_key_absent(e, key@);
        }
        None
    }

    /// The connection count of `backend`, zero when it is not tracked.
    fn get_connection_count(&self, backend: &Backend) -> (r: u64)
        ensures
            r == self.spec_count(backend@),
    {
        let key = Self::get_backend_key(backend);
        match self.find_key(key.as_str()) {
            Some(i) => {
                proof {
                    lemma_key_position(self.entries(), key@, i as int);
                }
                self.connections[i].count
            },
            None => 0,
        }
    }

    /// Opens a connection to `backend`.
    fn acquire(&mut self, backend: &Backend)
        ensures
            final(self).entries() == acquire_entries(old(self).entries(), backend_key(backend@)),
    {
        let key = Self::get_backend_key(backend);
        let ghost e = self.entries();
        match self.find_key(key.as_str()) {
            Some(i) => {
                proof {
                    lemma_key_position(e, key@, i as int);
                }
                let c = self.connections[i].count;
                let n = if c == u64::MAX {
                    0
                } else {
                    c + 1
                };
                let k = self.connections[i].key.clone();
                self.connections.set(i, ConnectionCount { key: k, count: n });
                assert(self.entries() =~= acquire_entries(e, key@));
            },
            None => {
                self.connections.push(ConnectionCount { key: key, count: 1 });
                assert(self.entries() =~= acquire_entries(e, backend_key(backend@)));
            },
        }
    }

    /// Closes a connection to `backend`, if it is tracked.
    fn release(&mut self, backend: &Backend)
        ensures
            final(self).entries() == release_entries(old(self).entries(), backend_key(backend@)),
    {
        let key = Self::get_backend_key(backend);
        let ghost e = self.entries();
        match self.find_key(key.as_str()) {
            Some(i) => {
                proof {
                    lemma_key_position(e, key@, i as int);
                }
                let c = self.connections[i].count;
                let n = if c == 0 {
                    u64::MAX
                } else {
                    c - 1
                };
                let k = self.connections[i].key.clone();
                self.connections.set(i, ConnectionCount { key: k, count: n });
                assert(self.entries() =~= release_entries(e, key@));
            },
            None => {},
        }
    }
}

impl Default for LeastConnectionsBalancer {
    fn default() -> (r: Self)
        ensures
            r.entries() == Seq::<(Seq<char>, u64)>::empty(),
    {
        LeastConnectionsBalancer::new()
    }
}

/// `i` is the first backend whose count is least among `bs` under `e`.
pub open spec fn is_least_loaded(e: CountEntries, bs: Seq<Backend>, i: int) -> bool {
    &&& 0 <= i < bs.len()
    &&& forall|j: int|
        0 <= j < bs.len() ==> count_for(e, backend_key(bs[i]@)) <= count_for(
            e,
            backend_key(#[trigger] bs[j]@),
        )
    &&& forall|j: int|
        0 <= j < i ==> count_for(e, backend_key(bs[i]@)) < count_for(
            e,
            backend_key(#[trigger] bs[j]@),
        )
}

/// A least-connections selection from `backends` with counts `before`: the
/// first least-loaded backend, whose count goes up by one in `after`;
/// nothing, and the counts kept, when there are none.
pub open spec fn least_connections_step(
    before: CountEntries,
    after: CountEntries,
    backends: Seq<Backend>,
    r: Option<Backend>,
) -> bool {
    &&& backends.len() == 0 ==> r is None && after == before
    &&& backends.len() > 0 ==> r is Some && exists|i: int|
        is_least_loaded(before, backends, i) && r->0@ == backends[i]@ && after == acquire_entries(
            before,
            backend_key(backends[i]@),
        )
}

impl LoadBalancer for LeastConnectionsBalancer {
    /// The first backend with the fewest connections, which then gains one.
    fn select_backend(&mut self, backends: &[Backend], client_ip: Option<&str>) -> (r: Option<
        Backend,
    >)
        ensures
            least_connections_step(old(self).entries(), final(self).entries(), backends@, r),
    {
        if backends.len() == 0 {
            return None;
        }
        let ghost e = self.entries();
        let mut best: usize = 0;
        let mut best_count = self.get_connection_count(&backends[0]);
        let mut i: usize = 1;
        while i < backends.len()
            invariant
                1 <= i <= backends.len(),
                best < i,
                e == self.entries(),
                best_count == count_for(e, backend_key(backends@[best as int]@)),
                forall|j: int|
                    0 <= j < i ==> best_count <= count_for(e, backend_key(#[trigger] backends@[j]@)),
                forall|j: int|
                    0 <= j < best ==> best_count < count_for(e, backend_key(#[trigger] backends@[j]@)),
            decreases backends.len() - i,
        {
            let c = self.get_connection_count(&backends[i]);
            if c < best_count {
                best = i;
                best_count = c;
            }
            i = i + 1;
        }
        assert(is_least_loaded(e, backends@, best as int));
        self.acquire(&backends[best]);
        let r = backends[best].clone();
        assert(r@ == backends@[best as int]@);
        Some(r)
    }

    fn record_success(&mut self, backend: &Backend)
        ensures
            final(self).entries() == release_entries(old(self).entries(), backend_key(backend@)),
    {
        self.release(backend);
    }

    fn record_failure(&mut self, backend: &Backend)
        ensures
            final(self).entries() == release_entries(old(self).entries(), backend_key(backend@)),
    {
        self.release(backend);
    }
}

/// A connection that opens and then ends leaves every count as it was.
pub proof fn lemma_release_undoes_acquire(e: CountEntries, key: Seq<char>, other: Seq<char>)
    ensures
        count_for(release_entries(acquire_entries(e, key), key), other) == count_for(e, other),
{
    let p = key_position(e, key);
    let a = acquire_entries(e, key);
    if p >= 0 {
        assert(is_first_key(e, key, p));
        assert(is_first_key(a, key, p));
        lemma_key_position(a, key, p);
        let b = release_entries(a, key);
        assert(b =~= e);
    } else {
        lemma_no_position(e, key);
        assert(is_first_key(a, key, e.len() as int));
        lemma_key_position(a, key, e.len() as int);
        let b = release_entries(a, key);
        assert(b == e.push((key, 0u64)));
        if other == key {
            assert(is_first_key(b, key, e.len() as int));
            lemma_key_position(b, key, e.len() as int);
        } else {
            let q = key_position(e, other);
            if q >= 0 {
                assert(is_first_key(e, other, q));
                assert(is_first_key(b, other, q));
                lemma_key_position(b, other, q);
            } else {
                lemma_no_position(e, other);
                assert(forall|j: int| 0 <= j < b.len() ==> #[trigger] b[j].0 != other);
                lemma_key_absent(b, other);
            }
        }
    }
}

/// A uniformly drawn index below `n`.
#[verifier::external_body]
fn random_index(n: usize) -> (r: usize)
    requires
        n > 0,
    ensures
        r < n,
{
    rand::thread_rng().gen_range(0..n)
}

/// Picks a backend at random.
#[derive(Debug)]
pub struct RandomBalancer;

impl RandomBalancer {
    pub fn new() -> (r: Self) {
        RandomBalancer
    }
}

impl Default for RandomBalancer {
    fn default() -> (r: Self) {
        RandomBalancer::new()
    }
}

impl LoadBalancer for RandomBalancer {
    /// A backend drawn at random; one is always drawn when there are any.
    fn select_backend(&mut self, backends: &[Backend], client_ip: Option<&str>) -> (r: Option<
        Backend,
    >)
        ensures
            backends@.len() > 0 ==> r is Some,
    {
        if backends.len() == 0 {
            return None;
        }
        let index = random_index(backends.len());
        let r = backends[index].clone();
        assert(r@ == backends@[index as int]@);
        Some(r)
    }

    fn record_success(&mut self, backend: &Backend) {
    }

    fn record_failure(&mut self, backend: &Backend) {
    }
}

/// `b` repeated `n` times.
pub open spec fn repeat(b: BackendView, n: nat) -> Seq<BackendView> {
    Seq::new(n, |i: int| b)
}

/// Every backend repeated as many times as its weight, in order.
pub open spec fn weighted_list(bs: Seq<BackendView>) -> Seq<BackendView>
    decreases bs.len(),
{
    if bs.len() == 0 {
        Seq::empty()
    } else {
        weighted_list(bs.drop_last()) + repeat(bs.last(), bs.last().weight as nat)
    }
}

/// The sum of the weights of `bs`.
pub open spec fn total_weight(bs: Seq<BackendView>) -> nat
    decreases bs.len(),
{
    if bs.len() == 0 {
        0
    } else {
        total_weight(bs.drop_last()) + bs.last().weight as nat
    }
}

/// The views of a slice of backends.
pub open spec fn views(bs: Seq<Backend>) -> Seq<BackendView> {
    bs.map_values(|b: Backend| b@)
}

/// Round robin over the list in which each backend appears as often as its weight.
#[derive(Debug)]
pub struct WeightedBalancer {
    counter: usize,
}

impl WeightedBalancer {
    /// Number of selections made so far, modulo the word size.
    pub closed spec fn count(&self) -> usize {
        self.counter
    }

    /// A balancer that starts at the head of the weighted list.
    pub fn new() -> (r: Self)
        ensures
            r.count() == 0,
    {
        WeightedBalancer { counter: 0 }
    }

    /// Each backend repeated as many times as its weight.
    fn build_weighted_list(backends: &[Backend]) -> (r: Vec<Backend>)
        ensures
            views(r@) == weighted_list(views(backends@)),
    {
        let ghost bv = views(backends@);
        let mut list: Vec<Backend> = Vec::new();
        let mut i: usize = 0;
        assert(bv.take(0) =~= Seq::<BackendView>::empty());
        while i < backends.len()
            invariant
                i <= backends.len(),
                bv == views(backends@),
                views(list@) == weighted_list(bv.take(i as int)),
            decreases backends.len() - i,
        {
            let ghost prefix = views(list@);
            let w = backends[i].weight;
            let mut k: u32 = 0;
            assert(views(list@) =~= prefix + repeat(backends@[i as int]@, 0));
            while k < w
                invariant
                    k <= w,
                    w == backends@[i as int].weight,
                    i < backends.len(),
                    views(list@) == prefix + repeat(backends@[i as int]@, k as nat),
                decreases w - k,
            {
                let ghost before = list@;
                list.push(backends[i].clone());
                assert(list@ == before.push(list@[before.len() as int]));
                assert(views(list@) =~= views(before).push(backends@[i as int]@));
                assert(views(list@) =~= prefix + repeat(backends@[i as int]@, (k + 1) as nat));
                k = k + 1;
            }
            assert(bv.take(i + 1).drop_last() =~= bv.take(i as int));
            assert(bv[i as int] == backends@[i as int]@);
            i = i + 1;
        }
        assert(bv.take(backends.len() as int) =~= bv);
        list
    }
}

impl Default for WeightedBalancer {
    fn default() -> (r: Self)
        ensures
            r.count() == 0,
    {
        WeightedBalancer::new()
    }
}

/// Every entry of the weighted list of `bs` is one of `bs`.
pub proof fn lemma_weighted_list_members(bs: Seq<BackendView>, k: int)
    requires
        0 <= k < weighted_list(bs).len(),
    ensures
        exists|i: int| 0 <= i < bs.len() && weighted_list(bs)[k] == bs[i],
    decreases bs.len(),
{
    if bs.len() > 0 {
        let prev = weighted_list(bs.drop_last());
        if k < prev.len() {
            lemma_weighted_list_members(bs.drop_last(), k);
            let i = choose|i: int| 0 <= i < bs.drop_last().len() && prev[k] == bs.drop_last()[i];
            assert(bs[i] == bs.drop_last()[i]);
        } else {
            assert(weighted_list(bs)[k] == bs[bs.len() - 1]);
        }
    }
}

/// The weighted list is as long as the weights add up to.
pub proof fn lemma_weighted_list_len(bs: Seq<BackendView>)
    ensures
        weighted_list(bs).len() == total_weight(bs),
    decreases bs.len(),
{
    if bs.len() > 0 {
        lemma_weighted_list_len(bs.drop_last());
    }
}

/// In the weighted list, backend `i` fills the `weight` positions that follow
/// the weights of the backends before it: so over any run of selections as
/// long as the total weight, each backend is chosen as often as its weight.
pub proof fn lemma_weighted_list_layout(bs: Seq<BackendView>, i: int, j: int)
    requires
        0 <= i < bs.len(),
        0 <= j < bs[i].weight,
    ensures
        total_weight(bs.take(i)) + j < weighted_list(bs).len(),
        weighted_list(bs)[total_weight(bs.take(i)) + j] == bs[i],
    decreases bs.len(),
{
    let prev = bs.drop_last();
    lemma_weighted_list_len(prev);
    lemma_weighted_list_len(bs);
    if i == bs.len() - 1 {
        assert(bs.take(i) =~= prev);
    } else {
        lemma_weighted_list_layout(prev, i, j);
        assert(prev.take(i) =~= bs.take(i));
        assert(prev[i] == bs[i]);
    }
}

/// The position round robin takes `j` selections after count `c`, among `n`.
pub open spec fn cycle_position(c: int, j: int, n: int) -> int {
    (c + j) % n
}

/// `k` is one of the `n` positions.
pub open spec fn is_position(k: int, n: int) -> bool {
    0 <= k < n
}

/// Over `n` consecutive counts from `c`, the count taken modulo `n` meets
/// every position exactly once: round robin serves each of `n` backends once
/// per `n` selections.
pub proof fn lemma_round_robin_covers(c: int, n: int)
    requires
        c >= 0,
        n > 0,
    ensures
        forall|k: int| #[trigger]
            is_position(k, n) ==> exists|j: int|
                is_position(j, n) && #[trigger] cycle_position(c, j, n) == k,
        forall|j1: int, j2: int|
            is_position(j1, n) && is_position(j2, n) && j1 != j2 ==> #[trigger] cycle_position(
                c,
                j1,
                n,
            ) != #[trigger] cycle_position(c, j2, n),
{
    assert forall|k: int| #[trigger] is_position(k, n) implies exists|j: int|
        is_position(j, n) && #[trigger] cycle_position(c, j, n) == k by {
        let j = (k - c % n + n) % n;
        assert(0 <= j < n) by (nonlinear_arith)
            requires
                n > 0,
                j == (k - c % n + n) % n,
        ;
        assert((c + j) % n == k) by (nonlinear_arith)
            requires
                n > 0,
                c >= 0,
                0 <= k < n,
                j == (k - c % n + n) % n,
        ;
        assert(is_position(j, n) && cycle_position(c, j, n) == k);
    }
    assert forall|j1: int, j2: int|
        is_position(j1, n) && is_position(j2, n) && j1 != j2 implies #[trigger] cycle_position(
            c,
            j1,
            n,
        ) != #[trigger] cycle_position(c, j2, n) by {
        assert((c + j1) % n != (c + j2) % n) by (nonlinear_arith)
            requires
                n > 0,
                c >= 0,
                0 <= j1 < n,
                0 <= j2 < n,
                j1 != j2,
        ;
    }
}

/// A weighted selection from `backends` with the count at `before`: the
/// entry of the weighted list at the count modulo its length, the count
/// advancing to `after`; nothing, and the count kept, when every weight is zero.
pub open spec fn weighted_step(before: usize, after: usize, backends: Seq<Backend>, r: Option<Backend>) -> bool {
    let wl = weighted_list(views(backends));
    &&& wl.len() == 0 ==> r is None && after == before
    &&& wl.len() > 0 ==> r is Some && r->0@ == wl[(before as int) % (wl.len() as int)] && after
        == next_count(before)
}

/// How many of the selections `0..n` land, at their position modulo `w`,
/// in the block `[lo, hi)`.
pub open spec fn block_hits(w: int, lo: int, hi: int, n: nat) -> nat
    decreases n,
{
    if n == 0 {
        0
    } else {
        block_hits(w, lo, hi, (n - 1) as nat) + if lo <= (n - 1) % w < hi {
            1nat
        } else {
            0nat
        }
    }
}

/// How many of the positions `0..r` lie in `[lo, hi)`.
pub open spec fn positions_in(lo: int, hi: int, r: int) -> int {
    if r <= lo {
        0
    } else if r <= hi {
        r - lo
    } else {
        hi - lo
    }
}

/// The hits of a block: a full share per completed round, and the part of
/// the block that the unfinished round has passed.
proof fn lemma_block_hits_rounds(w: int, lo: int, hi: int, n: nat)
    requires
        w > 0,
        0 <= lo <= hi <= w,
    ensures
        block_hits(w, lo, hi, n) == (n as int / w) * (hi - lo) + positions_in(lo, hi, n as int % w),
    decreases n,
{
    if n > 0 {
        let m = (n - 1) as int;
        lemma_block_hits_rounds(w, lo, hi, (n - 1) as nat);
        let q = m / w;
        let r = m % w;
        vstd::arithmetic::div_mod::lemma_fundamental_div_mod(m, w);
        assert(0 <= r < w) by {
            vstd::arithmetic::div_mod::lemma_mod_bound(m, w);
        }
        assert(m == q * w + r) by (nonlinear_arith)
            requires
                m == w * q + r,
        ;
        let p = (n - 1) as nat;
        assert(p as int == m);
        assert(block_hits(w, lo, hi, p) == q * (hi - lo) + positions_in(lo, hi, r));
        let ind: int = if lo <= r < hi {
            1
        } else {
            0
        };
        assert(block_hits(w, lo, hi, n) == block_hits(w, lo, hi, p) + ind);
        if r + 1 < w {
            vstd::arithmetic::div_mod::lemma_fundamental_div_mod_converse(n as int, w, q, r + 1);
            assert(positions_in(lo, hi, r + 1) == positions_in(lo, hi, r) + ind);
        } else {
            assert(positions_in(lo, hi, r) + ind == hi - lo);
            assert(n as int == (q + 1) * w + 0) by (nonlinear_arith)
                requires
                    m == q * w + r,
                    r + 1 == w,
                    n == m + 1,
            ;
            vstd::arithmetic::div_mod::lemma_fundamental_div_mod_converse(n as int, w, q + 1, 0);
            assert((q + 1) * (hi - lo) == q * (hi - lo) + (hi - lo)) by (nonlinear_arith);
        }
    } else {
        vstd::arithmetic::div_mod::lemma_fundamental_div_mod_converse(0, w, 0, 0);
        assert(n as int / w == 0 && n as int % w == 0);
        assert((n as int / w) * (hi - lo) == 0) by (nonlinear_arith)
            requires
                n as int / w == 0,
        ;
    }
}

/// The weight before backend `i` and its own weight fit in the total.
proof fn lemma_weight_prefix(bs: Seq<BackendView>, i: int)
    requires
        0 <= i < bs.len(),
    ensures
        total_weight(bs.take(i)) + bs[i].weight <= total_weight(bs),
    decreases bs.len(),
{
    if i == bs.len() - 1 {
        assert(bs.take(i) =~= bs.drop_last());
    } else {
        lemma_weight_prefix(bs.drop_last(), i);
        assert(bs.drop_last().take(i) =~= bs.take(i));
    }
}

/// Over the first `k * W` selections of a weighted balancer that starts at
/// zero (`W` the total weight, the same backends every time), backend `i` is
/// picked in exactly `k * w_i` of them: selection `j` takes the weighted list
/// at `j mod W` (`weighted_step`), and backend `i` fills the `w_i`
/// positions of that list that follow the weights of the backends before it.
pub proof fn lemma_weighted_totals(bs: Seq<BackendView>, i: int, k: nat)
    requires
        0 <= i < bs.len(),
        total_weight(bs) > 0,
    ensures
        ({
            let lo = total_weight(bs.take(i)) as int;
            let hi = lo + bs[i].weight;
            &&& hi <= total_weight(bs)
            &&& forall|t: int| lo <= t < hi ==> #[trigger] weighted_list(bs)[t] == bs[i]
            &&& block_hits(total_weight(bs) as int, lo, hi, k * total_weight(bs)) == k * bs[i].weight
        }),
{
    let w = total_weight(bs) as int;
    let lo = total_weight(bs.take(i)) as int;
    let hi = lo + bs[i].weight;
    lemma_weight_prefix(bs, i);
    assert forall|t: int| lo <= t < hi implies #[trigger] weighted_list(bs)[t] == bs[i] by {
        lemma_weighted_list_layout(bs, i, t - lo);
    }
    let n = k * total_weight(bs);
    lemma_block_hits_rounds(w, lo, hi, n);
    vstd::arithmetic::div_mod::lemma_fundamental_div_mod_converse(n as int, w, k as int, 0);
    assert(k * (hi - lo) == k * bs[i].weight);
}

impl LoadBalancer for WeightedBalancer {
    /// The entry of the weighted list at the count modulo its length; the count
    /// then advances. `None` when every weight is zero.
    fn select_backend(&mut self, backends: &[Backend], client_ip: Option<&str>) -> (r: Option<
        Backend,
    >)
        ensures
            weighted_step(old(self).count(), final(self).count(), backends@, r),
    {
        if backends.len() == 0 {
            assert(views(backends@) =~= Seq::<BackendView>::empty());
            return None;
        }
        let list = Self::build_weighted_list(backends);
        if list.len() == 0 {
            return None;
        }
        let index = self.counter % list.len();
        self.counter = wrapping_increment(self.counter);
        let r = list[index].clone();
        assert(r@ == views(list@)[index as int]);
        proof {
            let bv = views(backends@);
            lemma_weighted_list_members(bv, index as int);
            let i = choose|i: int| 0 <= i < bv.len() && weighted_list(bv)[index as int] == bv[i];
            assert(r@ == backends@[i]@);
        }
        Some(r)
    }

    fn record_success(&mut self, backend: &Backend)
        ensures
            final(self).count() == old(self).count(),
    {
    }

    fn record_failure(&mut self, backend: &Backend)
        ensures
            final(self).count() == old(self).count(),
    {
    }
}

/// What a hash of `ip` by std's default hasher comes to.
pub uninterp spec fn ip_hash(ip: Seq<char>) -> u64;

/// Hashes `ip` with std's `DefaultHasher` (a fixed, unseeded SipHash) through
/// `BuildHasher::hash_one`; the result is named, not stated.
#[verifier::external_body]
fn hash_ip(ip: &str) -> (r: u64)
    ensures
        r == ip_hash(ip@),
{
    BuildHasherDefault::<DefaultHasher>::default().hash_one(ip)
}

/// Sends a client to the backend its address hashes to, so that one client
/// keeps reaching one backend.
#[derive(Debug)]
pub struct IpHashBalancer;

impl IpHashBalancer {
    pub fn new() -> (r: Self) {
        IpHashBalancer
    }
}

impl Default for IpHashBalancer {
    fn default() -> (r: Self) {
        IpHashBalancer::new()
    }
}

/// The index the hash of `ip` picks among `n` backends.
pub open spec fn ip_index(ip: Seq<char>, n: nat) -> int {
    (ip_hash(ip) as usize) as int % (n as int)
}

/// The text of an optional client address.
pub open spec fn opt_str(ip: Option<&str>) -> Option<Seq<char>> {
    match ip {
        Some(s) => Some(s@),
        None => None,
    }
}

/// An address-hash selection from `backends`: the backend at the hash of the
/// client address modulo their number, the first when the address is
/// unknown; nothing when there are none.
pub open spec fn ip_hash_step(backends: Seq<Backend>, ip: Option<Seq<char>>, r: Option<Backend>) -> bool {
    &&& backends.len() == 0 ==> r is None
    &&& backends.len() > 0 ==> r is Some && r->0@ == backends[match ip {
        Some(a) => ip_index(a, backends.len()),
        None => 0,
    }]@
}

/// Requests from one client address over the same backends always reach
/// the same backend.
pub proof fn lemma_ip_hash_sticky(
    backends: Seq<Backend>,
    ip: Seq<char>,
    r1: Option<Backend>,
    r2: Option<Backend>,
)
    requires
        ip_hash_step(backends, Some(ip), r1),
        ip_hash_step(backends, Some(ip), r2),
    ensures
        r1 is Some <==> r2 is Some,
        r1 is Some ==> r1->0@ == r2->0@,
{
}

impl LoadBalancer for IpHashBalancer {
    /// The backend at the hash of the client address modulo the number of
    /// backends; the first backend when the address is unknown.
    fn select_backend(&mut self, backends: &[Backend], client_ip: Option<&str>) -> (r: Option<
        Backend,
    >)
        ensures
            ip_hash_step(backends@, opt_str(client_ip), r),
    {
        if backends.len() == 0 {
            return None;
        }
        match client_ip {
            Some(ip) => {
                let hash = hash_ip(ip);
                let index = (hash as usize) % backends.len();
                let r = backends[index].clone();
                assert(r@ == backends@[index as int]@);
                Some(r)
            },
            None => {
                let r = backends[0].clone();
                assert(r@ == backends@[0]@);
                Some(r)
            },
        }
    }

    fn record_success(&mut self, backend: &Backend) {
    }

    fn record_failure(&mut self, backend: &Backend) {
    }
}

/// A load balancer of any of the strategies.
#[derive(Debug)]
pub enum Balancer {
    RoundRobin(RoundRobinBalancer),
    LeastConnections(LeastConnectionsBalancer),
    Random(RandomBalancer),
    Weighted(WeightedBalancer),
    IpHash(IpHashBalancer),
}

impl Balancer {
    /// The strategy this balancer follows.
    pub open spec fn strategy(&self) -> LoadBalancingStrategy {
        match self {
            Balancer::RoundRobin(_) => LoadBalancingStrategy::RoundRobin,
            Balancer::LeastConnections(_) => LoadBalancingStrategy::LeastConnections,
            Balancer::Random(_) => LoadBalancingStrategy::Random,
            Balancer::Weighted(_) => LoadBalancingStrategy::Weighted,
            Balancer::IpHash(_) => LoadBalancingStrategy::IpHash,
        }
    }

    /// Nothing has been selected or tracked yet.
    pub open spec fn is_fresh(&self) -> bool {
        match self {
            Balancer::RoundRobin(b) => b.count() == 0,
            Balancer::LeastConnections(b) => b.entries().len() == 0,
            Balancer::Weighted(b) => b.count() == 0,
            _ => true,
        }
    }
}

impl LoadBalancer for Balancer {
    fn select_backend(&mut self, backends: &[Backend], client_ip: Option<&str>) -> (r: Option<
        Backend,
    >)
        ensures
            final(self).strategy() == old(self).strategy(),
            balancer_selected(*old(self), *final(self), backends@, opt_str(client_ip), r),
    {
        match self {
            Balancer::RoundRobin(b) => b.select_backend(backends, client_ip),
            Balancer::LeastConnections(b) => b.select_backend(backends, client_ip),
            Balancer::Random(b) => b.select_backend(backends, client_ip),
            Balancer::Weighted(b) => b.select_backend(backends, client_ip),
            Balancer::IpHash(b) => b.select_backend(backends, client_ip),
        }
    }

    fn record_success(&mut self, backend: &Backend)
        ensures
            final(self).strategy() == old(self).strategy(),
            match *old(self) {
                Balancer::LeastConnections(a) => *final(self) matches Balancer::LeastConnections(b)
                    && b.entries() == release_entries(a.entries(), backend_key(backend@)),
                _ => *final(self) == *old(self),
            },
    {
        match self {
            Balancer::RoundRobin(b) => b.record_success(backend),
            Balancer::LeastConnections(b) => b.record_success(backend),
            Balancer::Random(b) => b.record_success(backend),
            Balancer::Weighted(b) => b.record_success(backend),
            Balancer::IpHash(b) => b.record_success(backend),
        }
    }

    fn record_failure(&mut self, backend: &Backend)
        ensures
            final(self).strategy() == old(self).strategy(),
            match *old(self) {
                Balancer::LeastConnections(a) => *final(self) matches Balancer::LeastConnections(b)
                    && b.entries() == release_entries(a.entries(), backend_key(backend@)),
                _ => *final(self) == *old(self),
            },
    {
        match self {
            Balancer::RoundRobin(b) => b.record_failure(backend),
            Balancer::LeastConnections(b) => b.record_failure(backend),
            Balancer::Random(b) => b.record_failure(backend),
            Balancer::Weighted(b) => b.record_failure(backend),
            Balancer::IpHash(b) => b.record_failure(backend),
        }
    }
}

/// A selection from `backends` by balancer `a`, which becomes `b`, picking
/// `r`: each strategy's own step (a random pick is one of the backends).
pub open spec fn balancer_selected(
    a: Balancer,
    b: Balancer,
    backends: Seq<Backend>,
    ip: Option<Seq<char>>,
    r: Option<Backend>,
) -> bool {
    match a {
        Balancer::RoundRobin(x) => b matches Balancer::RoundRobin(y) && round_robin_step(
            x.count(),
            y.count(),
            backends,
            r,
        ),
        Balancer::LeastConnections(x) => b matches Balancer::LeastConnections(y)
            && least_connections_step(x.entries(), y.entries(), backends, r),
        Balancer::Random(_) => b == a && (backends.len() > 0 ==> r is Some),
        Balancer::Weighted(x) => b matches Balancer::Weighted(y) && weighted_step(
            x.count(),
            y.count(),
            backends,
            r,
        ),
        Balancer::IpHash(_) => b == a && ip_hash_step(backends, ip, r),
    }
}

/// What reporting the outcome of a request to `backend` does to a balancer:
/// a least-connections balancer counts one connection of the backend less;
/// every other balancer stays as it was.
pub open spec fn balancer_noted(a: Balancer, b: Balancer, backend: BackendView) -> bool {
    match a {
        Balancer::LeastConnections(x) => b matches Balancer::LeastConnections(y) && y.entries()
            == release_entries(x.entries(), backend_key(backend)),
        _ => b == a,
    }
}

/// Makes load balancers.
pub struct LoadBalancerFactory;

impl LoadBalancerFactory {
    /// A fresh balancer following `strategy`.
    pub fn create(strategy: &LoadBalancingStrategy) -> (r: Balancer)
        ensures
            r.strategy() == *strategy,
            r.is_fresh(),
    {
        match strategy {
            LoadBalancingStrategy::RoundRobin => Balancer::RoundRobin(RoundRobinBalancer::new()),
            LoadBalancingStrategy::LeastConnections => Balancer::LeastConnections(
                LeastConnectionsBalancer::new(),
            ),
            LoadBalancingStrategy::Random => Balancer::Random(RandomBalancer::new()),
            LoadBalancingStrategy::Weighted => Balancer::Weighted(WeightedBalancer::new()),
            LoadBalancingStrategy::IpHash => Balancer::IpHash(IpHashBalancer::new()),
        }
    }
}

} // verus!
