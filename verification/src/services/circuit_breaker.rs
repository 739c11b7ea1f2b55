//! Circuit breaking for upstream services.
//!
//! A breaker is a state machine over three states. The caller asks it whether
//! a request may go out (`is_open`), performs the request itself, and reports
//! the outcome (`complete`, or `on_success` / `on_failure`). Times are
//! milliseconds on a monotonic clock that the caller reads.
use vstd::prelude::*;

verus! {

/// State of a circuit breaker.
#[derive(PartialEq, Eq, Structural, Clone, Copy, Debug)]
pub enum CircuitState {
    /// Normal operation: requests pass through.
    Closed,
    /// Tripped: requests fail fast.
    Open,
    /// Testing whether the service is back: requests pass through.
    HalfOpen,
}

/// The state a stored state code stands for; unknown codes read as closed.
pub open spec fn state_from_code(v: u8) -> CircuitState {
    if v == 1 {
        CircuitState::Open
    } else if v == 2 {
        CircuitState::HalfOpen
    } else {
        CircuitState::Closed
    }
}

impl From<u8> for CircuitState {
    fn from(value: u8) -> (r: Self) {
        match value {
            0 => CircuitState::Closed,
            1 => CircuitState::Open,
            2 => CircuitState::HalfOpen,
            _ => CircuitState::Closed,
        }
    }
}

impl vstd::std_specs::convert::FromSpecImpl<u8> for CircuitState {
    open spec fn obeys_from_spec() -> bool {
        true
    }

    open spec fn from_spec(v: u8) -> Self {
        state_from_code(v)
    }
}

/// Thresholds and timeouts of a circuit breaker.
#[derive(Debug)]
pub struct CircuitBreakerConfig {
    /// Consecutive failures that open a closed circuit.
    pub failure_threshold: u64,
    /// Consecutive successes that close a half-open circuit.
    pub success_threshold: u64,
    /// Time allowed for one request, in milliseconds.
    pub timeout: u64,
    /// Time an open circuit waits before testing recovery, in milliseconds.
    pub reset_timeout: u64,
}

impl Clone for CircuitBreakerConfig {
    fn clone(&self) -> (r: Self)
        ensures
            r == *self,
    {
        CircuitBreakerConfig {
            failure_threshold: self.failure_threshold,
            success_threshold: self.success_threshold,
            timeout: self.timeout,
            reset_timeout: self.reset_timeout,
        }
    }
}

impl Default for CircuitBreakerConfig {
    /// Five failures to open, three successes to close, 60 s request timeout,
    /// 30 s before testing recovery.
    fn default() -> (r: Self)
        ensures
            r.failure_threshold == 5,
            r.success_threshold == 3,
            r.timeout == 60_000,
            r.reset_timeout == 30_000,
    {
        CircuitBreakerConfig {
            failure_threshold: 5,
            success_threshold: 3,
            timeout: 60_000,
            reset_timeout: 30_000,
        }
    }
}

/// The part of a breaker that changes.
pub struct BreakerView {
    pub state: CircuitState,
    pub failure_count: u64,
    pub success_count: u64,
    pub last_failure_time: Option<u64>,
}

/// Milliseconds from `since` to `now`, zero when `now` is earlier.
pub open spec fn elapsed(now: u64, since: u64) -> u64 {
    if now >= since {
        (now - since) as u64
    } else {
        0
    }
}

/// Whether a request is refused: only an open circuit with a recorded
/// failure less than `reset_timeout` ago refuses.
pub open spec fn refuses(v: BreakerView, reset_timeout: u64, now: u64) -> bool {
    v.state == CircuitState::Open && match v.last_failure_time {
        Some(t) => elapsed(now, t) < reset_timeout,
        None => false,
    }
}

/// The breaker after a request is admitted or refused at `now`: an open
/// circuit whose reset timeout has run out turns half-open with no successes.
pub open spec fn after_check(v: BreakerView, reset_timeout: u64, now: u64) -> BreakerView {
    if v.state == CircuitState::Open && v.last_failure_time is Some && !refuses(
        v,
        reset_timeout,
        now,
    ) {
        BreakerView { state: CircuitState::HalfOpen, success_count: 0, ..v }
    } else {
        v
    }
}

/// The breaker after it opens at `now`.
pub open spec fn opened(v: BreakerView, now: u64) -> BreakerView {
    BreakerView {
        state: CircuitState::Open,
        last_failure_time: Some(now),
        success_count: 0,
        ..v
    }
}

/// The breaker after a request succeeds: a closed circuit forgets its
/// failures; a half-open one counts the success and closes at the threshold.
pub open spec fn after_success(v: BreakerView, success_threshold: u64) -> BreakerView {
    match v.state {
        CircuitState::Closed => BreakerView { failure_count: 0, ..v },
        CircuitState::HalfOpen => if v.success_count + 1 >= success_threshold {
            BreakerView {
                state: CircuitState::Closed,
                failure_count: 0,
                success_count: 0,
                ..v
            }
        } else {
            BreakerView { success_count: (v.success_count + 1) as u64, ..v }
        },
        CircuitState::Open => v,
    }
}

/// The breaker after a request fails at `now`: a closed circuit counts the
/// failure and opens at the threshold; a half-open one opens; an open one
/// records the time.
pub open spec fn after_failure(v: BreakerView, failure_threshold: u64, now: u64) -> BreakerView {
    match v.state {
        CircuitState::Closed => {
            let n = (v.failure_count + 1) as u64;
            if n >= failure_threshold {
                opened(BreakerView { failure_count: n, ..v }, now)
            } else {
                BreakerView { failure_count: n, ..v }
            }
        },
        CircuitState::HalfOpen => opened(v, now),
        CircuitState::Open => BreakerView { last_failure_time: Some(now), ..v },
    }
}

/// Counters stay below the thresholds that reset them, so they never overflow.
pub open spec fn counts_bounded(v: BreakerView, failure_threshold: u64, success_threshold: u64) -> bool {
    &&& v.state == CircuitState::Closed ==> v.failure_count == 0 || v.failure_count
        < failure_threshold
    &&& v.state == CircuitState::HalfOpen ==> v.success_count == 0 || v.success_count
        < success_threshold
    &&& v.state != CircuitState::HalfOpen ==> v.success_count == 0
    &&& v.state == CircuitState::Open ==> v.last_failure_time is Some
}

/// Why a protected call produced no value.
#[derive(Debug)]
pub enum CircuitBreakerError<E> {
    /// The circuit is open; the operation was not run.
    CircuitOpen,
    /// The operation ran and failed.
    OperationFailed(E),
}

/// A circuit breaker for one upstream service.
#[derive(Debug)]
pub struct CircuitBreaker {
    config: CircuitBreakerConfig,
    state: CircuitState,
    failure_count: u64,
    success_count: u64,
    last_failure_time: Option<u64>,
    name: String,
}

impl View for CircuitBreaker {
    type V = BreakerView;

    closed spec fn view(&self) -> BreakerView {
        BreakerView {
            state: self.state,
            failure_count: self.failure_count,
            success_count: self.success_count,
            last_failure_time: self.last_failure_time,
        }
    }
}

impl CircuitBreaker {
    /// The configuration the breaker was made with.
    pub closed spec fn spec_config(&self) -> CircuitBreakerConfig {
        self.config
    }

    /// The name the breaker was made with.
    pub closed spec fn spec_name(&self) -> Seq<char> {
        self.name@
    }

    /// The breaker's counters agree with its state.
    pub open spec fn wf(&self) -> bool {
        counts_bounded(
            self@,
            self.spec_config().failure_threshold,
            self.spec_config().success_threshold,
        )
    }

    /// A closed breaker with no failures or successes recorded.
    pub fn new(name: String, config: CircuitBreakerConfig) -> (r: Self)
        ensures
            r.wf(),
            r@ == (BreakerView {
                state: CircuitState::Closed,
                failure_count: 0,
                success_count: 0,
                last_failure_time: None,
            }),
            r.spec_config() == config,
            r.spec_name() == name@,
    {
        CircuitBreaker {
            config,
            state: CircuitState::Closed,
            failure_count: 0,
            success_count: 0,
            last_failure_time: None,
            name,
        }
    }

    /// Whether a request arriving at `now` must fail fast. An open circuit
    /// whose reset timeout has passed turns half-open and admits it.
    pub fn is_open(&mut self, now: u64) -> (r: bool)
        requires
            old(self).wf(),
        ensures
            final(self).wf(),
            r == refuses(old(self)@, old(self).spec_config().reset_timeout, now),
            final(self)@ == after_check(old(self)@, old(self).spec_config().reset_timeout, now),
            final(self).spec_config() == old(self).spec_config(),
            final(self).spec_name() == old(self).spec_name(),
    {
        match self.state {
            CircuitState::Closed => false,
            CircuitState::Open => match self.last_failure_time {
                Some(last) => {
                    let waited = if now >= last {
                        now - last
                    } else {
                        0
                    };
                    if waited >= self.config.reset_timeout {
                        self.transition_to_half_open();
                        false
                    } else {
                        true
                    }
                },
                None => false,
            },
            CircuitState::HalfOpen => false,
        }
    }

    /// Records a successful request.
    pub fn on_success(&mut self)
        requires
            old(self).wf(),
        ensures
            final(self).wf(),
            final(self)@ == after_success(old(self)@, old(self).spec_config().success_threshold),
            final(self).spec_config() == old(self).spec_config(),
            final(self).spec_name() == old(self).spec_name(),
    {
        match self.state {
            CircuitState::Closed => {
                self.failure_count = 0;
            },
            CircuitState::HalfOpen => {
                let success_count = self.success_count + 1;
                if success_count >= self.config.success_threshold {
                    self.transition_to_closed();
                } else {
                    self.success_count = success_count;
                }
            },
            CircuitState::Open => {},
        }
    }

    /// Records a request that failed at `now`.
    pub fn on_failure(&mut self, now: u64)
        requires
            old(self).wf(),
        ensures
            final(self).wf(),
            final(self)@ == after_failure(
                old(self)@,
                old(self).spec_config().failure_threshold,
                now,
            ),
            final(self).spec_config() == old(self).spec_config(),
            final(self).spec_name() == old(self).spec_name(),
    {
        match self.state {
            CircuitState::Closed => {
                let failure_count = self.failure_count + 1;
                self.failure_count = failure_count;
                if failure_count >= self.config.failure_threshold {
                    self.transition_to_open(now);
                }
            },
            CircuitState::HalfOpen => {
                self.transition_to_open(now);
            },
            CircuitState::Open => {
                self.last_failure_time = Some(now);
            },
        }
    }

    /// Reports the outcome of an admitted operation that ended at `now`, and
    /// hands its value back, or its error wrapped as a failed operation.
    pub fn complete<T, E>(&mut self, outcome: Result<T, E>, now: u64) -> (r: Result<
        T,
        CircuitBreakerError<E>,
    >)
        requires
            old(self).wf(),
        ensures
            final(self).wf(),
            final(self).spec_config() == old(self).spec_config(),
            final(self).spec_name() == old(self).spec_name(),
            match outcome {
                Ok(v) => r == Ok::<T, CircuitBreakerError<E>>(v) && final(self)@ == after_success(
                    old(self)@,
                    old(self).spec_config().success_threshold,
                ),
                Err(e) => r == Err::<T, CircuitBreakerError<E>>(
                    CircuitBreakerError::OperationFailed(e),
                ) && final(self)@ == after_failure(
                    old(self)@,
                    old(self).spec_config().failure_threshold,
                    now,
                ),
            },
    {
        match outcome {
            Ok(v) => {
                self.on_success();
                Ok(v)
            },
            Err(e) => {
                self.on_failure(now);
                Err(CircuitBreakerError::OperationFailed(e))
            },
        }
    }

    fn transition_to_open(&mut self, now: u64)
        ensures
            final(self)@ == opened(old(self)@, now),
            final(self).config == old(self).config,
            final(self).name == old(self).name,
    {
        self.state = CircuitState::Open;
        self.last_failure_time = Some(now);
        self.success_count = 0;
    }

    fn transition_to_half_open(&mut self)
        ensures
            final(self)@ == (BreakerView {
                state: CircuitState::HalfOpen,
                success_count: 0,
                ..old(self)@
            }),
            final(self).config == old(self).config,
            final(self).name == old(self).name,
    {
        self.state = CircuitState::HalfOpen;
        self.success_count = 0;
    }

    fn transition_to_closed(&mut self)
        ensures
            final(self)@ == (BreakerView {
                state: CircuitState::Closed,
                failure_count: 0,
                success_count: 0,
                ..old(self)@
            }),
            final(self).config == old(self).config,
            final(self).name == old(self).name,
    {
        self.state = CircuitState::Closed;
        self.failure_count = 0;
        self.success_count = 0;
    }

    /// The current state.
    pub fn get_state(&self) -> (r: CircuitState)
        ensures
            r == self@.state,
    {
        self.state
    }

    /// Consecutive failures recorded since the circuit last closed.
    pub fn get_failure_count(&self) -> (r: u64)
        ensures
            r == self@.failure_count,
    {
        self.failure_count
    }

    /// Consecutive successes recorded while half-open.
    pub fn get_success_count(&self) -> (r: u64)
        ensures
            r == self@.success_count,
    {
        self.success_count
    }
}

/// The breaker after `n` consecutive failures, all at `now`.
pub open spec fn after_failures(v: BreakerView, failure_threshold: u64, now: u64, n: nat) -> BreakerView
    decreases n,
{
    if n == 0 {
        v
    } else {
        after_failure(after_failures(v, failure_threshold, now, (n - 1) as nat), failure_threshold, now)
    }
}

/// The breaker after `n` consecutive successes.
pub open spec fn after_successes(v: BreakerView, success_threshold: u64, n: nat) -> BreakerView
    decreases n,
{
    if n == 0 {
        v
    } else {
        after_success(after_successes(v, success_threshold, (n - 1) as nat), success_threshold)
    }
}

/// A closed circuit with no failures stays closed through fewer than
/// `failure_threshold` consecutive failures, and opens at the
/// `failure_threshold`-th, from which it refuses requests until the reset
/// timeout has passed.
pub proof fn lemma_opens_after_threshold(v: BreakerView, cfg: CircuitBreakerConfig, now: u64, n: nat)
    requires
        v.state == CircuitState::Closed,
        v.failure_count == 0,
        cfg.failure_threshold >= 1,
        n <= cfg.failure_threshold,
    ensures
        n < cfg.failure_threshold ==> after_failures(v, cfg.failure_threshold, now, n).state
            == CircuitState::Closed && after_failures(v, cfg.failure_threshold, now, n).failure_count == n,
        n == cfg.failure_threshold ==> after_failures(v, cfg.failure_threshold, now, n).state
            == CircuitState::Open && after_failures(v, cfg.failure_threshold, now, n).last_failure_time
            == Some(now),
        n == cfg.failure_threshold && cfg.reset_timeout > 0 ==> refuses(
            after_failures(v, cfg.failure_threshold, now, n),
            cfg.reset_timeout,
            now,
        ),
    decreases n,
{
    if n > 0 {
        lemma_opens_after_threshold(v, cfg, now, (n - 1) as nat);
    }
}

/// A half-open circuit closes after `success_threshold` consecutive
/// successes and stays half-open before that.
pub proof fn lemma_closes_after_successes(v: BreakerView, success_threshold: u64, n: nat)
    requires
        v.state == CircuitState::HalfOpen,
        v.success_count == 0,
        1 <= n <= success_threshold,
    ensures
        n < success_threshold ==> after_successes(v, success_threshold, n).state
            == CircuitState::HalfOpen && after_successes(v, success_threshold, n).success_count == n,
        n == success_threshold ==> after_successes(v, success_threshold, n).state
            == CircuitState::Closed && after_successes(v, success_threshold, n).failure_count == 0,
    decreases n,
{
    if n > 1 {
        lemma_closes_after_successes(v, success_threshold, (n - 1) as nat);
    } else {
        assert(after_successes(v, success_threshold, 0) == v);
    }
}

/// Any failure of a half-open circuit opens it again, and a success of a
/// closed circuit clears its failure count.
pub proof fn lemma_half_open_failure_reopens(v: BreakerView, cfg: CircuitBreakerConfig, now: u64)
    ensures
        v.state == CircuitState::HalfOpen ==> after_failure(v, cfg.failure_threshold, now).state
            == CircuitState::Open,
        v.state == CircuitState::Closed ==> after_success(v, cfg.success_threshold).failure_count
            == 0 && after_success(v, cfg.success_threshold).state == CircuitState::Closed,
{
}

/// An open circuit refuses exactly while less than `reset_timeout` has passed
/// since its last failure; once admitted, the next request finds it half-open.
pub proof fn lemma_open_until_reset(v: BreakerView, reset_timeout: u64, now: u64)
    requires
        v.state == CircuitState::Open,
        v.last_failure_time is Some,
    ensures
        refuses(v, reset_timeout, now) <==> elapsed(now, v.last_failure_time->0) < reset_timeout,
        !refuses(v, reset_timeout, now) ==> after_check(v, reset_timeout, now).state
            == CircuitState::HalfOpen,
        refuses(v, reset_timeout, now) ==> after_check(v, reset_timeout, now) == v,
{
}

} // verus!
