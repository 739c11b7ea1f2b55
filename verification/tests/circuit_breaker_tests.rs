//! The circuit breaker as a state machine driven with explicit times (ms).

use kairos_rs::services::circuit_breaker::{
    CircuitBreaker, CircuitBreakerConfig, CircuitBreakerError, CircuitState,
};

/// Runs `op` through the breaker at `now`, as a protected call does.
fn call<T>(cb: &mut CircuitBreaker, now: u64, op: Result<T, &'static str>) -> Result<T, CircuitBreakerError<&'static str>> {
    if cb.is_open(now) {
        return Err(CircuitBreakerError::CircuitOpen);
    }
    cb.complete(op, now)
}

fn config(failures: u64, successes: u64, reset_ms: u64) -> CircuitBreakerConfig {
    CircuitBreakerConfig {
        failure_threshold: failures,
        success_threshold: successes,
        timeout: 1000,
        reset_timeout: reset_ms,
    }
}

#[test]
fn test_circuit_breaker_closed_state() {
    let mut cb = CircuitBreaker::new("test".to_string(), config(3, 2, 1000));
    assert_eq!(cb.get_state(), CircuitState::Closed);
    let result = call(&mut cb, 0, Ok::<i32, &str>(42));
    assert!(result.is_ok());
    assert_eq!(cb.get_state(), CircuitState::Closed);
}

#[test]
fn test_circuit_breaker_opens_on_failures() {
    let mut cb = CircuitBreaker::new("test".to_string(), config(2, 2, 1000));

    let result = call(&mut cb, 0, Err::<i32, &str>("error"));
    assert!(result.is_err());
    assert_eq!(cb.get_state(), CircuitState::Closed);

    let result = call(&mut cb, 1, Err::<i32, &str>("error"));
    assert!(result.is_err());
    assert_eq!(cb.get_state(), CircuitState::Open);

    let result = call(&mut cb, 2, Ok::<i32, &str>(42));
    assert!(matches!(result, Err(CircuitBreakerError::CircuitOpen)));
}

#[test]
fn test_circuit_breaker_half_open_recovery() {
    let mut cb = CircuitBreaker::new("test".to_string(), config(1, 2, 100));

    let _ = call(&mut cb, 0, Err::<i32, &str>("error"));
    assert_eq!(cb.get_state(), CircuitState::Open);

    let result = call(&mut cb, 150, Ok::<i32, &str>(42));
    assert!(result.is_ok());
    assert_eq!(cb.get_state(), CircuitState::HalfOpen);

    let result = call(&mut cb, 151, Ok::<i32, &str>(42));
    assert!(result.is_ok());
    assert_eq!(cb.get_state(), CircuitState::Closed);
}

#[test]
fn test_half_open_failure_reopens() {
    let mut cb = CircuitBreaker::new("svc".to_string(), config(1, 3, 100));
    let _ = call(&mut cb, 0, Err::<i32, &str>("boom"));
    assert!(!cb.is_open(100));
    assert_eq!(cb.get_state(), CircuitState::HalfOpen);
    let r = call(&mut cb, 101, Err::<i32, &str>("boom"));
    assert!(matches!(r, Err(CircuitBreakerError::OperationFailed("boom"))));
    assert_eq!(cb.get_state(), CircuitState::Open);
    assert!(cb.is_open(150));
    assert!(!cb.is_open(201));
}

#[test]
fn test_success_resets_failure_count() {
    let mut cb = CircuitBreaker::new("svc".to_string(), config(3, 1, 100));
    let _ = call(&mut cb, 0, Err::<i32, &str>("e"));
    let _ = call(&mut cb, 1, Err::<i32, &str>("e"));
    assert_eq!(cb.get_failure_count(), 2);
    let _ = call(&mut cb, 2, Ok::<i32, &str>(1));
    assert_eq!(cb.get_failure_count(), 0);
    assert_eq!(cb.get_state(), CircuitState::Closed);
    assert_eq!(cb.get_success_count(), 0);
}

#[test]
fn test_default_config() {
    let c = CircuitBreakerConfig::default();
    assert_eq!(c.failure_threshold, 5);
    assert_eq!(c.success_threshold, 3);
    assert_eq!(c.timeout, 60_000);
    assert_eq!(c.reset_timeout, 30_000);
}
