use std::cell::Cell;

use omnisearch_core::circuit_breaker::{CallError, CircuitBreaker, CircuitBreakerManager, CircuitState};
use omnisearch_core::config::{CircuitBreakerConfig, ConfigError};

fn fail(_msg: &str) -> Result<(), String> {
    Err(_msg.to_string())
}

#[test]
fn test_circuit_breaker_closed_state() {
    let mut breaker = CircuitBreaker::new(3, 60_000, 2, 0);
    let result = breaker.call(0, || Ok::<&str, String>("success"));
    assert!(result.is_ok());
    assert_eq!(result.unwrap(), "success");
    assert_eq!(breaker.state(), CircuitState::Closed);
}

#[test]
fn test_circuit_breaker_open_state() {
    let mut breaker = CircuitBreaker::new(2, 100, 2, 0);
    let _result1 = breaker.call(0, || fail("error 1"));
    let _result2 = breaker.call(0, || fail("error 2"));
    assert_eq!(breaker.state(), CircuitState::Open);

    let ran = Cell::new(false);
    let result3 = breaker.call(0, || {
        ran.set(true);
        Ok::<&str, String>("should not execute")
    });
    assert!(result3.is_err());
    assert_eq!(result3.unwrap_err(), CallError::CircuitOpen);
    assert!(!ran.get());
}

#[test]
fn test_circuit_breaker_half_open_state() {
    let mut breaker = CircuitBreaker::new(2, 50, 2, 0);
    let _result1 = breaker.call(0, || fail("error 1"));
    let _result2 = breaker.call(0, || fail("error 2"));
    assert_eq!(breaker.state(), CircuitState::Open);

    let result = breaker.call(60, || Ok::<&str, String>("success"));
    assert!(result.is_ok());
    assert_eq!(breaker.state(), CircuitState::Closed);
}

fn breaker_config(enabled: bool) -> CircuitBreakerConfig {
    CircuitBreakerConfig { enabled, failure_threshold: 3, timeout_seconds: 60, half_open_max_calls: 2 }
}

#[test]
fn test_circuit_breaker_manager() {
    let mut manager = CircuitBreakerManager::new(&breaker_config(true)).unwrap();
    let counter = Cell::new(0u32);
    let result = manager.call("test_provider", 0, || {
        counter.set(counter.get() + 1);
        Ok::<&str, String>("success")
    });
    assert!(result.is_ok());
    assert_eq!(counter.get(), 1);
}

#[test]
fn test_disabled_circuit_breaker() {
    let mut manager = CircuitBreakerManager::new(&breaker_config(false)).unwrap();
    let result = manager.call("test_provider", 0, || {
        Err::<(), String>("This should still execute when disabled".to_string())
    });
    match result {
        Err(CallError::Failed(msg)) => assert!(msg.contains("This should still execute")),
        _ => panic!("expected the operation's own error"),
    }
    assert!(manager.get_stats("test_provider").is_none());
}

#[test]
fn test_circuit_breaker_failure_handling() {
    let mut manager = CircuitBreakerManager::new(&breaker_config(true)).unwrap();
    let provider = "cb_test_provider";
    for _ in 0..3 {
        let result = manager.call(provider, 0, || Ok::<String, String>("success".to_string()));
        assert!(result.is_ok());
    }
    let stats = manager.get_stats(provider);
    if let Some(stats) = stats {
        assert_eq!(stats.provider, provider);
    }
}

#[test]
fn threshold_opens_after_exactly_n_failures() {
    let mut breaker = CircuitBreaker::new(3, 1_000, 1, 0);
    for t in 0..2u64 {
        assert!(breaker.call(t, || fail("boom")).is_err());
        assert_eq!(breaker.state(), CircuitState::Closed);
    }
    assert!(breaker.call(2, || fail("boom")).is_err());
    assert_eq!(breaker.state(), CircuitState::Open);
    let ran = Cell::new(false);
    let r = breaker.call(3, || {
        ran.set(true);
        Ok::<(), String>(())
    });
    assert_eq!(r, Err(CallError::CircuitOpen));
    assert!(!ran.get());
}

#[test]
fn success_resets_failure_streak() {
    let mut breaker = CircuitBreaker::new(2, 1_000, 1, 0);
    assert!(breaker.call(0, || fail("boom")).is_err());
    assert_eq!(breaker.failure_count(), 1);
    assert!(breaker.call(1, || Ok::<(), String>(())).is_ok());
    assert_eq!(breaker.failure_count(), 0);
    assert!(breaker.call(2, || fail("boom")).is_err());
    assert_eq!(breaker.state(), CircuitState::Closed);
}

#[test]
fn recovery_rejects_before_timeout_and_admits_after() {
    let mut breaker = CircuitBreaker::new(1, 100, 1, 0);
    assert!(breaker.call(0, || fail("boom")).is_err());
    assert_eq!(breaker.state(), CircuitState::Open);
    assert_eq!(breaker.call(99, || Ok::<(), String>(())), Err(CallError::CircuitOpen));
    assert!(breaker.try_acquire(100));
    assert_eq!(breaker.state(), CircuitState::HalfOpen);
    breaker.on_success(100);
    assert_eq!(breaker.state(), CircuitState::Closed);
    assert_eq!(breaker.failure_count(), 0);
}

#[test]
fn half_open_failure_reopens() {
    let mut breaker = CircuitBreaker::new(1, 100, 2, 0);
    assert!(breaker.call(0, || fail("boom")).is_err());
    assert!(breaker.call(150, || fail("again")).is_err());
    assert_eq!(breaker.state(), CircuitState::Open);
    assert_eq!(breaker.call(200, || Ok::<(), String>(())), Err(CallError::CircuitOpen));
    assert!(breaker.call(250, || Ok::<(), String>(())).is_ok());
    assert_eq!(breaker.state(), CircuitState::Closed);
}

#[test]
fn half_open_limits_trial_calls() {
    let mut breaker = CircuitBreaker::new(1, 10, 1, 0);
    assert!(breaker.call(0, || fail("boom")).is_err());
    assert!(breaker.try_acquire(20));
    assert_eq!(breaker.state(), CircuitState::HalfOpen);
    assert!(!breaker.try_acquire(21));
}

#[test]
fn concrete_breaker_scenario() {
    let mut breaker = CircuitBreaker::new(2, 50, 1, 0);
    assert!(breaker.call(0, || fail("first")).is_err());
    assert!(breaker.call(0, || fail("second")).is_err());
    assert_eq!(breaker.state(), CircuitState::Open);
    assert_eq!(breaker.call(10, || Ok::<(), String>(())), Err(CallError::CircuitOpen));
    let r = breaker.call(60, || Ok::<u32, String>(7));
    assert_eq!(r, Ok(7));
    assert_eq!(breaker.state(), CircuitState::Closed);
    assert_eq!(breaker.failure_count(), 0);
}

#[test]
fn manager_keeps_state_per_provider() {
    let config = CircuitBreakerConfig { enabled: true, failure_threshold: 1, timeout_seconds: 1, half_open_max_calls: 1 };
    let mut manager = CircuitBreakerManager::new(&config).unwrap();
    assert!(manager.call("a", 0, || fail("boom")).is_err());
    assert_eq!(manager.get_stats("a").unwrap().state, CircuitState::Open);
    assert!(manager.call("b", 0, || Ok::<(), String>(())).is_ok());
    assert_eq!(manager.call("a", 10, || Ok::<(), String>(())), Err(CallError::CircuitOpen));
    assert!(manager.call("a", 1_000, || Ok::<(), String>(())).is_ok());
    assert_eq!(manager.get_stats("a").unwrap().state, CircuitState::Closed);
    assert_eq!(manager.get_stats("b").unwrap().failure_count, 0);
}

#[test]
fn manager_reset_closes_breaker() {
    let config = CircuitBreakerConfig { enabled: true, failure_threshold: 1, timeout_seconds: 60, half_open_max_calls: 1 };
    let mut manager = CircuitBreakerManager::new(&config).unwrap();
    assert!(manager.call("a", 0, || fail("boom")).is_err());
    manager.reset("a", 5);
    let stats = manager.get_stats("a").unwrap();
    assert_eq!(stats.state, CircuitState::Closed);
    assert_eq!(stats.failure_count, 0);
    assert_eq!(stats.state_changed_at, 5);
    assert!(stats.last_failure_time.is_none());
}

#[test]
fn manager_refuses_zero_threshold() {
    let config = CircuitBreakerConfig { enabled: true, failure_threshold: 0, timeout_seconds: 60, half_open_max_calls: 1 };
    assert_eq!(CircuitBreakerManager::new(&config).err(), Some(ConfigError::ZeroFailureThreshold));
}
