use broker_cluster::pool::{MutexPool, PoolItemBuilder, RetryConfig, RetryPolicy};
use std::cell::Cell;
use std::rc::Rc;

/// Builds the address with a serial number, counting its builds; fails for
/// addresses that start with "bad".
#[derive(Clone)]
struct Counting {
    builds: Rc<Cell<u32>>,
}

impl PoolItemBuilder for Counting {
    type Item = (String, u32);
    type Error = String;

    fn build(&self, token: &String) -> Result<(String, u32), String> {
        self.builds.set(self.builds.get() + 1);
        if token.starts_with("bad") {
            Err(format!("cannot reach {}", token))
        } else {
            Ok((token.clone(), self.builds.get()))
        }
    }
}

fn pool() -> (MutexPool<Counting>, Rc<Cell<u32>>) {
    let builds = Rc::new(Cell::new(0));
    (
        MutexPool::new(
            Counting {
                builds: builds.clone(),
            },
            None,
        ),
        builds,
    )
}

#[test]
fn one_build_serves_every_request_for_a_key() {
    let (mut pool, builds) = pool();
    let key = "10.0.0.2:9090".to_string();
    let first = pool.get(&key).unwrap();
    assert_eq!(first, ("10.0.0.2:9090".to_string(), 1));
    for _ in 0..10 {
        assert_eq!(pool.get(&key).unwrap(), first);
    }
    assert_eq!(builds.get(), 1);
    assert_eq!(pool.lookup(&key), Some(first));
}

#[test]
fn keys_are_built_apart() {
    let (mut pool, builds) = pool();
    let a = pool.get(&"a".to_string()).unwrap();
    let b = pool.get(&"b".to_string()).unwrap();
    assert_eq!(a, ("a".to_string(), 1));
    assert_eq!(b, ("b".to_string(), 2));
    assert_eq!(pool.get(&"a".to_string()).unwrap(), a);
    assert_eq!(pool.get(&"b".to_string()).unwrap(), b);
    assert_eq!(builds.get(), 2);
    assert_eq!(pool.lookup(&"c".to_string()), None);
    assert_eq!(pool.lookup(&"".to_string()), None);
}

#[test]
fn failed_build_is_not_cached() {
    let (mut pool, builds) = pool();
    let key = "bad:1".to_string();
    for attempt in 1..=4 {
        assert_eq!(pool.get(&key), Err("cannot reach bad:1".to_string()));
        assert_eq!(builds.get(), attempt);
        assert_eq!(pool.lookup(&key), None);
    }
    // other keys are not touched by the failures
    assert!(pool.get(&"good".to_string()).is_ok());
    assert_eq!(pool.lookup(&key), None);
}

#[test]
fn store_built_replaces_what_was_cached() {
    let (mut pool, builds) = pool();
    let key = "k".to_string();
    assert_eq!(
        pool.store_built(&key, Ok(("first".to_string(), 7))),
        Ok(("first".to_string(), 7))
    );
    assert_eq!(pool.lookup(&key), Some(("first".to_string(), 7)));
    assert_eq!(
        pool.store_built(&key, Ok(("second".to_string(), 8))),
        Ok(("second".to_string(), 8))
    );
    assert_eq!(pool.lookup(&key), Some(("second".to_string(), 8)));
    assert_eq!(
        pool.store_built(&key, Err("down".to_string())),
        Err("down".to_string())
    );
    assert_eq!(pool.lookup(&key), Some(("second".to_string(), 8)));
    assert_eq!(builds.get(), 0);
}

#[test]
fn pool_keeps_its_configuration() {
    let config = RetryConfig::new(3, 250, RetryPolicy::FixedRetry);
    assert_eq!(config.retry_times(), 3);
    assert_eq!(config.initial_retry_interval_millis(), 250);
    assert_eq!(config.retry_policy(), RetryPolicy::FixedRetry);
    let builds = Rc::new(Cell::new(0));
    let pool = MutexPool::new(
        Counting {
            builds: builds.clone(),
        },
        Some(config),
    );
    assert_eq!(pool.retry_build_config(), Some(config));
    assert!(pool.item_builder().build(&"x".to_string()).is_ok());
    assert_eq!(builds.get(), 1);
}
