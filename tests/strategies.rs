use fib_strategies::lru::{FibCache, CACHE_SIZE};
use fib_strategies::memoized::{cached_dynamic_fib, cached_fib};
use fib_strategies::strategies::{backtrace_fib, backtrace_memo_fib, checked_fib, dynamic_fib};
use std::collections::HashMap;

fn all_five(n: u128) -> [u128; 5] {
    let mut shared = FibCache::new();
    let mut own = FibCache::new();
    [
        backtrace_fib(n),
        backtrace_memo_fib(&mut HashMap::new(), n),
        dynamic_fib(n),
        cached_fib(&mut FibCache::new(), n),
        cached_dynamic_fib(&mut own, &mut shared, n),
    ]
}

#[test]
fn test_each_version() {
    assert_eq!(backtrace_fib(20), 6765);
    assert_eq!(backtrace_memo_fib(&mut HashMap::new(), 20), 6765);
    assert_eq!(dynamic_fib(20), 6765);
    assert_eq!(cached_fib(&mut FibCache::new(), 20), 6765);
    assert_eq!(cached_dynamic_fib(&mut FibCache::new(), &mut FibCache::new(), 20), 6765);
}

#[test]
fn base_cases_for_every_strategy() {
    assert_eq!(all_five(0), [0; 5]);
    assert_eq!(all_five(1), [1; 5]);
}

#[test]
fn strategies_agree_up_to_thirty() {
    for n in 0..=30u128 {
        let values = all_five(n);
        for v in values.iter() {
            assert_eq!(*v, values[0]);
        }
    }
    assert_eq!(all_five(30), [832040; 5]);
}

#[test]
fn known_value_at_ten() {
    assert_eq!(all_five(10), [55; 5]);
}

#[test]
fn repeated_calls_give_the_same_value() {
    let mut memo = HashMap::new();
    assert_eq!(backtrace_fib(15), backtrace_fib(15));
    assert_eq!(backtrace_memo_fib(&mut memo, 25), 75025);
    assert_eq!(backtrace_memo_fib(&mut memo, 25), 75025);
    assert_eq!(dynamic_fib(25), dynamic_fib(25));
    let mut cache = FibCache::new();
    assert_eq!(cached_fib(&mut cache, 25), 75025);
    assert_eq!(cached_fib(&mut cache, 25), 75025);
    let mut own = FibCache::new();
    let mut shared = FibCache::new();
    assert_eq!(cached_dynamic_fib(&mut own, &mut shared, 25), 75025);
    assert_eq!(cached_dynamic_fib(&mut own, &mut shared, 25), 75025);
}

#[test]
fn memo_holds_every_index_up_to_the_argument() {
    let mut memo = HashMap::new();
    assert_eq!(backtrace_memo_fib(&mut memo, 12), 144);
    assert_eq!(memo.len(), 13);
    assert_eq!(memo.get(&7), Some(&13));
}

#[test]
fn eviction_never_changes_an_answer() {
    let mut cache = FibCache::new();
    assert_eq!(cache.capacity(), CACHE_SIZE);
    assert_eq!(cached_fib(&mut cache, 150), 9969216677189303386214405760200);
    assert_eq!(cache.len(), CACHE_SIZE);
    for n in 0..=150u128 {
        assert_eq!(cached_fib(&mut cache, n), dynamic_fib(n));
        assert!(cache.len() <= CACHE_SIZE);
    }
    assert_eq!(cached_fib(&mut cache, 0), 0);
    assert_eq!(cached_fib(&mut cache, 100), 354224848179261915075);
}

#[test]
fn dynamic_variant_warms_the_shared_cache() {
    let mut own = FibCache::new();
    let mut shared = FibCache::new();
    assert_eq!(cached_dynamic_fib(&mut own, &mut shared, 50), 12586269025);
    assert_eq!(own.len(), 1);
    assert_eq!(shared.len(), 51);
    assert_eq!(shared.lookup(50), Some(12586269025));
    assert_eq!(own.lookup(50), Some(12586269025));
}

#[test]
fn lookup_and_record() {
    let mut cache = FibCache::new();
    assert_eq!(cache.len(), 0);
    assert_eq!(cache.lookup(20), None);
    cache.record(20, 6765);
    assert_eq!(cache.lookup(20), Some(6765));
    assert_eq!(cache.len(), 1);
    cache.record(20, 6765);
    assert_eq!(cache.len(), 1);
}

#[test]
fn record_past_the_bound_evicts_the_least_recent() {
    let mut cache = FibCache::new();
    for n in 0..CACHE_SIZE as u128 {
        cache.record(n, dynamic_fib(n));
    }
    assert_eq!(cache.len(), CACHE_SIZE);
    assert_eq!(cache.lookup(0), Some(0));
    cache.record(100, dynamic_fib(100));
    assert_eq!(cache.len(), CACHE_SIZE);
    assert_eq!(cache.lookup(1), None);
    assert_eq!(cache.lookup(0), Some(0));
    assert_eq!(cached_fib(&mut cache, 1), 1);
}

#[test]
fn monotone_growth() {
    let mut prev = dynamic_fib(0);
    for n in 1..=186u128 {
        let cur = dynamic_fib(n);
        assert!(prev <= cur);
        if n >= 3 {
            assert!(prev < cur);
        }
        prev = cur;
    }
}

#[test]
fn checked_fib_reports_overflow() {
    assert_eq!(checked_fib(0), Some(0));
    assert_eq!(checked_fib(1), Some(1));
    assert_eq!(checked_fib(20), Some(6765));
    assert_eq!(checked_fib(186), Some(332825110087067562321196029789634457848));
    assert_eq!(checked_fib(187), None);
    assert_eq!(checked_fib(u128::MAX), None);
}
