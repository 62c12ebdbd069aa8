use rust_extensions::idempotency::idempotency_cache_inner::{Claim, IdempotencyCacheInner, Lookup};

fn result_of(cache: &IdempotencyCacheInner<u32, String>, key: &str) -> Option<String> {
    match cache.lookup(key) {
        Lookup::Completed(result) => Some(result.clone()),
        _ => None,
    }
}

#[test]
fn claim_makes_the_first_caller_the_owner() {
    let mut cache: IdempotencyCacheInner<u32, String> = IdempotencyCacheInner::new(10);
    match cache.claim("a", 1) {
        Claim::Owner(waiter) => assert_eq!(waiter, 1),
        _ => panic!("an unknown key is claimed by its first caller"),
    }
    assert_eq!(cache.get_executing_amount(), 1);
    assert_eq!(cache.get_completed_amount(), 0);
    assert!(matches!(cache.lookup("a"), Lookup::Executing(0)));
}

#[test]
fn claim_parks_a_retry_while_the_key_is_executed() {
    let mut cache: IdempotencyCacheInner<u32, String> = IdempotencyCacheInner::new(10);
    assert!(matches!(cache.claim("a", 1), Claim::Owner(1)));
    assert!(matches!(cache.claim("a", 2), Claim::Parked));
    assert!(matches!(cache.claim("a", 3), Claim::Parked));
    let parked = cache.commit("a", "done".to_string());
    assert_eq!(parked, vec![2, 3]);
    assert_eq!(result_of(&cache, "a"), Some("done".to_string()));
}

#[test]
fn claim_answers_a_retry_after_commit_from_memory() {
    let mut cache: IdempotencyCacheInner<u32, String> = IdempotencyCacheInner::new(10);
    assert!(matches!(cache.claim("a", 1), Claim::Owner(1)));
    assert!(cache.commit("a", "first".to_string()).is_empty());
    match cache.claim("a", 7) {
        Claim::Completed(waiter) => assert_eq!(waiter, 7),
        _ => panic!("a completed key is answered from memory"),
    }
    assert_eq!(result_of(&cache, "a"), Some("first".to_string()));
    assert_eq!(cache.get_completed_amount(), 1);
    assert_eq!(cache.get_executing_amount(), 0);
}

#[test]
fn memorized_results_are_capped_oldest_completion_first() {
    let mut cache: IdempotencyCacheInner<u32, String> = IdempotencyCacheInner::new(2);
    for key in ["a", "b", "c", "d"] {
        assert!(matches!(cache.claim(key, 0), Claim::Owner(0)));
    }
    cache.commit("b", "b".to_string());
    cache.commit("a", "a".to_string());
    cache.commit("c", "c".to_string());
    // three completions for a limit of two: the oldest completion ("b") is evicted
    assert_eq!(cache.get_completed_amount(), 2);
    assert_eq!(cache.get_executing_amount(), 1);
    assert!(matches!(cache.lookup("b"), Lookup::Unknown));
    assert_eq!(result_of(&cache, "a"), Some("a".to_string()));
    assert_eq!(result_of(&cache, "c"), Some("c".to_string()));
    assert!(matches!(cache.lookup("d"), Lookup::Executing(_)));
}

#[test]
fn release_forgets_an_abandoned_execution() {
    let mut cache: IdempotencyCacheInner<u32, String> = IdempotencyCacheInner::new(2);
    assert!(matches!(cache.claim("a", 1), Claim::Owner(1)));
    assert!(matches!(cache.claim("a", 2), Claim::Parked));
    assert!(cache.release("a").is_some());
    assert!(matches!(cache.lookup("a"), Lookup::Unknown));
    assert!(matches!(cache.claim("a", 3), Claim::Owner(3)));
}
