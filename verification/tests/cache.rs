use proxy_pool::common::cache::GlobalCache;
use proxy_pool::model::ProxyBasic;

#[test]
fn cache_returns_what_was_set() {
    let mut cache: GlobalCache<Vec<ProxyBasic>> = GlobalCache::new();
    assert!(cache.get("proxies").is_none());
    cache.set("proxies", vec![ProxyBasic::new("127.0.0.1", "8080")]);
    let got = cache.get("proxies").unwrap();
    assert_eq!(got.len(), 1);
    assert_eq!(got[0].ip, "127.0.0.1");
    assert_eq!(got[0].port, "8080");
    assert!(cache.get("other").is_none());
}

#[test]
fn cache_set_replaces() {
    let mut cache: GlobalCache<u32> = GlobalCache::new();
    cache.set("a", 1);
    cache.set("b", 2);
    cache.set("a", 3);
    assert_eq!(cache.get("a"), Some(3));
    assert_eq!(cache.get("b"), Some(2));
}

#[test]
fn cache_remove_returns_the_value_once() {
    let mut cache: GlobalCache<String> = GlobalCache::new();
    cache.set("k", "v".to_string());
    assert_eq!(cache.remove("k"), Some("v".to_string()));
    assert_eq!(cache.remove("k"), None);
    assert_eq!(cache.get("k"), None);
    assert_eq!(cache.remove("never"), None);
}

#[test]
fn cache_clear_empties() {
    let mut cache: GlobalCache<u32> = GlobalCache::new();
    cache.set("a", 1);
    cache.set("b", 2);
    cache.clear();
    assert_eq!(cache.get("a"), None);
    assert_eq!(cache.get("b"), None);
    cache.set("a", 5);
    assert_eq!(cache.get("a"), Some(5));
}
