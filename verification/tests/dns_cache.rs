use asupersync::net::dns::cache::{normalize_host_key, CacheConfig, DnsCache};
use std::time::Duration;

fn lookup(addr: &str) -> Vec<String> {
    vec![addr.to_string()]
}

#[test]
fn cache_config_debug_clone_default() {
    let def = CacheConfig::default();
    assert_eq!(def.max_entries, 10_000);
    assert_eq!(def.min_ttl, Duration::from_mins(1));
    assert_eq!(def.negative_ttl, Duration::from_secs(30));
    let dbg = format!("{def:?}");
    assert!(dbg.contains("CacheConfig"), "{dbg}");
    let cloned = def.clone();
    assert_eq!(cloned.max_entries, def.max_entries);
}

#[test]
fn cache_config_default_ceiling_is_one_day() {
    assert_eq!(CacheConfig::default().max_ttl, Duration::from_secs(86_400));
}

#[test]
fn dns_cache_debug_default() {
    let cache: DnsCache<Vec<String>> = DnsCache::default();
    let dbg = format!("{cache:?}");
    assert!(dbg.contains("DnsCache"), "{dbg}");
}

#[test]
fn cache_hit_miss() {
    let mut cache = DnsCache::new();
    assert!(cache.get_ip("example.com").is_none());
    assert_eq!(cache.stats().misses, 1);
    assert_eq!(cache.stats().hits, 0);
    cache.put_ip("example.com", lookup("192.0.2.1"), &Duration::from_mins(5));
    let result = cache.get_ip("example.com");
    assert_eq!(result, Some(lookup("192.0.2.1")));
    assert_eq!(cache.stats().hits, 1);
}

#[test]
fn cache_lookup_is_case_insensitive() {
    let mut cache = DnsCache::new();
    cache.put_ip("Example.COM", lookup("192.0.2.10"), &Duration::from_mins(5));
    assert!(cache.get_ip("example.com").is_some());
    assert!(cache.get_ip("EXAMPLE.COM").is_some());
    let stats = cache.stats();
    assert_eq!(stats.size, 1);
    assert_eq!(stats.hits, 2);
}

#[test]
fn cache_expiration() {
    let config = CacheConfig {
        min_ttl: Duration::from_millis(1),
        max_ttl: Duration::from_millis(50),
        ..Default::default()
    };
    let mut cache = DnsCache::with_config(config);
    cache.put_ip_at("example.com", lookup("192.0.2.1"), &Duration::from_millis(1), 0);
    assert!(cache.get_ip_at("example.com", 0).is_some());
    // Ten milliseconds later on the cache's clock.
    assert!(cache.get_ip_at("example.com", 10_000_000).is_none());
    assert_eq!(cache.stats().size, 0);
    assert_eq!(cache.stats().evictions, 1);
}

#[test]
fn cache_clear() {
    let mut cache = DnsCache::new();
    cache.put_ip("example.com", lookup("192.0.2.1"), &Duration::from_mins(5));
    assert!(cache.stats().size > 0);
    cache.clear();
    assert_eq!(cache.stats().size, 0);
    assert_eq!(cache.stats().hits, 0);
}

#[test]
fn cache_ttl_clamping() {
    let config = CacheConfig {
        min_ttl: Duration::from_mins(1),
        max_ttl: Duration::from_hours(1),
        ..Default::default()
    };
    let mut cache = DnsCache::with_config(config);
    cache.put_ip("example.com", lookup("192.0.2.1"), &Duration::from_secs(10));
    assert!(cache.get_ip("example.com").is_some());
}

#[test]
fn clamping_bounds_the_expiry_on_the_cache_clock() {
    let config = CacheConfig {
        min_ttl: Duration::from_secs(60),
        max_ttl: Duration::from_secs(3600),
        ..Default::default()
    };
    let mut cache = DnsCache::with_config(config);
    // Raised to the one-minute floor.
    cache.put_ip_at("short", lookup("a"), &Duration::from_secs(10), 0);
    assert!(cache.get_ip_at("short", 59_999_999_999).is_some());
    assert!(cache.get_ip_at("short", 60_000_000_000).is_none());
    // Lowered to the one-hour ceiling.
    cache.put_ip_at("long", lookup("b"), &Duration::from_secs(86_400), 0);
    assert!(cache.get_ip_at("long", 3_599_999_999_999).is_some());
    assert!(cache.get_ip_at("long", 3_600_000_000_000).is_none());
    // Expiry saturates at the end of the clock.
    cache.put_ip_at("late", lookup("c"), &Duration::from_secs(120), u64::MAX - 5);
    assert!(cache.get_ip_at("late", u64::MAX - 1).is_some());
    assert!(cache.get_ip_at("late", u64::MAX).is_none());
}

#[test]
fn cache_max_entries_zero_disables_inserts() {
    let config = CacheConfig {
        max_entries: 0,
        ..Default::default()
    };
    let mut cache = DnsCache::with_config(config);
    cache.put_ip("example.com", lookup("192.0.2.1"), &Duration::from_mins(5));
    assert!(cache.get_ip("example.com").is_none());
    assert_eq!(cache.stats().size, 0);
}

#[test]
fn cache_update_existing_key_at_capacity_does_not_evict_other_entry() {
    let config = CacheConfig {
        max_entries: 2,
        ..Default::default()
    };
    let mut cache = DnsCache::with_config(config);
    let ttl = Duration::from_mins(5);
    cache.put_ip("a.example", lookup("192.0.2.1"), &ttl);
    cache.put_ip("b.example", lookup("192.0.2.2"), &ttl);
    cache.put_ip("b.example", lookup("192.0.2.20"), &ttl);
    assert!(cache.get_ip("a.example").is_some());
    assert_eq!(cache.get_ip("b.example"), Some(lookup("192.0.2.20")));
    let stats = cache.stats();
    assert_eq!(stats.size, 2);
    assert_eq!(stats.evictions, 0);
}

#[test]
fn cache_capacity_eviction_breaks_equal_insert_times_deterministically() {
    let config = CacheConfig {
        max_entries: 2,
        ..Default::default()
    };
    let mut cache = DnsCache::with_config(config);
    let ttl = Duration::from_mins(5);
    cache.put_ip_at("zeta.example", lookup("192.0.2.2"), &ttl, 1_000);
    cache.put_ip_at("alpha.example", lookup("192.0.2.1"), &ttl, 1_000);
    cache.put_ip_at("middle.example", lookup("192.0.2.3"), &ttl, 2_000);
    assert!(cache.get_ip_at("alpha.example", 3_000).is_none());
    assert!(cache.get_ip_at("zeta.example", 3_000).is_some());
    assert!(cache.get_ip_at("middle.example", 3_000).is_some());
    let stats = cache.stats();
    assert_eq!(stats.size, 2);
    assert_eq!(stats.evictions, 1);
}

#[test]
fn full_cache_drops_expired_entries_before_the_oldest() {
    let config = CacheConfig {
        max_entries: 3,
        min_ttl: Duration::from_nanos(1),
        max_ttl: Duration::from_secs(10),
        ..Default::default()
    };
    let mut cache = DnsCache::with_config(config);
    cache.put_ip_at("a", lookup("1"), &Duration::from_nanos(100), 0);
    cache.put_ip_at("b", lookup("2"), &Duration::from_nanos(100), 10);
    cache.put_ip_at("c", lookup("3"), &Duration::from_secs(1), 20);
    // At time 200, "a" and "b" have expired: both go, nothing else.
    cache.put_ip_at("d", lookup("4"), &Duration::from_secs(1), 200);
    let stats = cache.stats();
    assert_eq!(stats.size, 2);
    assert_eq!(stats.evictions, 2);
    assert!(cache.get_ip_at("c", 300).is_some());
    assert!(cache.get_ip_at("d", 300).is_some());
    cache.put_ip_at("e", lookup("5"), &Duration::from_secs(1), 400);
    // Room for "e" without evicting: size 3.
    assert_eq!(cache.stats().size, 3);
    cache.put_ip_at("f", lookup("6"), &Duration::from_secs(1), 500);
    // Full and nothing expired: the oldest ("c") goes.
    assert!(cache.get_ip_at("c", 600).is_none());
    assert_eq!(cache.stats().evictions, 3);
}

#[test]
fn remove_and_evict_expired() {
    let config = CacheConfig {
        min_ttl: Duration::from_nanos(1),
        ..Default::default()
    };
    let mut cache = DnsCache::with_config(config);
    cache.put_ip_at("Keep.example", lookup("1"), &Duration::from_secs(5), 0);
    cache.put_ip_at("gone.example", lookup("2"), &Duration::from_nanos(5), 0);
    cache.put_ip_at("other.example", lookup("3"), &Duration::from_secs(5), 0);
    cache.remove("OTHER.example");
    assert_eq!(cache.stats().size, 2);
    cache.evict_expired_at(10);
    assert_eq!(cache.stats().size, 1);
    assert_eq!(cache.stats().evictions, 1);
    assert_eq!(cache.get_ip_at("keep.EXAMPLE", 10), Some(lookup("1")));
}

#[test]
fn host_keys_fold_only_ascii_letters() {
    assert_eq!(normalize_host_key("ExAmPle.COM"), "example.com");
    assert_eq!(normalize_host_key("ÄBC-1"), "Äbc-1");
}
