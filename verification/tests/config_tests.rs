use pihub::config::{fetch_plan, Features, Limits, ServerCache, SignalingEnvConfig, SignalingServer};

const DEFAULT_JSON: &str = r#"{
  "version": "1.0",
  "updated_at": 1712345678,
  "ttl": 300,
  "servers": [
    {
      "id": "cn-1",
      "url": "wss://cn1.example.com",
      "region": "CN",
      "provider": "official",
      "priority": 100,
      "weight": 1,
      "secure": true,
      "features": {
        "p2p": true,
        "relay": false
      },
      "limits": {
        "max_connections": 1000
      }
    }
  ]
}"#;

#[test]
fn default_config_matches_builtin_json() {
    let v: serde_json::Value = serde_json::from_str(DEFAULT_JSON).unwrap();
    let c = SignalingEnvConfig::default_config();
    assert_eq!(v["version"].as_str().unwrap(), c.version);
    assert_eq!(v["updated_at"].as_u64().unwrap(), c.updated_at);
    assert_eq!(v["ttl"].as_u64().unwrap(), c.ttl as u64);
    let servers = v["servers"].as_array().unwrap();
    assert_eq!(servers.len(), c.servers.len());
    let s = &servers[0];
    let d = &c.servers[0];
    assert_eq!(s["id"].as_str().unwrap(), d.id);
    assert_eq!(s["url"].as_str().unwrap(), d.url);
    assert_eq!(s["region"].as_str().unwrap(), d.region);
    assert_eq!(s["provider"].as_str().unwrap(), d.provider);
    assert_eq!(s["priority"].as_i64().unwrap(), d.priority as i64);
    assert_eq!(s["weight"].as_i64().unwrap(), d.weight as i64);
    assert_eq!(s["secure"].as_bool().unwrap(), d.secure);
    assert_eq!(s["features"]["p2p"].as_bool().unwrap(), d.features.p2p);
    assert_eq!(s["features"]["relay"].as_bool().unwrap(), d.features.relay);
    assert_eq!(s["limits"]["max_connections"].as_u64().unwrap(), d.limits.max_connections as u64);
}

fn fetched(ttl: u32) -> SignalingEnvConfig {
    SignalingEnvConfig {
        version: "2.5".to_string(),
        updated_at: 7,
        ttl,
        servers: vec![SignalingServer {
            id: "eu-1".to_string(),
            url: "wss://eu1.example.com".to_string(),
            region: "EU".to_string(),
            provider: "community".to_string(),
            priority: 5,
            weight: 3,
            secure: false,
            features: Features { p2p: true, relay: true },
            limits: Limits { max_connections: 50 },
        }],
    }
}

#[test]
fn empty_cache_serves_default_and_fetches_after_300s() {
    let cache = ServerCache::new();
    assert!(!cache.needs_fetch(0));
    assert!(!cache.needs_fetch(299));
    assert!(cache.needs_fetch(300));
    assert!(cache.needs_fetch(1_700_000_000));
    let c = cache.current();
    assert_eq!(c.version, "1.0");
    assert_eq!(c.servers[0].id, "cn-1");
}

#[test]
fn fetched_config_served_within_ttl() {
    let mut cache = ServerCache::new();
    let stored = cache.record_fetch(fetched(60), 1000);
    assert_eq!(stored.updated_at, 1000);
    assert_eq!(stored.version, "2.5");
    assert!(!cache.needs_fetch(1000));
    assert!(!cache.needs_fetch(1059));
    assert!(cache.needs_fetch(1060));
    let served = cache.current();
    assert_eq!(served.version, "2.5");
    assert_eq!(served.updated_at, 1000);
    assert_eq!(served.ttl, 60);
    assert_eq!(served.servers.len(), 1);
    assert_eq!(served.servers[0].region, "EU");
    assert_eq!(served.servers[0].limits.max_connections, 50);
}

#[test]
fn clock_going_back_does_not_refetch() {
    let mut cache = ServerCache::new();
    cache.record_fetch(fetched(60), 1000);
    assert!(!cache.needs_fetch(10));
    let mut zero = ServerCache::new();
    zero.record_fetch(fetched(0), 1000);
    assert!(zero.needs_fetch(10));
}

#[test]
fn fetch_plan_defaults_and_key() {
    let p = fetch_plan(None, None);
    assert_eq!(p.url, "https://flowcore.app/api/signaling-servers");
    assert!(p.api_key.is_none());
    let p = fetch_plan(Some("http://localhost:9/x".to_string()), Some(String::new()));
    assert_eq!(p.url, "http://localhost:9/x");
    assert!(p.api_key.is_none());
    let p = fetch_plan(None, Some("k-123".to_string()));
    assert_eq!(p.api_key.as_deref(), Some("k-123"));
}

#[test]
fn clone_keeps_every_field() {
    let a = fetched(42);
    let b = a.clone();
    assert_eq!(b.version, a.version);
    assert_eq!(b.ttl, 42);
    assert_eq!(b.servers[0].url, a.servers[0].url);
    assert_eq!(b.servers[0].features, a.servers[0].features);
}

#[test]
fn after_fetch_keeps_or_serves_cache() {
    let mut cache = ServerCache::new();
    let served = cache.after_fetch(None, 5000);
    assert_eq!(served.version, "1.0");
    assert!(cache.needs_fetch(5000));
    let served = cache.after_fetch(Some(fetched(60)), 5000);
    assert_eq!(served.version, "2.5");
    assert_eq!(served.updated_at, 5000);
    assert!(!cache.needs_fetch(5010));
    let served = cache.after_fetch(None, 6000);
    assert_eq!(served.version, "2.5");
    assert_eq!(served.updated_at, 5000);
    assert!(cache.needs_fetch(6000));
}
