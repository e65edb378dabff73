//! The signaling-server configuration: its data model, the built-in fallback
//! configuration, and the time-to-live cache in front of the remote API.

use vstd::prelude::*;
use vstd::string::*;

verus! {

/// What a signaling server supports.
#[derive(Clone, Copy, PartialEq, Eq, Structural, Debug)]
pub struct Features {
    pub p2p: bool,
    pub relay: bool,
}

/// The load limits of a signaling server.
#[derive(Clone, Copy, PartialEq, Eq, Structural, Debug)]
pub struct Limits {
    pub max_connections: u32,
}

/// One signaling server that clients may use.
#[derive(Debug)]
pub struct SignalingServer {
    pub id: String,
    pub url: String,
    pub region: String,
    pub provider: String,
    pub priority: i32,
    pub weight: i32,
    pub secure: bool,
    pub features: Features,
    pub limits: Limits,
}

/// The list of signaling servers, with its version, fetch time and lifetime
/// in seconds.
#[derive(Debug)]
pub struct SignalingEnvConfig {
    pub version: String,
    pub updated_at: u64,
    pub ttl: u32,
    pub servers: Vec<SignalingServer>,
}

pub struct SignalingServerView {
    pub id: Seq<char>,
    pub url: Seq<char>,
    pub region: Seq<char>,
    pub provider: Seq<char>,
    pub priority: i32,
    pub weight: i32,
    pub secure: bool,
    pub features: Features,
    pub limits: Limits,
}

pub struct SignalingEnvConfigView {
    pub version: Seq<char>,
    pub updated_at: u64,
    pub ttl: u32,
    pub servers: Seq<SignalingServerView>,
}

/// The views of a sequence of servers.
pub open spec fn servers_view(v: Seq<SignalingServer>) -> Seq<SignalingServerView> {
    v.map_values(|s: SignalingServer| s@)
}

impl View for SignalingServer {
    type V = SignalingServerView;

    open spec fn view(&self) -> SignalingServerView {
        SignalingServerView {
            id: self.id@,
            url: self.url@,
            region: self.region@,
            provider: self.provider@,
            priority: self.priority,
            weight: self.weight,
            secure: self.secure,
            features: self.features,
            limits: self.limits,
        }
    }
}

impl View for SignalingEnvConfig {
    type V = SignalingEnvConfigView;

    open spec fn view(&self) -> SignalingEnvConfigView {
        SignalingEnvConfigView {
            version: self.version@,
            updated_at: self.updated_at,
            ttl: self.ttl,
            servers: servers_view(self.servers@),
        }
    }
}

impl Clone for SignalingServer {
    fn clone(&self) -> (res: Self)
        ensures
            res@ == self@,
    {
        SignalingServer {
            id: self.id.clone(),
            url: self.url.clone(),
            region: self.region.clone(),
            provider: self.provider.clone(),
            priority: self.priority,
            weight: self.weight,
            secure: self.secure,
            features: self.features,
            limits: self.limits,
        }
    }
}

impl Clone for SignalingEnvConfig {
    fn clone(&self) -> (res: Self)
        ensures
            res@ == self@,
    {
        let mut servers: Vec<SignalingServer> = Vec::new();
        let mut i: usize = 0;
        while i < self.servers.len()
            invariant
                i <= self.servers@.len(),
                servers@.len() == i,
                forall|j: int| 0 <= j < i ==> #[trigger] servers@[j]@ == self.servers@[j]@,
            decreases self.servers@.len() - i,
        {
            let s = self.servers[i].clone();
            servers.push(s);
            i = i + 1;
        }
        let res = SignalingEnvConfig {
            version: self.version.clone(),
            updated_at: self.updated_at,
            ttl: self.ttl,
            servers,
        };
        assert(res@.servers =~= self@.servers);
        res
    }
}

/// The built-in configuration that is served while nothing was fetched.
pub open spec fn default_config_view() -> SignalingEnvConfigView {
    SignalingEnvConfigView {
        version: "1.0"@,
        updated_at: 1712345678,
        ttl: 300,
        servers: seq![
            SignalingServerView {
                id: "cn-1"@,
                url: "wss://cn1.example.com"@,
                region: "CN"@,
                provider: "official"@,
                priority: 100,
                weight: 1,
                secure: true,
                features: Features { p2p: true, relay: false },
                limits: Limits { max_connections: 1000 },
            },
        ],
    }
}

impl SignalingEnvConfig {
    /// The built-in fallback configuration: one official server in region CN.
    pub fn default_config() -> (res: Self)
        ensures
            res@ == default_config_view(),
    {
        let server = SignalingServer {
            id: String::from_str("cn-1"),
            url: String::from_str("wss://cn1.example.com"),
            region: String::from_str("CN"),
            provider: String::from_str("official"),
            priority: 100,
            weight: 1,
            secure: true,
            features: Features { p2p: true, relay: false },
            limits: Limits { max_connections: 1000 },
        };
        let mut servers: Vec<SignalingServer> = Vec::new();
        servers.push(server);
        let res = SignalingEnvConfig {
            version: String::from_str("1.0"),
            updated_at: 1712345678,
            ttl: 300,
            servers,
        };
        assert(res@.servers =~= default_config_view().servers);
        res
    }
}

// ---------------------------------------------------------------------------
// The cache
// ---------------------------------------------------------------------------

/// The lifetime, in seconds, of what the cache holds (300 while it is empty).
pub open spec fn cache_ttl(config: Option<SignalingEnvConfigView>) -> u64 {
    match config {
        Some(c) => c.ttl as u64,
        None => 300,
    }
}

/// `a - b`, or 0 where `b > a`.
pub open spec fn saturating_sub(a: u64, b: u64) -> u64 {
    if a >= b {
        (a - b) as u64
    } else {
        0
    }
}

pub struct ServerCacheView {
    pub config: Option<SignalingEnvConfigView>,
    pub last_fetch_at: u64,
}

/// Whether a cache in state `c` asks for a fetch at time `now`.
pub open spec fn cache_needs_fetch(c: ServerCacheView, now: u64) -> bool {
    saturating_sub(now, c.last_fetch_at) >= cache_ttl(c.config)
}

/// What a cache in state `c` serves: what it holds, or the built-in default.
pub open spec fn cache_served(c: ServerCacheView) -> SignalingEnvConfigView {
    match c.config {
        Some(cfg) => cfg,
        None => default_config_view(),
    }
}

/// A fetched configuration as it is kept: stamped with the fetch time.
pub open spec fn stamped(fetched: SignalingEnvConfigView, now: u64) -> SignalingEnvConfigView {
    SignalingEnvConfigView { updated_at: now, ..fetched }
}

/// The cache after a successful fetch at `now`.
pub open spec fn cache_after_fetch(
    c: ServerCacheView,
    fetched: SignalingEnvConfigView,
    now: u64,
) -> ServerCacheView {
    ServerCacheView { config: Some(stamped(fetched, now)), last_fetch_at: now }
}

/// The cache of the last configuration fetched from the remote API.
pub struct ServerCache {
    config: Option<SignalingEnvConfig>,
    last_fetch_at: u64,
}

impl View for ServerCache {
    type V = ServerCacheView;

    closed spec fn view(&self) -> ServerCacheView {
        ServerCacheView {
            config: match self.config {
                Some(c) => Some(c@),
                None => None,
            },
            last_fetch_at: self.last_fetch_at,
        }
    }
}

impl ServerCache {
    /// An empty cache, as at start-up.
    pub fn new() -> (res: Self)
        ensures
            res@ == (ServerCacheView { config: None, last_fetch_at: 0 }),
    {
        ServerCache { config: None, last_fetch_at: 0 }
    }

    /// Whether the remote API must be asked at time `now` (in seconds since
    /// the epoch): when the lifetime of what is held has run out.
    pub fn needs_fetch(&self, now: u64) -> (res: bool)
        ensures
            res == cache_needs_fetch(self@, now),
    {
        let ttl: u64 = match &self.config {
            Some(c) => c.ttl as u64,
            None => 300,
        };
        let elapsed: u64 = if now >= self.last_fetch_at {
            now - self.last_fetch_at
        } else {
            0
        };
        elapsed >= ttl
    }

    /// Keeps a configuration fetched at `now` and returns it, stamped with
    /// the fetch time.
    pub fn record_fetch(&mut self, fetched: SignalingEnvConfig, now: u64) -> (res:
        SignalingEnvConfig)
        ensures
            res@ == stamped(fetched@, now),
            final(self)@ == cache_after_fetch(old(self)@, fetched@, now),
            res@.updated_at == now,
            res@.version == fetched@.version,
            res@.ttl == fetched@.ttl,
            res@.servers == fetched@.servers,
            final(self)@.config == Some(res@),
            final(self)@.last_fetch_at == now,
    {
        let mut fetched = fetched;
        fetched.updated_at = now;
        self.config = Some(fetched.clone());
        self.last_fetch_at = now;
        fetched
    }

    /// The configuration to serve: what is held, or the built-in default.
    pub fn current(&self) -> (res: SignalingEnvConfig)
        ensures
            res@ == cache_served(self@),
    {
        match &self.config {
            Some(c) => c.clone(),
            None => SignalingEnvConfig::default_config(),
        }
    }

    /// Ends a request for the configuration at `now`: a configuration fetched
    /// from the remote API (`Some`) is kept and served, stamped with `now`;
    /// where nothing was fetched (no fetch was due, or the API failed) the
    /// cache is left as it was and serves what it holds or the default.
    pub fn after_fetch(&mut self, fetched: Option<SignalingEnvConfig>, now: u64) -> (res:
        SignalingEnvConfig)
        ensures
            final(self)@ == cache_after_attempt(old(self)@, view_of_fetched(fetched), now),
            res@ == cache_served(final(self)@),
            match fetched {
                Some(b) => res@ == stamped(b@, now) && final(self)@ == cache_after_fetch(
                    old(self)@,
                    b@,
                    now,
                ),
                None => final(self)@ == old(self)@ && res@ == cache_served(old(self)@),
            },
    {
        match fetched {
            Some(b) => self.record_fetch(b, now),
            None => self.current(),
        }
    }
}

/// The view of what a fetch brought, if anything.
pub open spec fn view_of_fetched(fetched: Option<SignalingEnvConfig>) -> Option<
    SignalingEnvConfigView,
> {
    match fetched {
        Some(b) => Some(b@),
        None => None,
    }
}

/// The cache after a request at `now` that fetched `fetched` (`None`: nothing).
pub open spec fn cache_after_attempt(
    c: ServerCacheView,
    fetched: Option<SignalingEnvConfigView>,
    now: u64,
) -> ServerCacheView {
    match fetched {
        Some(b) => cache_after_fetch(c, b, now),
        None => c,
    }
}

/// What a cache holds agrees with when it fetched: nothing held means it
/// never fetched, and what it holds carries the time it was fetched.
pub open spec fn cache_consistent(c: ServerCacheView) -> bool {
    match c.config {
        None => c.last_fetch_at == 0,
        Some(cfg) => cfg.updated_at == c.last_fetch_at,
    }
}

/// Over any sequence of requests, whatever the clock and whatever the remote
/// API returns, the cache stays consistent: it starts so, and every request
/// keeps it so.
pub proof fn law_cache_stays_consistent(
    c: ServerCacheView,
    fetched: Option<SignalingEnvConfigView>,
    now: u64,
)
    ensures
        cache_consistent(ServerCacheView { config: None, last_fetch_at: 0 }),
        cache_consistent(c) ==> cache_consistent(cache_after_attempt(c, fetched, now)),
{
}

/// A configuration fetched at `fetched_at` is served unchanged, without a new
/// fetch, at every later time before its lifetime has run out.
pub proof fn law_fetched_config_served_within_ttl(
    c: ServerCacheView,
    fetched: SignalingEnvConfigView,
    fetched_at: u64,
    now: u64,
)
    requires
        fetched_at <= now,
        now < fetched_at + fetched.ttl,
    ensures
        !cache_needs_fetch(cache_after_fetch(c, fetched, fetched_at), now),
        cache_served(cache_after_fetch(c, fetched, fetched_at)) == stamped(fetched, fetched_at),
{
}

/// Stamping a fetched configuration changes its fetch time and nothing else.
pub proof fn law_stamp_keeps_fetched_content(fetched: SignalingEnvConfigView, now: u64)
    ensures
        stamped(fetched, now).updated_at == now,
        stamped(fetched, now).version == fetched.version,
        stamped(fetched, now).ttl == fetched.ttl,
        stamped(fetched, now).servers == fetched.servers,
        cache_after_fetch(
            ServerCacheView { config: None, last_fetch_at: 0 },
            fetched,
            now,
        ).config == Some(stamped(fetched, now)),
{
}

/// Once the lifetime of a fetched configuration has run out, the cache asks
/// for a new fetch.
pub proof fn law_fetch_again_after_ttl(
    c: ServerCacheView,
    fetched: SignalingEnvConfigView,
    fetched_at: u64,
    now: u64,
)
    requires
        now >= fetched_at + fetched.ttl,
    ensures
        cache_needs_fetch(cache_after_fetch(c, fetched, fetched_at), now),
{
}

/// A cache that never fetched serves the built-in default, and asks for a
/// fetch from 300 seconds after the epoch on.
pub proof fn law_empty_cache_serves_default(now: u64)
    ensures
        cache_served(ServerCacheView { config: None, last_fetch_at: 0 }) == default_config_view(),
        cache_needs_fetch(ServerCacheView { config: None, last_fetch_at: 0 }, now) <==> now
            >= 300,
{
}

// ---------------------------------------------------------------------------
// The request to the remote API
// ---------------------------------------------------------------------------

/// The address of the remote API and the key sent with it, if any.
pub struct FetchPlan {
    pub url: String,
    pub api_key: Option<String>,
}

pub open spec fn default_api_url() -> Seq<char> {
    "https://flowcore.app/api/signaling-servers"@
}

/// Where to fetch the configuration from, given the values of the
/// `FLOWCORE_API_URL` and `FLOWCORE_API_KEY` settings (`None` where unset):
/// the given URL or the official one, and the key only where it is not empty.
pub fn fetch_plan(api_url: Option<String>, api_key: Option<String>) -> (res: FetchPlan)
    ensures
        res.url@ == match api_url {
            Some(u) => u@,
            None => default_api_url(),
        },
        match res.api_key {
            Some(k) => api_key is Some && k@ == api_key->0@ && k@.len() > 0,
            None => api_key is None || api_key->0@.len() == 0,
        },
{
    let url = match api_url {
        Some(u) => u,
        None => String::from_str("https://flowcore.app/api/signaling-servers"),
    };
    let api_key = match api_key {
        Some(k) => if k.as_str().is_empty() {
            None
        } else {
            Some(k)
        },
        None => None,
    };
    FetchPlan { url, api_key }
}

} // verus!
