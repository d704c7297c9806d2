//! The runtime shape of the proxy's configuration, and its defaults.
//!
//! The configuration file itself is TOML and is read and parsed outside this
//! crate; what arrives here are its plain values. Every optional field falls
//! back to the default given below. All durations are in milliseconds.

use vstd::prelude::*;
use vstd::string::StringExecFns;
use crate::handler::{BackendPool, BackendPoolBuilder};
use crate::health::{HealthCell, HealthConfig, Healthiness};

verus! {

/// Where the proxy listens when the configuration names no address.
pub fn default_listen_address() -> (r: String)
    ensures
        r@ == "127.0.0.1:9799"@,
{
    String::from_str("127.0.0.1:9799")
}

/// The probe timeout applied when the configuration names none: half a
/// second.
pub fn default_timeout() -> (r: u64)
    ensures
        r == 500,
{
    500
}

/// The probe interval applied when the configuration names none: five
/// seconds.
pub fn default_interval() -> (r: u64)
    ensures
        r == 5000,
{
    5000
}

/// The path probed on every backend when the configuration names none.
pub fn default_path() -> (r: String)
    ensures
        r@ == "/"@,
{
    String::from_str("/")
}

/// The `[backend.health_config]` table of the configuration file, as plain
/// values: probe timeout and interval in milliseconds, and the probe path.
pub struct HealthTomlConfig {
    pub timeout: u64,
    pub interval: u64,
    pub path: String,
}

/// The health settings used when the configuration has no
/// `[backend.health_config]` table at all.
pub fn default_health_config() -> (r: HealthTomlConfig)
    ensures
        r.timeout == 500,
        r.interval == 5000,
        r.path@ == "/"@,
{
    HealthTomlConfig { timeout: default_timeout(), interval: default_interval(), path: default_path() }
}

/// Optional settings of the shared upstream HTTP client: idle timeout of the
/// connection pool in milliseconds, and the number of idle connections kept
/// per backend.
pub struct BackendConnectionConfig {
    pub pool_idle_timeout: Option<u64>,
    pub pool_max_idle_per_host: Option<usize>,
}

/// The `[backend]` table of the configuration file, as plain values.
pub struct BackendPoolConfig {
    pub addresses: Vec<String>,
    pub client: Option<BackendConnectionConfig>,
    pub health_config: HealthTomlConfig,
}

/// The validated runtime configuration: the listen address and the backend
/// pool built from the configuration file.
pub struct RuntimeConfig {
    pub listen_address: String,
    pub backend: BackendPool,
}

/// A configuration value that could not be understood.
pub enum ConfigError {
    InvalidData(String),
}

/// Wraps a parse failure as an invalid-data configuration error.
pub fn invalid_data(message: String) -> (r: ConfigError)
    ensures
        r matches ConfigError::InvalidData(m) && m@ == message@,
{
    ConfigError::InvalidData(message)
}

impl BackendPool {
    /// Builds the pool a configuration describes: every configured address
    /// gets a fresh health cell that starts `Healthy`; a duplicated address
    /// keeps a single cell. The pool's address set is exactly the
    /// configuration's address set.
    pub fn from_config(config: BackendPoolConfig) -> (pool: BackendPool)
        ensures
            pool.spec_wf(),
            forall|a: Seq<char>|
                #[trigger] pool.spec_has_addr(a) <==> (exists|i: int|
                    0 <= i < config.addresses@.len() && (#[trigger] config.addresses@[i])@ == a),
            pool.health_config.timeout == config.health_config.timeout,
            pool.health_config.interval == config.health_config.interval,
            pool.health_config.path@ == config.health_config.path@,
            match config.client {
                Some(c) => pool.client.pool_idle_timeout == c.pool_idle_timeout
                    && pool.client.pool_max_idle_per_host == c.pool_max_idle_per_host,
                None => pool.client.pool_idle_timeout is None
                    && pool.client.pool_max_idle_per_host is None,
            },
    {
        let n = config.addresses.len();
        let mut entries: Vec<(String, HealthCell)> = Vec::new();
        let mut i: usize = 0;
        while i < n
            invariant
                i <= n,
                n == config.addresses@.len(),
                forall|p: int, q: int|
                    0 <= p < q < entries@.len() ==> (#[trigger] entries@[p]).0@ != (
                    #[trigger] entries@[q]).0@,
                forall|p: int|
                    0 <= p < entries@.len() ==> (exists|j: int|
                        0 <= j < i && (#[trigger] config.addresses@[j])@ == (
                        #[trigger] entries@[p]).0@),
                forall|j: int|
                    0 <= j < i ==> (exists|p: int|
                        0 <= p < entries@.len() && (#[trigger] entries@[p]).0@ == (
                        #[trigger] config.addresses@[j])@),
            decreases n - i,
        {
            let address = &config.addresses[i];
            let mut seen = false;
            let m = entries.len();
            let mut k: usize = 0;
            while k < m
                invariant
                    k <= m,
                    m == entries@.len(),
                    seen == (exists|p: int|
                        0 <= p < k && (#[trigger] entries@[p]).0@ == address@),
                decreases m - k,
            {
                if entries[k].0 == *address {
                    assert(entries@[k as int].0@ == address@);
                    seen = true;
                }
                k = k + 1;
            }
            let ghost before = entries@;
            if !seen {
                entries.push((address.clone(), HealthCell::new(Healthiness::Healthy)));
            }
            proof {
                assert(config.addresses@[i as int]@ == address@);
                if !seen {
                    assert(entries@.len() == before.len() + 1);
                    assert((entries@[before.len() as int]).0@ == address@);
                    assert forall|p: int, q: int|
                        0 <= p < q < entries@.len() implies (#[trigger] entries@[p]).0@ != (
                    #[trigger] entries@[q]).0@ by {
                        if q < before.len() {
                            assert(before[p].0@ != before[q].0@);
                        } else {
                            assert(entries@[q].0@ == address@);
                            if entries@[p].0@ == address@ {
                                assert(before[p].0@ == address@);
                            }
                        }
                    }
                    assert forall|p: int| 0 <= p < entries@.len() implies (exists|j: int|
                        0 <= j < i + 1 && (#[trigger] config.addresses@[j])@ == (
                    #[trigger] entries@[p]).0@) by {
                        if p < before.len() {
                            let j = choose|j: int|
                                0 <= j < i && (#[trigger] config.addresses@[j])@ == before[p].0@;
                            assert(config.addresses@[j]@ == entries@[p].0@);
                        } else {
                            assert(config.addresses@[i as int]@ == entries@[p].0@);
                        }
                    }
                    assert forall|j: int| 0 <= j < i + 1 implies (exists|p: int|
                        0 <= p < entries@.len() && (#[trigger] entries@[p]).0@ == (
                    #[trigger] config.addresses@[j])@) by {
                        if j < i {
                            let p = choose|p: int|
                                0 <= p < before.len() && (#[trigger] before[p]).0@
                                    == config.addresses@[j]@;
                            assert(entries@[p].0@ == config.addresses@[j]@);
                        } else {
                            assert(entries@[before.len() as int].0@ == config.addresses@[j]@);
                        }
                    }
                } else {
                    assert forall|j: int| 0 <= j < i + 1 implies (exists|p: int|
                        0 <= p < entries@.len() && (#[trigger] entries@[p]).0@ == (
                    #[trigger] config.addresses@[j])@) by {
                        if j < i {
                            assert(exists|p: int|
                                0 <= p < entries@.len() && (#[trigger] entries@[p]).0@
                                    == config.addresses@[j]@);
                        } else {
                            let p = choose|p: int|
                                0 <= p < entries@.len() && (#[trigger] entries@[p]).0@ == address@;
                            assert(entries@[p].0@ == config.addresses@[j]@);
                        }
                    }
                }
            }
            i = i + 1;
        }
        let ghost entries_view = entries@;
        let health_toml_config = config.health_config;
        let health_config = HealthConfig {
            timeout: health_toml_config.timeout,
            interval: health_toml_config.interval,
            path: health_toml_config.path,
        };
        let mut builder = BackendPoolBuilder::new(entries, health_config);
        if let Some(client) = &config.client {
            if let Some(pool_idle_timeout) = client.pool_idle_timeout {
                builder.pool_idle_timeout(pool_idle_timeout);
            }
            if let Some(pool_max_idle_per_host) = client.pool_max_idle_per_host {
                builder.pool_max_idle_per_host(pool_max_idle_per_host);
            }
        }
        let pool = builder.build();
        proof {
            assert(pool.addresses@ == entries_view);
            assert forall|a: Seq<char>| #[trigger] pool.spec_has_addr(a) <==> (exists|j: int|
                0 <= j < config.addresses@.len() && (#[trigger] config.addresses@[j])@ == a) by {
                if pool.spec_has_addr(a) {
                    let p = choose|p: int|
                        0 <= p < pool.addresses@.len() && (#[trigger] pool.addresses@[p]).0@ == a;
                    assert(entries_view[p].0@ == a);
                    assert(exists|j: int|
                        0 <= j < config.addresses@.len() && (#[trigger] config.addresses@[j])@
                            == a);
                }
                if exists|j: int|
                    0 <= j < config.addresses@.len() && (#[trigger] config.addresses@[j])@ == a {
                    let j = choose|j: int|
                        0 <= j < config.addresses@.len() && (#[trigger] config.addresses@[j])@
                            == a;
                    assert(exists|p: int|
                        0 <= p < entries_view.len() && (#[trigger] entries_view[p]).0@
                            == config.addresses@[j]@);
                    let p = choose|p: int|
                        0 <= p < entries_view.len() && (#[trigger] entries_view[p]).0@
                            == config.addresses@[j]@;
                    assert(pool.addresses@[p].0@ == a);
                }
            }
        }
        pool
    }
}

} // verus!
