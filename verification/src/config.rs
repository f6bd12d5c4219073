//! Startup configuration and the reasons it can be refused.

use crate::client::{loopback, ClientKey, IpAddress};
use crate::health::{HealthProbe, DEFAULT_INTERVAL_SECS};
use crate::limiter::{RateLimiter, DEFAULT_THRESHOLD};
use crate::pool::{addresses, ServerPool};
use vstd::prelude::*;

verus! {

/// Why a configuration cannot be served.
#[derive(Clone, Copy, Debug, PartialEq, Eq, Structural)]
pub enum ConfigError {
    /// The list of backend addresses is empty.
    NoBackends,
}

/// The port the listener binds when nothing else is configured.
pub const DEFAULT_PORT: u16 = 8080;

/// The socket address of the listener.
#[derive(Clone, Copy, Debug, PartialEq, Eq, Structural)]
pub struct ListenAddress {
    pub ip: IpAddress,
    pub port: u16,
}

/// The address the listener binds when nothing else is configured:
/// `127.0.0.1:8080`.
pub open spec fn default_listen() -> ListenAddress {
    ListenAddress { ip: loopback(), port: DEFAULT_PORT }
}

/// The backends served when nothing else is configured: three local ones.
pub open spec fn default_backends() -> Seq<Seq<char>> {
    seq!["http://127.0.0.1:8081"@, "http://127.0.0.1:8082"@, "http://127.0.0.1:8083"@]
}

/// Everything that is fixed when the balancer starts.
#[derive(Clone, Debug, PartialEq, Eq)]
pub struct Config {
    /// The socket address of the listener.
    pub listen: ListenAddress,
    /// The backends in the order of their rotation, each as `http://host:port`.
    pub backends: Vec<String>,
    /// The number of requests served to one caller.
    pub threshold: u64,
    /// The seconds between two health sweeps.
    pub health_interval_secs: u64,
}

/// The shared state of a running balancer.
pub struct Balancer {
    pub pool: ServerPool,
    pub limiter: RateLimiter,
    pub probe: HealthProbe,
}

impl Config {
    /// Sets up the state of a balancer. A configuration without backends is
    /// refused; nothing else in it can be wrong here.
    pub fn build(self) -> (built: Result<Balancer, ConfigError>)
        ensures
            self.backends@.len() == 0 <==> built is Err,
            built matches Err(e) ==> e == ConfigError::NoBackends,
            built matches Ok(balancer) ==> {
                &&& balancer.pool.wf()
                &&& balancer.pool@ == addresses(self.backends@)
                &&& balancer.limiter@ == Map::<ClientKey, u64>::empty()
                &&& balancer.limiter.threshold() == self.threshold
                &&& balancer.probe.interval() == self.health_interval_secs
                &&& !balancer.probe.sweeping()
            },
    {
        match ServerPool::new(self.backends) {
            Ok(pool) => Ok(
                Balancer {
                    pool,
                    limiter: RateLimiter::new(self.threshold),
                    probe: HealthProbe::new(self.health_interval_secs),
                },
            ),
            Err(e) => Err(e),
        }
    }
}

impl Default for Config {
    /// Listens on `127.0.0.1:8080` for three local backends, serves 50
    /// requests to each caller and probes every 20 seconds.
    fn default() -> (config: Config)
        ensures
            config.listen == default_listen(),
            addresses(config.backends@) == default_backends(),
            config.threshold == DEFAULT_THRESHOLD,
            config.health_interval_secs == DEFAULT_INTERVAL_SECS,
    {
        let mut backends: Vec<String> = Vec::new();
        backends.push("http://127.0.0.1:8081".to_owned());
        backends.push("http://127.0.0.1:8082".to_owned());
        backends.push("http://127.0.0.1:8083".to_owned());
        assert(addresses(backends@) =~= default_backends());
        Config {
            listen: ListenAddress { ip: IpAddress::from_octets(127, 0, 0, 1), port: DEFAULT_PORT },
            backends,
            threshold: DEFAULT_THRESHOLD,
            health_interval_secs: DEFAULT_INTERVAL_SECS,
        }
    }
}

} // verus!
