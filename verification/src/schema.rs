//! The configuration records of the server: listen address, writer and
//! optional reader database endpoints, and the optional redis and mail
//! collaborators. Loading them from files or the environment is the outer
//! shell's work; the records themselves, their defaults and the small
//! decisions derived from them are verified here.

use vstd::prelude::*;

verus! {

/// The gRPC listen endpoint and deployment path settings.
#[derive(Debug, Clone)]
pub struct ServerConf {
    pub host: String,
    pub port: u16,
    pub domain: String,
    /// Set when the server is deployed under a subpath.
    pub basedir: Option<String>,
    /// The origin name the server exposes, when it differs from the host.
    pub origin: Option<String>,
}

/// One database endpoint: where to connect and how the pool is sized.
#[derive(Debug, Clone)]
pub struct DbConf {
    pub name: String,
    pub host: String,
    pub hosts: Option<Vec<String>>,
    pub port: u16,
    pub user: String,
    pub password: String,
    /// Maximum size of the connection pool; one connection when absent.
    pub pool_max: Option<usize>,
    /// Budget in milliseconds for acquiring a connection; 500 when absent.
    pub timeout: Option<u64>,
    /// Whether read traffic may degrade to the writer when this endpoint,
    /// used as a read replica, is unavailable.
    pub fallback: bool,
}

#[derive(Debug, Clone)]
pub struct RedisConf {
    pub url: String,
}

/// The outbound mail endpoint and its credentials.
#[derive(Debug, Clone)]
pub struct MailConf {
    pub from: String,
    pub admin_addr: String,
    pub api_host: String,
    pub api_port: Option<u16>,
    pub api_user: Option<String>,
    pub api_key: Option<String>,
}

/// The whole configuration record: the listen endpoint, the mandatory writer
/// database, the optional read replica, and the optional collaborators.
#[derive(Debug, Clone)]
pub struct BackendConfig {
    pub listen: ServerConf,
    pub db: DbConf,
    /// The read replica endpoint; absent when no replica is configured.
    pub dbr: Option<DbConf>,
    pub redis: Option<RedisConf>,
    pub mail: Option<MailConf>,
}

/// The built-in listen settings: any IPv6 address, the usual gRPC port.
pub open spec fn server_conf_default(c: ServerConf) -> bool {
    &&& c.host@ == "[::]"@
    &&& c.port == 50051
    &&& c.domain@ == ""@
    &&& c.basedir is None
    &&& c.origin is None
}

/// The built-in database settings: a local server on the usual port, with
/// pool sizing and timeout left to their own defaults.
pub open spec fn db_conf_default(c: DbConf) -> bool {
    &&& c.name@ == ""@
    &&& c.host@ == "localhost"@
    &&& c.hosts is None
    &&& c.port == 5432
    &&& c.user@ == ""@
    &&& c.password@ == ""@
    &&& c.pool_max is None
    &&& c.timeout is None
    &&& !c.fallback
}

pub open spec fn backend_config_default(c: BackendConfig) -> bool {
    &&& server_conf_default(c.listen)
    &&& db_conf_default(c.db)
    &&& c.dbr is None
    &&& c.redis is None
    &&& c.mail is None
}

impl Default for ServerConf {
    fn default() -> (r: Self)
        ensures
            server_conf_default(r),
    {
        ServerConf {
            host: "[::]".to_owned(),
            port: 50051,
            domain: "".to_owned(),
            basedir: None,
            origin: None,
        }
    }
}

impl Default for DbConf {
    fn default() -> (r: Self)
        ensures
            db_conf_default(r),
    {
        DbConf {
            name: "".to_owned(),
            host: "localhost".to_owned(),
            hosts: None,
            port: 5432,
            user: "".to_owned(),
            password: "".to_owned(),
            pool_max: None,
            timeout: None,
            fallback: false,
        }
    }
}

impl Default for BackendConfig {
    fn default() -> (r: Self)
        ensures
            backend_config_default(r),
    {
        BackendConfig {
            listen: ServerConf::default(),
            db: DbConf::default(),
            dbr: None,
            redis: None,
            mail: None,
        }
    }
}

impl MailConf {
    /// The port mail is submitted on: the configured one, or the standard
    /// implicit-TLS submission port when none is configured.
    pub fn smtp_port(&self) -> (p: u16)
        ensures
            self.api_port matches Some(x) ==> p == x,
            self.api_port is None ==> p == 465,
    {
        match self.api_port {
            Some(port) => port,
            None => 465,
        }
    }
}

} // verus!
