//! Server and cache configuration, and the addresses built from it.
use crate::text::{digits_of, nat_text};
use vstd::prelude::*;

verus! {

/// Where the cache server is and how to reach it.
#[derive(Debug)]
pub struct RedisConfig {
    pub addr: String,
    pub password: Option<String>,
    pub db: u8,
    pub max_connections: u32,
    pub connection_timeout: u64,
    pub enabled: bool,
}

impl RedisConfig {
    /// `redis://:{password}@{addr}/{db}`, or `redis://{addr}/{db}` without a password.
    pub fn build_url(&self) -> (r: String)
        ensures
            self.password matches Some(p) ==> r@ == "redis://:"@ + p@ + "@"@ + self.addr@ + "/"@
                + digits_of(self.db as nat),
            self.password is None ==> r@ == "redis://"@ + self.addr@ + "/"@ + digits_of(
                self.db as nat,
            ),
    {
        let db = nat_text(self.db as u64);
        match &self.password {
            Some(p) => String::from_str("redis://:").concat(p.as_str()).concat("@").concat(
                self.addr.as_str(),
            ).concat("/").concat(db.as_str()),
            None => String::from_str("redis://").concat(self.addr.as_str()).concat("/").concat(
                db.as_str(),
            ),
        }
    }
}

/// The settings the server starts with.
#[derive(Debug)]
pub struct AppConfig {
    pub database_url: String,
    pub jwt_secret: String,
    pub port: u16,
    pub host: String,
    pub redis: RedisConfig,
}

impl AppConfig {
    /// `{host}:{port}`.
    pub fn server_address(&self) -> (r: String)
        ensures
            r@ == self.host@ + ":"@ + digits_of(self.port as nat),
    {
        let port = nat_text(self.port as u64);
        self.host.clone().concat(":").concat(port.as_str())
    }
}

} // verus!
