//! One session-store endpoint.

use crate::text::{join, decimal, decimal_string};
use vstd::prelude::*;
use vstd::string::*;

verus! {

/// The text of an optional string, empty when it is absent.
pub open spec fn text_or_empty(o: Option<String>) -> Seq<char> {
    match o {
        Some(s) => s@,
        None => Seq::empty(),
    }
}

/// A session-store endpoint: where it is, how to log in, and how large its
/// connection pool may grow.
#[derive(Debug)]
pub struct RedisConfig {
    pub host: String,
    pub port: Option<u16>,
    pub db: Option<u8>,
    pub username: Option<String>,
    pub password: Option<String>,
    pub max_pool_size: Option<u32>,
    pub idle_pool_size: Option<u32>,
}

impl RedisConfig {
    /// `user:password@` when either is configured, else nothing.
    pub open spec fn credentials_text(&self) -> Seq<char> {
        if self.username is Some || self.password is Some {
            text_or_empty(self.username) + ":"@ + text_or_empty(self.password) + "@"@
        } else {
            Seq::empty()
        }
    }

    /// `:port` when a port is configured, else nothing.
    pub open spec fn port_text(&self) -> Seq<char> {
        match self.port {
            Some(p) => ":"@ + decimal(p as nat),
            None => Seq::empty(),
        }
    }

    /// `/db` when a database index is configured, else nothing.
    pub open spec fn db_text(&self) -> Seq<char> {
        match self.db {
            Some(d) => "/"@ + decimal(d as nat),
            None => Seq::empty(),
        }
    }

    /// The connection URL: `redis://[user:password@]host[:port][/db]`.
    pub open spec fn url_text(&self) -> Seq<char> {
        "redis://"@ + self.credentials_text() + self.host@ + self.port_text() + self.db_text()
    }

    /// The key of the endpoint's pool: `host:port`, with `None` in place of
    /// a port that is not configured.
    pub open spec fn pool_key_text(&self) -> Seq<char> {
        self.host@ + ":"@ + match self.port {
            Some(p) => decimal(p as nat),
            None => "None"@,
        }
    }

    /// The connection URL of this endpoint.
    pub fn redis_url(&self) -> (url: String)
        ensures
            url@ == self.url_text(),
            "redis://"@.is_prefix_of(url@),
    {
        let mut url = "redis://".to_owned();
        if self.username.is_some() || self.password.is_some() {
            match &self.username {
                Some(u) => url.append(u.as_str()),
                None => {},
            }
            url.append(":");
            match &self.password {
                Some(p) => url.append(p.as_str()),
                None => {},
            }
            url.append("@");
        }
        assert(url@ =~= "redis://"@ + self.credentials_text());
        url.append(self.host.as_str());
        match self.port {
            Some(port) => {
                url.append(":");
                let digits = decimal_string(port as u32);
                url.append(digits.as_str());
            },
            None => {},
        }
        assert(url@ =~= "redis://"@ + self.credentials_text() + self.host@ + self.port_text());
        match self.db {
            Some(db) => {
                url.append("/");
                let digits = decimal_string(db as u32);
                url.append(digits.as_str());
            },
            None => {},
        }
        assert(url@ =~= self.url_text());
        assert("redis://"@ =~= url@.subrange(0, "redis://"@.len() as int));
        url
    }

    /// The key under which this endpoint's pool is registered.
    pub fn pool_key(&self) -> (key: String)
        ensures
            key@ == self.pool_key_text(),
    {
        let mut key = join(self.host.as_str(), ":");
        match self.port {
            Some(port) => {
                let digits = decimal_string(port as u32);
                key.append(digits.as_str());
            },
            None => {
                key.append("None");
            },
        }
        key
    }
}

impl Clone for RedisConfig {
    fn clone(&self) -> (r: Self)
        ensures
            r == *self,
    {
        RedisConfig {
            host: self.host.clone(),
            port: self.port,
            db: self.db,
            username: match &self.username {
                Some(u) => Some(u.clone()),
                None => None,
            },
            password: match &self.password {
                Some(p) => Some(p.clone()),
                None => None,
            },
            max_pool_size: self.max_pool_size,
            idle_pool_size: self.idle_pool_size,
        }
    }
}

impl Default for RedisConfig {
    fn default() -> (r: Self)
        ensures
            r.host@ == Seq::<char>::empty(),
            r.port is None,
            r.db is None,
            r.username is None,
            r.password is None,
            r.max_pool_size is None,
            r.idle_pool_size is None,
    {
        RedisConfig {
            host: String::new(),
            port: None,
            db: None,
            username: None,
            password: None,
            max_pool_size: None,
            idle_pool_size: None,
        }
    }
}

} // verus!
