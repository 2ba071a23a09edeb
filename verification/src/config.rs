//! The settings of a worker, from the values of its environment.
//!
//! Reading the environment is the caller's part: each value comes as it was
//! found, `None` where the variable is not set.

use vstd::prelude::*;
use crate::connector::{ensure_sslmode_require, queue_address, redis_url, with_tls_required};
use crate::stage::Routing;
use crate::text::same_text;

verus! {

/// A setting without which a worker cannot start.
#[derive(Clone, Copy, Debug, PartialEq, Eq, Structural)]
pub enum ConfigError {
    MissingQueueHost,
    MissingDatabaseUrl,
    MissingCallbackUrl,
}

/// Where the queue store is.
#[derive(Debug, PartialEq, Eq)]
pub struct QueueSettings {
    pub host: String,
    pub port: String,
    pub password: String,
}

/// What the persister needs besides the queue store.
#[derive(Debug, PartialEq, Eq)]
pub struct PersisterSettings {
    pub queue: QueueSettings,
    pub database_url: String,
    pub callback_url: String,
}

pub open spec fn text_or(value: Option<String>, fallback: Seq<char>) -> Seq<char> {
    match value {
        Some(text) => text@,
        None => fallback,
    }
}

/// The queue store's settings: the host must be given, the port is 6379
/// unless given, the password is empty unless given.
pub fn queue_settings(host: Option<String>, port: Option<String>, password: Option<String>) -> (
    settings: Result<QueueSettings, ConfigError>)
    ensures
        match settings {
            Ok(queue) => host == Some(queue.host) && queue.port@ == text_or(port, "6379"@)
                && queue.password@ == text_or(password, Seq::empty()),
            Err(error) => host is None && error == ConfigError::MissingQueueHost,
        },
{
    match host {
        Some(host) => Ok(
            QueueSettings {
                host,
                port: match port {
                    Some(port) => port,
                    None => String::from_str("6379"),
                },
                password: match password {
                    Some(password) => password,
                    None => String::new(),
                },
            },
        ),
        None => Err(ConfigError::MissingQueueHost),
    }
}

/// The persister's settings. The first setting that is missing is reported,
/// in the order queue host, relational store, callback. The address of the
/// relational store has TLS required unless it names a mode itself.
pub fn persister_settings(
    host: Option<String>,
    port: Option<String>,
    password: Option<String>,
    database_url: Option<String>,
    callback_url: Option<String>,
) -> (settings: Result<PersisterSettings, ConfigError>)
    ensures
        match settings {
            Ok(found) => {
                &&& host == Some(found.queue.host)
                &&& found.queue.port@ == text_or(port, "6379"@)
                &&& found.queue.password@ == text_or(password, Seq::empty())
                &&& database_url is Some
                &&& found.database_url@ == with_tls_required(database_url->0@)
                &&& callback_url == Some(found.callback_url)
            },
            Err(error) => error == if host is None {
                ConfigError::MissingQueueHost
            } else if database_url is None {
                ConfigError::MissingDatabaseUrl
            } else {
                ConfigError::MissingCallbackUrl
            } && (host is None || database_url is None || callback_url is None),
        },
{
    let queue = match queue_settings(host, port, password) {
        Ok(queue) => queue,
        Err(error) => {
            return Err(error);
        },
    };
    let database_url = match database_url {
        Some(url) => ensure_sslmode_require(url.as_str()),
        None => {
            return Err(ConfigError::MissingDatabaseUrl);
        },
    };
    match callback_url {
        Some(callback_url) => Ok(PersisterSettings { queue, database_url, callback_url }),
        None => Err(ConfigError::MissingCallbackUrl),
    }
}

/// The tag of the mapping that this converter applies.
pub const MAPPER_VERSION: &'static str = "market-report-1";

/// Whether a switch is on: it is only where its value is `1` or `true`.
pub open spec fn switched_on(value: Option<String>) -> bool {
    value matches Some(text) && (text@ == "1"@ || text@ == "true"@)
}

pub fn flag_is_set(value: &Option<String>) -> (set: bool)
    ensures
        set == switched_on(*value),
{
    match value {
        Some(text) => same_text(text.as_str(), "1") || same_text(text.as_str(), "true"),
        None => false,
    }
}

/// Where rejected documents go: tagged to the persister, unless the
/// deployment switches the dead-letter queue on.
pub fn routing(dead_letter: &Option<String>) -> (routing: Routing)
    ensures
        routing == if switched_on(*dead_letter) {
            Routing::DeadLetter
        } else {
            Routing::ForwardTagged
        },
{
    if flag_is_set(dead_letter) {
        Routing::DeadLetter
    } else {
        Routing::ForwardTagged
    }
}

impl QueueSettings {
    /// The address to connect to.
    pub fn url(&self) -> (url: String)
        ensures
            url@ == queue_address(self.host@, self.port@, self.password@),
    {
        redis_url(self.host.as_str(), self.port.as_str(), self.password.as_str())
    }
}

} // verus!
