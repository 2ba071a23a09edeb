//! The resilient connector: where to connect, and what to do after an attempt.
//!
//! Connecting and waiting are the caller's part. The addresses and the retry
//! decisions are made here.

use vstd::prelude::*;
use crate::text::{contains_text, find_text, first_index, has_text};

verus! {

/// How long to wait between attempts.
#[derive(Clone, Copy, Debug, PartialEq, Eq, Structural)]
pub enum Backoff {
    /// The same wait every time.
    Fixed { seconds: u64 },
    /// A wait that doubles with every failure and never exceeds the cap.
    CappedExponential { base_seconds: u64, cap_seconds: u64 },
}

/// How often to try, and how long to wait in between.
#[derive(Clone, Copy, Debug, PartialEq, Eq, Structural)]
pub struct RetryPolicy {
    pub max_attempts: u32,
    pub backoff: Backoff,
}

/// `base` doubled `times` times.
pub open spec fn doubled(base: nat, times: nat) -> nat
    decreases times,
{
    if times == 0 {
        base
    } else {
        2 * doubled(base, (times - 1) as nat)
    }
}

pub open spec fn smaller(a: nat, b: nat) -> nat {
    if a <= b {
        a
    } else {
        b
    }
}

impl Backoff {
    /// The wait after the failure of attempt number `attempt`, counted from
    /// one: the base after the first, twice as much after each further one.
    pub open spec fn wait_after(self, attempt: nat) -> nat {
        match self {
            Backoff::Fixed { seconds } => seconds as nat,
            Backoff::CappedExponential { base_seconds, cap_seconds } => smaller(
                cap_seconds as nat,
                doubled(
                    base_seconds as nat,
                    if attempt <= 1 {
                        0
                    } else {
                        (attempt - 1) as nat
                    },
                ),
            ),
        }
    }

    pub fn delay(&self, attempt: u32) -> (seconds: u64)
        ensures
            seconds == self.wait_after(attempt as nat),
    {
        match self {
            Backoff::Fixed { seconds } => *seconds,
            Backoff::CappedExponential { base_seconds, cap_seconds } => {
                let cap: u64 = *cap_seconds;
                let mut wait: u64 = if *base_seconds <= cap {
                    *base_seconds
                } else {
                    cap
                };
                let doublings: u32 = if attempt <= 1 {
                    0
                } else {
                    attempt - 1
                };
                let mut times: u32 = 0;
                while times < doublings
                    invariant
                        times <= doublings,
                        wait == smaller(cap as nat, doubled(*base_seconds as nat, times as nat)),
                    decreases doublings - times,
                {
                    if wait >= cap - wait {
                        wait = cap;
                    } else {
                        wait = wait + wait;
                    }
                    times = times + 1;
                }
                wait
            },
        }
    }
}

impl RetryPolicy {
    /// Ten attempts, two seconds apart: the queue store.
    pub fn queue_store() -> (policy: RetryPolicy)
        ensures
            policy == (RetryPolicy { max_attempts: 10, backoff: Backoff::Fixed { seconds: 2 } }),
    {
        RetryPolicy { max_attempts: 10, backoff: Backoff::Fixed { seconds: 2 } }
    }

    /// Ten attempts, three seconds apart: the relational store.
    pub fn relational_store() -> (policy: RetryPolicy)
        ensures
            policy == (RetryPolicy { max_attempts: 10, backoff: Backoff::Fixed { seconds: 3 } }),
    {
        RetryPolicy { max_attempts: 10, backoff: Backoff::Fixed { seconds: 3 } }
    }
}

/// Where a worker stands with one of its connections.
#[derive(Clone, Copy, Debug, PartialEq, Eq, Structural)]
pub enum Link {
    /// About to make attempt number `attempt`, counted from one.
    Trying { attempt: u32 },
    /// The connection stands.
    Up,
    /// Every attempt failed: the worker cannot go on.
    ConnectionExhausted,
}

/// What happened to the connection.
#[derive(Clone, Copy, Debug, PartialEq, Eq, Structural)]
pub enum LinkEvent {
    /// The attempt succeeded.
    Established,
    /// The attempt failed.
    Refused,
    /// The connection was lost after it had stood.
    Lost,
}

/// What the worker has to do about the connection.
#[derive(Clone, Copy, Debug, PartialEq, Eq, Structural)]
pub enum LinkAction {
    /// Connect now.
    Connect,
    /// Wait, then connect.
    ConnectAfter { seconds: u64 },
    /// Go on with the work.
    Proceed,
    /// Stop the worker: it cannot make progress.
    GiveUp,
}

impl Link {
    pub open spec fn start() -> Link {
        Link::Trying { attempt: 1 }
    }

    /// The link after an event, and what to do next.
    ///
    /// A refused attempt is followed by a wait and another attempt until the
    /// policy's count is used up. A connection that is lost is acquired again
    /// from the first attempt. An exhausted link stays exhausted.
    pub open spec fn after(self, policy: RetryPolicy, event: LinkEvent) -> (Link, LinkAction) {
        match self {
            Link::Trying { attempt } => match event {
                LinkEvent::Established => (Link::Up, LinkAction::Proceed),
                _ => if attempt >= policy.max_attempts {
                    (Link::ConnectionExhausted, LinkAction::GiveUp)
                } else {
                    (
                        Link::Trying { attempt: (attempt + 1) as u32 },
                        LinkAction::ConnectAfter {
                            seconds: policy.backoff.wait_after(attempt as nat) as u64,
                        },
                    )
                },
            },
            Link::Up => match event {
                LinkEvent::Lost => (Link::start(), LinkAction::Connect),
                _ => (Link::Up, LinkAction::Proceed),
            },
            Link::ConnectionExhausted => (Link::ConnectionExhausted, LinkAction::GiveUp),
        }
    }

    /// The link of a worker that starts: about to make its first attempt.
    pub fn new() -> (link: Link)
        ensures
            link == Link::start(),
    {
        Link::Trying { attempt: 1 }
    }

    pub fn advance(&self, policy: &RetryPolicy, event: LinkEvent) -> (next: (Link, LinkAction))
        ensures
            next == self.after(*policy, event),
    {
        match self {
            Link::Trying { attempt } => match event {
                LinkEvent::Established => (Link::Up, LinkAction::Proceed),
                _ => if *attempt >= policy.max_attempts {
                    (Link::ConnectionExhausted, LinkAction::GiveUp)
                } else {
                    (
                        Link::Trying { attempt: *attempt + 1 },
                        LinkAction::ConnectAfter { seconds: policy.backoff.delay(*attempt) },
                    )
                },
            },
            Link::Up => match event {
                LinkEvent::Lost => (Link::Trying { attempt: 1 }, LinkAction::Connect),
                _ => (Link::Up, LinkAction::Proceed),
            },
            Link::ConnectionExhausted => (Link::ConnectionExhausted, LinkAction::GiveUp),
        }
    }

    /// The link after `failures` attempts that were all refused.
    pub open spec fn after_refusals(self, policy: RetryPolicy, failures: nat) -> Link
        decreases failures,
    {
        if failures == 0 {
            self
        } else {
            self.after_refusals(policy, (failures - 1) as nat).after(policy, LinkEvent::Refused).0
        }
    }
}

/// The attempts are bounded: a worker whose attempts are all refused makes
/// exactly as many as its policy allows, one at least, and is exhausted then
/// and ever after.
pub proof fn refusals_exhaust_the_link(policy: RetryPolicy, failures: nat)
    ensures
        Link::start().after_refusals(policy, failures) == if failures == 0 || failures
            < policy.max_attempts {
            Link::Trying { attempt: (failures + 1) as u32 }
        } else {
            Link::ConnectionExhausted
        },
    decreases failures,
{
    if failures > 0 {
        refusals_exhaust_the_link(policy, (failures - 1) as nat);
    }
}

/// No wait exceeds the cap of a capped policy.
pub proof fn wait_is_capped(base_seconds: u64, cap_seconds: u64, attempt: nat)
    ensures
        (Backoff::CappedExponential { base_seconds, cap_seconds }).wait_after(attempt)
            <= cap_seconds,
{
}

/// The address of the queue store.
pub open spec fn queue_address(host: Seq<char>, port: Seq<char>, password: Seq<char>) -> Seq<
    char,
> {
    if password.len() > 0 {
        "redis://:"@ + password + "@"@ + host + ":"@ + port
    } else {
        "redis://"@ + host + ":"@ + port
    }
}

pub fn redis_url(host: &str, port: &str, password: &str) -> (url: String)
    ensures
        url@ == queue_address(host@, port@, password@),
{
    let mut url = String::from_str("redis://");
    if !password.is_empty() {
        url.append(":");
        url.append(password);
        url.append("@");
        proof {
            reveal_strlit("redis://");
            reveal_strlit("redis://:");
            reveal_strlit(":");
            assert("redis://"@ + ":"@ == "redis://:"@);
        }
    }
    url.append(host);
    url.append(":");
    url.append(port);
    url
}

/// The address of the relational store with TLS required, unless the address
/// says itself which mode it wants.
pub open spec fn with_tls_required(url: Seq<char>) -> Seq<char> {
    if contains_text(url, "sslmode="@) {
        url
    } else if contains_text(url, "?"@) {
        url + "&sslmode=require"@
    } else {
        url + "?sslmode=require"@
    }
}

pub fn ensure_sslmode_require(url: &str) -> (secured: String)
    ensures
        secured@ == with_tls_required(url@),
{
    let mut secured = String::from_str(url);
    if has_text(url, "sslmode=") {
    } else if has_text(url, "?") {
        secured.append("&sslmode=require");
    } else {
        secured.append("?sslmode=require");
    }
    secured
}

/// The part of an address behind position `from`.
pub open spec fn tail(text: Seq<char>, from: int) -> Seq<char> {
    text.subrange(from, text.len() as int)
}

/// An address fit for a log: the credentials between `://` and the first `@`
/// behind it are replaced by `***`. An address without credentials is shown as
/// it is, and one without `://` not at all.
pub open spec fn masked_address(url: Seq<char>) -> Seq<char> {
    match first_index(url, "://"@) {
        Some(scheme) => {
            let rest = tail(url, scheme + 3);
            match first_index(rest, "@"@) {
                Some(at) => url.subrange(0, scheme as int) + "://***@"@ + tail(rest, at + 1),
                None => url,
            }
        },
        None => "***"@,
    }
}

pub fn mask_db_url(url: &str) -> (masked: String)
    ensures
        masked@ == masked_address(url@),
{
    proof {
        reveal_strlit("://");
        reveal_strlit("@");
    }
    match find_text(url, "://") {
        Some(scheme) => {
            let length = url.unicode_len();
            let rest = url.substring_char(scheme + 3, length);
            match find_text(rest, "@") {
                Some(at) => {
                    let mut masked = String::from_str(url.substring_char(0, scheme));
                    masked.append("://***@");
                    masked.append(rest.substring_char(at + 1, rest.unicode_len()));
                    masked
                },
                None => String::from_str(url),
            }
        },
        None => String::from_str("***"),
    }
}

} // verus!
