use vstd::prelude::*;
use vstd::string::StringExecFns;

use crate::text::{decimal, decimal_of};

verus! {

/// Seconds to wait after the first failure to reach the broker.
pub const INITIAL_BACKOFF: u64 = 1;

/// The longest wait between two attempts to reach the broker, in seconds.
pub const MAX_BACKOFF: u64 = 30;

/// How to reach the broker, and where events for the cron daemon go.
#[derive(Debug, PartialEq, Eq)]
pub struct RabbitConfig {
    pub username: String,
    pub password: String,
    pub host: String,
    pub port: u16,
    /// Exchange of the events that are not push notifications
    pub default_exchange: String,
    /// Queue of the acknowledgements to be processed
    pub acks_queue: String,
}

/// The address of the broker, credentials included.
pub open spec fn broker_url(config: RabbitConfig) -> Seq<char> {
    "amqp://"@ + config.username@ + ":"@ + config.password@ + "@"@ + config.host@ + ":"@
        + decimal_of(config.port as nat)
}

impl RabbitConfig {
    /// The address to open a connection to.
    pub fn connection_url(&self) -> (url: String)
        ensures
            url@ == broker_url(*self),
    {
        let mut url = "amqp://".to_owned();
        url.append(self.username.as_str());
        url.append(":");
        url.append(self.password.as_str());
        url.append("@");
        url.append(self.host.as_str());
        url.append(":");
        url.append(decimal(self.port as u64).as_str());
        url
    }
}

/// The wait after one that was not enough: twice as long, up to the longest wait.
pub open spec fn lengthened(backoff: int) -> int {
    if 2 * backoff <= MAX_BACKOFF {
        2 * backoff
    } else {
        MAX_BACKOFF as int
    }
}

/// The wait after `backoff` seconds were not enough.
pub fn next_backoff(backoff: u64) -> (next: u64)
    ensures
        next == lengthened(backoff as int),
{
    if backoff <= MAX_BACKOFF / 2 {
        backoff * 2
    } else {
        MAX_BACKOFF
    }
}

/// The wait before the attempt that follows `failures` failures in a row, the first of which
/// had the shortest wait.
pub open spec fn wait_after(failures: nat) -> int
    decreases failures,
{
    if failures == 0 {
        INITIAL_BACKOFF as int
    } else {
        lengthened(wait_after((failures - 1) as nat))
    }
}

/// However often the broker cannot be reached, the wait is at least the shortest and at most
/// the longest one, never gets shorter, and from the fifth failure on is the longest.
pub proof fn law_backoff_is_capped(failures: nat)
    ensures
        INITIAL_BACKOFF <= wait_after(failures) <= MAX_BACKOFF,
        wait_after(failures) <= wait_after(failures + 1),
        failures >= 5 ==> wait_after(failures) == MAX_BACKOFF,
    decreases failures,
{
    if failures > 0 {
        law_backoff_is_capped((failures - 1) as nat);
        if failures == 5 {
            reveal_with_fuel(wait_after, 6);
        }
    }
}

/// A wait that was not enough doubles until it would be longer than half a minute, and then is
/// half a minute.
pub proof fn law_wait_doubles(backoff: u64, next: u64)
    requires
        call_ensures(next_backoff, (backoff,), next),
    ensures
        backoff <= 15 ==> next == backoff + backoff,
        backoff > 15 ==> next == 30,
{
}

/// The waits are one second, two, four, eight, sixteen, and half a minute from then on.
pub proof fn law_waits_follow_each_other(failures: nat)
    ensures
        failures < 5 ==> wait_after(failures) == vstd::arithmetic::power2::pow2(failures),
        failures >= 5 ==> wait_after(failures) == 30,
    decreases failures,
{
    vstd::arithmetic::power2::lemma2_to64();
    if failures > 0 {
        law_waits_follow_each_other((failures - 1) as nat);
    }
}

/// The address of the broker names the user, the password, the host and the port that are
/// configured, in this order and nothing else.
pub proof fn law_broker_address_is_as_configured(config: &RabbitConfig, url: String)
    requires
        call_ensures(RabbitConfig::connection_url, (config,), url),
    ensures
        exists|port: Seq<char>|
            #![trigger crate::text::value_of(port)]
            crate::text::value_of(port) == config.port && crate::text::is_number(port) && url@
                == "amqp://"@ + config.username@ + ":"@ + config.password@ + "@"@ + config.host@
                + ":"@ + port,
{
    crate::text::lemma_decimal(config.port as nat);
    assert(crate::text::value_of(decimal_of(config.port as nat)) == config.port);
}

} // verus!
