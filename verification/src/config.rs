//! Configuration of endpoints: the user's settings, their defaults and their validation.

use crate::addr::IpAddr;
use crate::errors::ConfigError;
use vstd::prelude::*;
use vstd::string::StringSliceAdditionalSpecFns;

verus! {

/// Default for `Config::upnp_lease_duration_ms`: two minutes.
pub const DEFAULT_UPNP_LEASE_DURATION_MS: u64 = 120_000;

/// Default for `Config::idle_timeout_ms`: 18 seconds, a little inside the 20 seconds after which
/// a lot of routers might cut a connection off.
pub const DEFAULT_IDLE_TIMEOUT_MS: u64 = 18_000;

/// The transport's bound on a timeout in milliseconds (exclusive): its variable-length integers
/// hold values below 2^62.
pub const VARINT_BOUND: u64 = 0x4000_0000_0000_0000;

/// Whether the transport takes an idle timeout of `ms` milliseconds: it takes one that its
/// variable-length integers can hold.
#[verifier::external_body]
fn idle_timeout_fits(ms: u64) -> (r: bool)
    ensures
        r == (ms < VARINT_BOUND),
{
    quinn::IdleTimeout::try_from(std::time::Duration::from_millis(ms)).is_ok()
}

/// An error that occured when generating the TLS certificate.
#[derive(Debug, Clone, PartialEq, Eq)]
pub struct CertificateGenerationError(pub String);

/// QuicP2p configurations. Durations are in milliseconds.
#[derive(Clone, Debug)]
pub struct Config {
    /// Whether port forwarding via UPnP should be done. It can be off when the network runs on
    /// the loopback or on a local area network.
    pub forward_port: bool,
    /// External port number assigned to the socket address of the program. When given, the
    /// local port is taken to be mapped to it already and no port forwarding is done.
    pub external_port: Option<u16>,
    /// External IP address of the computer on the WAN. Mandatory for the genesis node when port
    /// forwarding is not available; other nodes learn it from the echo service.
    pub external_ip: Option<IpAddr>,
    /// How long to wait to hear from a peer before timing out a connection. Defaults to
    /// `DEFAULT_IDLE_TIMEOUT_MS`.
    pub idle_timeout_ms: Option<u64>,
    /// Interval at which to send keep-alives to maintain otherwise idle connections. Keep-alives
    /// are off by default.
    pub keep_alive_interval_ms: Option<u64>,
    /// How long UPnP port mappings last; they are renewed on this interval. Defaults to
    /// `DEFAULT_UPNP_LEASE_DURATION_MS`.
    pub upnp_lease_duration_ms: Option<u64>,
}

impl Default for Config {
    fn default() -> (r: Self)
        ensures
            !r.forward_port,
            r.external_port is None,
            r.external_ip is None,
            r.idle_timeout_ms is None,
            r.keep_alive_interval_ms is None,
            r.upnp_lease_duration_ms is None,
    {
        Config {
            forward_port: false,
            external_port: None,
            external_ip: None,
            idle_timeout_ms: None,
            keep_alive_interval_ms: None,
            upnp_lease_duration_ms: None,
        }
    }
}

/// A configuration that passed validation, with the defaults filled in.
#[derive(Clone, Copy, Debug, PartialEq, Eq, Structural)]
pub struct InternalConfig {
    /// The idle timeout, which the transport takes.
    pub idle_timeout_ms: u64,
    /// The keep-alive interval, if any.
    pub keep_alive_interval_ms: Option<u64>,
    /// Whether to forward the port.
    pub forward_port: bool,
    /// The external port, if given.
    pub external_port: Option<u16>,
    /// The external IP address, if given.
    pub external_ip: Option<IpAddr>,
    /// How long UPnP port mappings last.
    pub upnp_lease_duration_ms: u64,
}

/// The idle timeout that a configuration asks for.
pub open spec fn idle_timeout_of(config: Config) -> u64 {
    match config.idle_timeout_ms {
        Some(t) => t,
        None => DEFAULT_IDLE_TIMEOUT_MS,
    }
}

impl InternalConfig {
    /// Validates the configuration and fills in the defaults. Fails with `InvalidIdleTimeout`
    /// exactly when the idle timeout is too long for the transport.
    pub fn try_from_config(config: &Config) -> (r: Result<InternalConfig, ConfigError>)
        ensures
            idle_timeout_of(*config) >= VARINT_BOUND ==> r == Err::<InternalConfig, ConfigError>(
                ConfigError::InvalidIdleTimeout,
            ),
            idle_timeout_of(*config) < VARINT_BOUND ==> r == Ok::<InternalConfig, ConfigError>(
                InternalConfig {
                    idle_timeout_ms: idle_timeout_of(*config),
                    keep_alive_interval_ms: config.keep_alive_interval_ms,
                    forward_port: config.forward_port,
                    external_port: config.external_port,
                    external_ip: config.external_ip,
                    upnp_lease_duration_ms: match config.upnp_lease_duration_ms {
                        Some(d) => d,
                        None => DEFAULT_UPNP_LEASE_DURATION_MS,
                    },
                },
            ),
    {
        let idle_timeout_ms = match config.idle_timeout_ms {
            Some(t) => t,
            None => DEFAULT_IDLE_TIMEOUT_MS,
        };
        if !idle_timeout_fits(idle_timeout_ms) {
            return Err(ConfigError::InvalidIdleTimeout);
        }
        let upnp_lease_duration_ms = match config.upnp_lease_duration_ms {
            Some(d) => d,
            None => DEFAULT_UPNP_LEASE_DURATION_MS,
        };
        Ok(
            InternalConfig {
                idle_timeout_ms,
                keep_alive_interval_ms: config.keep_alive_interval_ms,
                forward_port: config.forward_port,
                external_port: config.external_port,
                external_ip: config.external_ip,
                upnp_lease_duration_ms,
            },
        )
    }
}

/// The longest UPnP lease the gateway takes, in seconds.
pub const MAX_LEASE_SECS: u64 = 0xffff_ffff;

/// The lease, in whole seconds, asked of the gateway for a lease interval in milliseconds:
/// capped at `u32::MAX` seconds (some 136 years), as the gateway takes no more.
pub fn lease_secs(lease_interval_ms: u64) -> (r: u32)
    ensures
        r == (if lease_interval_ms / 1000 > MAX_LEASE_SECS {
            MAX_LEASE_SECS
        } else {
            lease_interval_ms / 1000
        }),
{
    let secs = lease_interval_ms / 1000;
    if secs > MAX_LEASE_SECS {
        0xffff_ffffu32
    } else {
        secs as u32
    }
}

/// Why a number of milliseconds could not be read.
#[derive(Debug, Clone, Copy, PartialEq, Eq, Structural)]
pub enum ParseMillisError {
    /// The text is empty.
    Empty,
    /// The text holds something other than decimal digits (after an optional `+`).
    InvalidDigit,
    /// The number is too large for a `u64`.
    PosOverflow,
}

/// Whether the byte is a decimal digit.
pub open spec fn is_digit_byte(b: u8) -> bool {
    48 <= b <= 57
}

/// Reading one more byte of a decimal number.
pub open spec fn digit_step(acc: Result<nat, ParseMillisError>, b: u8) -> Result<nat, ParseMillisError> {
    match acc {
        Err(e) => Err(e),
        Ok(v) => if !is_digit_byte(b) {
            Err(ParseMillisError::InvalidDigit)
        } else if v * 10 + (b - 48) > u64::MAX {
            Err(ParseMillisError::PosOverflow)
        } else {
            Ok((v * 10 + (b - 48)) as nat)
        },
    }
}

/// Reading the digits left to right; the first problem met is the error.
pub open spec fn read_digits(d: Seq<u8>) -> Result<nat, ParseMillisError>
    decreases d.len(),
{
    if d.len() == 0 {
        Ok(0)
    } else {
        digit_step(read_digits(d.drop_last()), d.last())
    }
}

/// The number written in decimal in `s`, with an optional leading `+`.
pub open spec fn parse_u64_spec(s: Seq<u8>) -> Result<nat, ParseMillisError> {
    if s.len() == 0 {
        Err(ParseMillisError::Empty)
    } else {
        let d = if s[0] == 43 {
            s.drop_first()
        } else {
            s
        };
        if d.len() == 0 {
            Err(ParseMillisError::InvalidDigit)
        } else {
            read_digits(d)
        }
    }
}

/// Reads a number of milliseconds written in decimal, with an optional leading `+`.
pub fn parse_millis(millis: &str) -> (r: Result<u64, ParseMillisError>)
    ensures
        match parse_u64_spec(millis.spec_bytes()) {
            Ok(v) => r == Ok::<u64, ParseMillisError>(v as u64),
            Err(e) => r == Err::<u64, ParseMillisError>(e),
        },
{
    let bytes = millis.as_bytes();
    let n = bytes.len();
    if n == 0 {
        return Err(ParseMillisError::Empty);
    }
    let start: usize = if bytes[0] == 43 {
        1
    } else {
        0
    };
    if start == n {
        return Err(ParseMillisError::InvalidDigit);
    }
    let ghost d = bytes@.subrange(start as int, n as int);
    proof {
        if start == 1 {
            assert(d =~= bytes@.drop_first());
        } else {
            assert(d =~= bytes@);
        }
        assert(d.take(0) =~= Seq::<u8>::empty());
    }
    let mut value: u64 = 0;
    let mut i: usize = start;
    while i < n
        invariant
            start <= i <= n,
            n == bytes@.len(),
            d == bytes@.subrange(start as int, n as int),
            bytes@ == millis.spec_bytes(),
            parse_u64_spec(bytes@) == read_digits(d),
            read_digits(d.take(i - start)) == Ok::<nat, ParseMillisError>(value as nat),
        decreases n - i,
    {
        let b = bytes[i];
        proof {
            assert(d.take(i - start + 1).drop_last() =~= d.take(i - start));
            assert(d.take(i - start + 1).last() == b);
        }
        if b < 48 || b > 57 {
            proof {
                lemma_read_digits_stops(d, (i - start + 1) as int);
            }
            return Err(ParseMillisError::InvalidDigit);
        }
        let digit = (b - 48) as u64;
        if value > 1844674407370955161 || (value == 1844674407370955161 && digit > 5) {
            proof {
                assert(value * 10 + digit > u64::MAX) by (nonlinear_arith)
                    requires
                        value > 1844674407370955161 || (value == 1844674407370955161 && digit > 5),
                ;
                lemma_read_digits_stops(d, (i - start + 1) as int);
            }
            return Err(ParseMillisError::PosOverflow);
        }
        proof {
            assert(value * 10 + digit <= u64::MAX) by (nonlinear_arith)
                requires
                    !(value > 1844674407370955161 || (value == 1844674407370955161 && digit > 5)),
                    digit <= 9,
            ;
        }
        value = value * 10 + digit;
        i = i + 1;
    }
    assert(d.take(n - start) =~= d);
    Ok(value)
}

/// Once reading the digits fails, reading more fails the same way.
proof fn lemma_read_digits_stops(d: Seq<u8>, k: int)
    requires
        0 < k <= d.len(),
        read_digits(d.take(k)) is Err,
    ensures
        read_digits(d) == read_digits(d.take(k)),
    decreases d.len() - k,
{
    if k < d.len() {
        assert(d.take(k + 1).drop_last() =~= d.take(k));
        lemma_read_digits_stops(d, k + 1);
    } else {
        assert(d.take(k) =~= d);
    }
}

} // verus!
