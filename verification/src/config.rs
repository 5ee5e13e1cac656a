//! Configuration types shared by the oracle components, and the duration
//! parser their files rely on.
//!
//! Durations are held as plain milliseconds in `u64`; callers convert to
//! whatever clock type they run on. Loading configuration from files or the
//! environment is process wiring and stays with the callers, behind the
//! [`ConfigLoader`] trait.

use vstd::prelude::*;
use vstd::string::StringSliceAdditionalSpecFns;

use crate::errors::OracleVmError;
use crate::types::NodeId;

verus! {

/// Network configuration.
#[derive(Debug, Clone)]
pub struct NetworkConfig {
    /// Address to listen on.
    pub listen_address: String,
    /// Peers to contact at startup.
    pub bootstrap_peers: Vec<String>,
    /// Most peers to hold at once.
    pub max_peers: usize,
    /// Connection timeout, in milliseconds.
    pub connection_timeout_ms: u64,
}

impl Default for NetworkConfig {
    /// Listening on all interfaces at port 9000, no bootstrap peers, at
    /// most 50 peers, 30 second connection timeout.
    fn default() -> (r: Self)
        ensures
            r.listen_address@ == "0.0.0.0:9000"@,
            r.bootstrap_peers@.len() == 0,
            r.max_peers == 50,
            r.connection_timeout_ms == 30_000,
    {
        let bootstrap_peers: Vec<String> = Vec::new();
        NetworkConfig {
            listen_address: "0.0.0.0:9000".to_owned(),
            bootstrap_peers,
            max_peers: 50,
            connection_timeout_ms: 30_000,
        }
    }
}

/// Logging configuration.
#[derive(Debug, Clone)]
pub struct LogConfig {
    /// Log level name.
    pub level: String,
    /// Log file path, where logs go to a file.
    pub file: Option<String>,
    /// Whether logs also go to the console.
    pub console: bool,
}

impl Default for LogConfig {
    /// Level "info", no file, console on.
    fn default() -> (r: Self)
        ensures
            r.level@ == "info"@,
            r.file is None,
            r.console,
    {
        LogConfig { level: "info".to_owned(), file: None, console: true }
    }
}

/// Database configuration.
#[derive(Debug, Clone)]
pub struct DatabaseConfig {
    /// Data directory path.
    pub path: String,
    /// Cache size, in bytes.
    pub cache_size: usize,
    /// Write buffer size, in bytes.
    pub write_buffer_size: usize,
}

impl Default for DatabaseConfig {
    /// Data under "./data", a 256 MiB cache and a 64 MiB write buffer.
    fn default() -> (r: Self)
        ensures
            r.path@ == "./data"@,
            r.cache_size == 256 * 1024 * 1024,
            r.write_buffer_size == 64 * 1024 * 1024,
    {
        DatabaseConfig {
            path: "./data".to_owned(),
            cache_size: 256 * 1024 * 1024,
            write_buffer_size: 64 * 1024 * 1024,
        }
    }
}

/// Base configuration shared by all components.
#[derive(Debug, Clone)]
pub struct BaseConfig {
    /// This node's identifier.
    pub node_id: NodeId,
    /// Network settings.
    pub network: NetworkConfig,
    /// Logging settings.
    pub logging: LogConfig,
    /// Database settings.
    pub database: DatabaseConfig,
}

impl BaseConfig {
    /// A configuration for the given node, with every section at its
    /// default.
    pub fn new(node_id: &str) -> (r: Self)
        ensures
            r.node_id.0@ == node_id@,
            r.network.listen_address@ == "0.0.0.0:9000"@,
            r.network.bootstrap_peers@.len() == 0,
            r.network.max_peers == 50,
            r.network.connection_timeout_ms == 30_000,
            r.logging.level@ == "info"@,
            r.logging.file is None,
            r.logging.console,
            r.database.path@ == "./data"@,
            r.database.cache_size == 256 * 1024 * 1024,
            r.database.write_buffer_size == 64 * 1024 * 1024,
    {
        BaseConfig {
            node_id: NodeId::new(node_id),
            network: NetworkConfig::default(),
            logging: LogConfig::default(),
            database: DatabaseConfig::default(),
        }
    }
}

/// Loading and saving a configuration. File and environment access is the
/// caller's: implementations live outside this crate.
pub trait ConfigLoader<T>: Sized {
    /// Loads a configuration from the file at `path`.
    fn load_from_file(path: &str) -> Result<T, OracleVmError>;

    /// Loads a configuration from the process environment.
    fn load_from_env() -> Result<T, OracleVmError>;

    /// Saves this configuration to the file at `path`.
    fn save_to_file(&self, path: &str) -> Result<(), OracleVmError>;
}

/// Whether a byte is an ASCII letter.
pub open spec fn is_ascii_alpha(b: u8) -> bool {
    (0x41 <= b <= 0x5a) || (0x61 <= b <= 0x7a)
}

/// Whether a byte is an ASCII decimal digit.
pub open spec fn is_ascii_digit(b: u8) -> bool {
    0x30 <= b <= 0x39
}

/// The index of the first ASCII letter, or the length where there is none:
/// the boundary between the numeric value and the unit suffix.
pub open spec fn split_pos(s: Seq<u8>) -> int
    decreases s.len(),
{
    if s.len() == 0 {
        0
    } else if is_ascii_alpha(s[0]) {
        0
    } else {
        1 + split_pos(s.drop_first())
    }
}

/// Every byte is a decimal digit.
pub open spec fn all_digits(s: Seq<u8>) -> bool {
    forall|i: int| 0 <= i < s.len() ==> is_ascii_digit(#[trigger] s[i])
}

/// The number a run of decimal digits denotes.
pub open spec fn digits_val(s: Seq<u8>) -> int
    decreases s.len(),
{
    if s.len() == 0 {
        0
    } else {
        digits_val(s.drop_last()) * 10 + (s.last() - 0x30)
    }
}

/// Milliseconds per unit: seconds for an empty suffix or "s", and "ms",
/// "m", "h", "d" as named; anything else is unknown.
pub open spec fn unit_millis(unit: Seq<u8>) -> Option<u64> {
    if unit.len() == 0 {
        Some(1000u64)
    } else if unit.len() == 1 && unit[0] == 0x73 {
        Some(1000u64)
    } else if unit.len() == 2 && unit[0] == 0x6d && unit[1] == 0x73 {
        Some(1u64)
    } else if unit.len() == 1 && unit[0] == 0x6d {
        Some(60_000u64)
    } else if unit.len() == 1 && unit[0] == 0x68 {
        Some(3_600_000u64)
    } else if unit.len() == 1 && unit[0] == 0x64 {
        Some(86_400_000u64)
    } else {
        None
    }
}

/// The digit run of a numeric part: one optional leading plus sign is
/// skipped, exactly as the standard unsigned integer parser accepts it.
pub open spec fn digits_part(num: Seq<u8>) -> Seq<u8> {
    if num.len() > 0 && num[0] == 0x2b {
        num.drop_first()
    } else {
        num
    }
}

/// Where no byte before `p` is a letter, and `p` is the length or sits on
/// a letter, `p` is the split position.
proof fn lemma_split_pos_at(s: Seq<u8>, p: int)
    requires
        0 <= p <= s.len(),
        forall|k: int| 0 <= k < p ==> !is_ascii_alpha(#[trigger] s[k]),
        p < s.len() ==> is_ascii_alpha(s[p]),
    ensures
        split_pos(s) == p,
    decreases s.len(),
{
    if p == 0 {
        // Either the string is empty or it starts with a letter.
    } else {
        assert(!is_ascii_alpha(s[0]));
        let rest = s.drop_first();
        assert forall|k: int| 0 <= k < p - 1 implies !is_ascii_alpha(#[trigger] rest[k]) by {
            assert(rest[k] == s[k + 1]);
        }
        assert(p - 1 < rest.len() ==> is_ascii_alpha(rest[p - 1]));
        lemma_split_pos_at(rest, p - 1);
    }
}

/// A digit run never denotes less than any of its prefixes.
proof fn lemma_digits_val_prefix_le(s: Seq<u8>, i: int)
    requires
        0 <= i <= s.len(),
        all_digits(s),
    ensures
        digits_val(s.take(i)) <= digits_val(s),
        digits_val(s) >= 0,
    decreases s.len() - i,
{
    if i == s.len() {
        assert(s.take(i) =~= s);
        lemma_digits_val_nonneg(s);
    } else {
        lemma_digits_val_prefix_le(s, i + 1);
        let longer = s.take(i + 1);
        assert(longer.drop_last() =~= s.take(i));
        assert(all_digits(s.take(i)));
        lemma_digits_val_nonneg(s.take(i));
        assert(digits_val(longer) == digits_val(s.take(i)) * 10 + (longer.last() - 0x30));
        assert(digits_val(s.take(i)) * 10 >= digits_val(s.take(i))) by (nonlinear_arith)
            requires
                digits_val(s.take(i)) >= 0,
        ;
    }
}

/// A digit run denotes a number, never a negative value.
proof fn lemma_digits_val_nonneg(s: Seq<u8>)
    requires
        all_digits(s),
    ensures
        digits_val(s) >= 0,
    decreases s.len(),
{
    if s.len() > 0 {
        assert(all_digits(s.drop_last())) by {
            assert(forall|i: int|
                0 <= i < s.drop_last().len() ==> #[trigger] s.drop_last()[i] == s[i]);
        }
        lemma_digits_val_nonneg(s.drop_last());
        assert(is_ascii_digit(s.last()));
        assert(digits_val(s.drop_last()) * 10 >= 0) by (nonlinear_arith)
            requires
                digits_val(s.drop_last()) >= 0,
        ;
    }
}

/// Parses a duration like "30s", "1000ms", "5m", "1h" or "2d" into
/// milliseconds. A bare number counts as seconds. The numeric value is an
/// optional plus sign followed by decimal digits, as the standard unsigned
/// integer parser accepts; a value or total too large for `u64`
/// milliseconds is rejected rather than wrapped.
pub fn parse_duration(s: &str) -> (r: Result<u64, OracleVmError>)
    ensures
        ({
            let b = s.spec_bytes();
            let p = split_pos(b);
            let num = digits_part(b.take(p));
            let unit = b.skip(p);
            &&& ((r is Ok) <==> (num.len() > 0 && all_digits(num) && unit_millis(unit) is Some
                && digits_val(num) * (unit_millis(unit)->0 as int) <= u64::MAX))
            &&& (r matches Ok(ms) ==> ms == digits_val(num) * (unit_millis(unit)->0 as int))
            &&& (r matches Err(e) ==> e is Config)
        }),
{
    let bytes = s.as_bytes();
    let n = bytes.len();
    let ghost b = s.spec_bytes();

    // Find the boundary between the numeric value and the unit suffix.
    let mut p: usize = 0;
    while p < n && !((0x41 <= bytes[p] && bytes[p] <= 0x5a) || (0x61 <= bytes[p] && bytes[p]
        <= 0x7a))
        invariant
            p <= n,
            n == b.len(),
            b == s.spec_bytes(),
            bytes@ == b,
            forall|k: int| 0 <= k < p ==> !is_ascii_alpha(#[trigger] b[k]),
        decreases n - p,
    {
        p = p + 1;
    }
    proof {
        lemma_split_pos_at(b, p as int);
    }
    let ghost num = digits_part(b.take(p as int));
    let ghost unit = b.skip(p as int);

    if p == 0 {
        if n == 0 {
            return Err(OracleVmError::Config("Empty duration string".to_owned()));
        }
        return Err(OracleVmError::Config("Invalid duration value".to_owned()));
    }
    // One optional leading plus sign belongs to the numeric value.
    let start: usize = if bytes[0] == 0x2b {
        1
    } else {
        0
    };
    proof {
        let raw = b.take(p as int);
        assert(raw[0] == b[0]);
        if start == 1 {
            assert(num =~= raw.drop_first());
        } else {
            assert(num =~= raw);
        }
        assert(num.len() == p - start);
        assert forall|j: int| 0 <= j < num.len() implies #[trigger] num[j] == b[
            j + start as int
        ] by {
            if start == 1 {
                assert(num[j] == raw[j + 1]);
            } else {
                assert(num[j] == raw[j]);
            }
        }
    }
    if start == p {
        // A lone sign carries no digits.
        return Err(OracleVmError::Config("Invalid duration value".to_owned()));
    }
    // Parse the digits, rejecting a non-digit or a value beyond u64.
    let mut value: u64 = 0;
    let mut i: usize = start;
    while i < p
        invariant
            start <= i <= p,
            p <= n,
            n == b.len(),
            b == s.spec_bytes(),
            bytes@ == b,
            split_pos(b) == p as int,
            num == digits_part(b.take(p as int)),
            unit == b.skip(p as int),
            num.len() == p - start,
            forall|j: int| 0 <= j < num.len() ==> #[trigger] num[j] == b[j + start as int],
            all_digits(num.take(i - start as int)),
            value == digits_val(num.take(i - start as int)),
        decreases p - i,
    {
        let ghost idx = i - start as int;
        let byte = bytes[i];
        proof {
            assert(num[idx] == b[i as int]);
        }
        if byte < 0x30 || byte > 0x39 {
            proof {
                assert(!is_ascii_digit(num[idx]));
                assert(!all_digits(num));
            }
            return Err(OracleVmError::Config("Invalid duration value".to_owned()));
        }
        let digit = (byte - 0x30) as u64;
        if value > (u64::MAX - digit) / 10 {
            proof {
                assert(num.take(idx + 1).drop_last() =~= num.take(idx));
                assert(num.take(idx + 1).last() == num[idx]);
                assert(digits_val(num.take(idx + 1)) == value * 10 + digit);
                assert(value * 10 + digit > u64::MAX) by (nonlinear_arith)
                    requires
                        0 <= digit <= 9,
                        value > (u64::MAX - digit) / 10,
                ;
                if all_digits(num) {
                    lemma_digits_val_prefix_le(num, idx + 1);
                    assert(digits_val(num) > u64::MAX);
                    if unit_millis(unit) is Some {
                        let m = unit_millis(unit)->0;
                        assert(m >= 1);
                        assert(digits_val(num) * (m as int) > u64::MAX) by (nonlinear_arith)
                            requires
                                digits_val(num) > u64::MAX,
                                m >= 1,
                        ;
                    }
                }
            }
            return Err(OracleVmError::Config("Duration value too large".to_owned()));
        }
        proof {
            assert(num.take(idx + 1).drop_last() =~= num.take(idx));
            assert(num.take(idx + 1).last() == num[idx]);
            assert(value * 10 + digit <= u64::MAX) by (nonlinear_arith)
                requires
                    0 <= digit <= 9,
                    value <= (u64::MAX - digit) / 10,
            ;
        }
        value = value * 10 + digit;
        i = i + 1;
    }
    proof {
        assert(num.take(p - start as int) =~= num);
    }
    // Map the unit suffix to its milliseconds-per-unit factor.
    let unit_len = n - p;
    proof {
        assert(unit.len() == unit_len);
        if unit_len > 0 {
            assert(unit[0] == b[p as int]);
        }
        if unit_len > 1 {
            assert(unit[1] == b[p as int + 1]);
        }
    }
    let multiplier: u64 = if unit_len == 0 {
        1000
    } else if unit_len == 1 && bytes[p] == 0x73 {
        1000
    } else if unit_len == 2 && bytes[p] == 0x6d && bytes[p + 1] == 0x73 {
        1
    } else if unit_len == 1 && bytes[p] == 0x6d {
        60_000
    } else if unit_len == 1 && bytes[p] == 0x68 {
        3_600_000
    } else if unit_len == 1 && bytes[p] == 0x64 {
        86_400_000
    } else {
        proof {
            assert(unit_millis(unit) is None);
        }
        return Err(OracleVmError::Config("Unknown duration unit".to_owned()));
    };
    proof {
        assert(unit_millis(unit) == Some(multiplier));
    }
    // Scale to milliseconds, rejecting a total beyond u64.
    if value > u64::MAX / multiplier {
        proof {
            assert((value as int) * (multiplier as int) > u64::MAX) by (nonlinear_arith)
                requires
                    value > u64::MAX / multiplier,
                    multiplier == 1 || multiplier == 1000 || multiplier == 60_000 || multiplier
                        == 3_600_000 || multiplier == 86_400_000,
            ;
        }
        return Err(OracleVmError::Config("Duration value too large".to_owned()));
    }
    proof {
        assert((value as int) * (multiplier as int) <= u64::MAX) by (nonlinear_arith)
            requires
                value <= u64::MAX / multiplier,
                multiplier == 1 || multiplier == 1000 || multiplier == 60_000 || multiplier
                    == 3_600_000 || multiplier == 86_400_000,
        ;
    }
    Ok(value * multiplier)
}

} // verus!
