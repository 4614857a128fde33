//! Configuration: each key is resolved from the environment first, then
//! the configuration file, then its default.  The caller reads the
//! environment and the file; the resolution and the number parsing are
//! done here.

use vstd::prelude::*;
use vstd::string::StringSliceAdditionalSpecFns;

verus! {

/// The default chain endpoint.
pub const MAINNET_ENDPOINT: &'static str = "https://mainnet-rpc.avail.so/rpc";

pub const DEFAULT_TABLE_NAME: &'static str = "avail_table";

pub const DEFAULT_SEND_MESSAGE_TABLE_NAME: &'static str = "avail_send_message_table";

pub const DEFAULT_EXECUTE_TABLE_NAME: &'static str = "avail_execute_table";

pub const DEFAULT_MAX_TASK_COUNT: u32 = 25;

pub const DEFAULT_LOG_INTERVAL_MS: u32 = 60000;

/// The value a decimal digit string denotes.
pub open spec fn spec_digit_bytes_value(s: Seq<u8>) -> nat
    decreases s.len(),
{
    if s.len() == 0 {
        0
    } else {
        spec_digit_bytes_value(s.drop_last()) * 10 + (((s.last() - 48) % 10) as nat)
    }
}

/// Whether every byte is a decimal digit, and there is at least one.
pub open spec fn spec_is_digits(s: Seq<u8>) -> bool {
    s.len() > 0 && forall|i: int| 0 <= i < s.len() ==> 48 <= #[trigger] s[i] <= 57
}

/// How a decimal string reads as a 32-bit number: an optional leading
/// plus sign, then digits, denoting a value that fits.
pub open spec fn spec_parse_u32(s: Seq<u8>) -> Option<u32> {
    let body = if s.len() > 0 && s[0] == 43 {
        s.drop_first()
    } else {
        s
    };
    if spec_is_digits(body) && spec_digit_bytes_value(body) <= u32::MAX {
        Some(spec_digit_bytes_value(body) as u32)
    } else {
        None
    }
}

proof fn lemma_digits_value_step(s: Seq<u8>, k: int)
    requires
        0 <= k < s.len(),
    ensures
        spec_digit_bytes_value(s.subrange(0, k + 1)) == spec_digit_bytes_value(s.subrange(0, k)) * 10 + ((
        (s[k] - 48) % 10) as nat),
{
    assert(s.subrange(0, k + 1).drop_last() =~= s.subrange(0, k));
    assert(s.subrange(0, k + 1).last() == s[k]);
}

proof fn lemma_digits_value_prefix_mono(s: Seq<u8>, a: int, b: int)
    requires
        0 <= a <= b <= s.len(),
    ensures
        spec_digit_bytes_value(s.subrange(0, a)) <= spec_digit_bytes_value(s.subrange(0, b)),
    decreases b - a,
{
    if a < b {
        lemma_digits_value_prefix_mono(s, a, b - 1);
        lemma_digits_value_step(s, b - 1);
        assert(spec_digit_bytes_value(s.subrange(0, b - 1)) * 10 >= spec_digit_bytes_value(
            s.subrange(0, b - 1),
        )) by (nonlinear_arith);
    }
}

/// Reads a decimal string as a 32-bit number, as configuration values
/// are written: an optional leading plus sign, then digits.
#[verifier::loop_isolation(false)]
pub fn parse_u32(s: &str) -> (r: Option<u32>)
    ensures
        r == spec_parse_u32(s.spec_bytes()),
{
    let bytes = s.as_bytes();
    let n = bytes.len();
    let start: usize = if n > 0 && bytes[0] == 43 {
        1
    } else {
        0
    };
    let ghost body = if s.spec_bytes().len() > 0 && s.spec_bytes()[0] == 43 {
        s.spec_bytes().drop_first()
    } else {
        s.spec_bytes()
    };
    proof {
        assert(body =~= bytes@.subrange(start as int, n as int));
    }
    if n == start {
        return None;
    }
    let mut acc: u64 = 0;
    let mut i = start;
    while i < n
        invariant
            start <= i <= n,
            n == bytes@.len(),
            body == bytes@.subrange(start as int, n as int),
            forall|j: int| start <= j < i ==> 48 <= #[trigger] bytes@[j] <= 57,
            acc <= u32::MAX,
            acc == spec_digit_bytes_value(bytes@.subrange(start as int, i as int)),
        decreases n - i,
    {
        let b = bytes[i];
        if b < 48 || b > 57 {
            proof {
                assert(body[i - start] == bytes@[i as int]);
                assert(!spec_is_digits(body));
            }
            return None;
        }
        acc = acc * 10 + ((b - 48) as u64);
        proof {
            assert(bytes@.subrange(start as int, i + 1).drop_last() =~= bytes@.subrange(
                start as int,
                i as int,
            ));
            assert(bytes@.subrange(start as int, i + 1).last() == bytes@[i as int]);
        }
        i = i + 1;
        if acc > u32::MAX as u64 {
            proof {
                let k = i - start;
                assert(bytes@.subrange(start as int, i as int) =~= body.subrange(0, k));
                lemma_digits_value_prefix_mono(body, k, body.len() as int);
                assert(body.subrange(0, body.len() as int) =~= body);
            }
            return None;
        }
    }
    proof {
        assert(bytes@.subrange(start as int, n as int) =~= body);
        assert(spec_is_digits(body));
    }
    Some(acc as u32)
}

/// The configuration keys as the environment supplies them, each absent
/// when the variable is not set.
pub struct EnvConfig {
    pub db_url: Option<String>,
    pub avail_url: Option<String>,
    pub block_height: Option<String>,
    pub table_name: Option<String>,
    pub send_message_table_name: Option<String>,
    pub execute_table_name: Option<String>,
    pub max_task_count: Option<String>,
    pub log_interval_ms: Option<String>,
}

/// The configuration keys as the file supplies them, each absent when
/// the file does not set it.
pub struct ConfigurationFile {
    pub db_url: Option<String>,
    pub avail_url: Option<String>,
    pub block_height: Option<u32>,
    pub table_name: Option<String>,
    pub send_message_table_name: Option<String>,
    pub execute_table_name: Option<String>,
    pub max_task_count: Option<u32>,
    pub log_interval_ms: Option<u32>,
}

/// The connection settings one indexing task needs.
#[derive(Clone, Debug)]
pub struct TaskConfig {
    pub db_url: String,
    pub avail_url: String,
    pub table_name: String,
    pub block_height: Option<u32>,
}

/// The resolved configuration.
#[derive(Clone, Debug)]
pub struct Configuration {
    pub db_url: String,
    pub avail_url: String,
    pub block_height: Option<u32>,
    pub table_name: String,
    pub send_message_table_name: String,
    pub execute_table_name: String,
    pub max_task_count: u32,
    pub log_interval_ms: u32,
}

/// Why a configuration could not be resolved.
#[derive(Clone, Copy, Debug, PartialEq, Eq, Structural)]
pub enum ConfigError {
    /// No store connection string anywhere.
    MissingDbUrl,
    BadBlockHeight,
    BadMaxTaskCount,
    BadLogIntervalMs,
}

/// A string key's resolution: environment over file over default.
pub open spec fn spec_resolved_string(
    env: Option<Seq<char>>,
    file: Option<Seq<char>>,
    default: Seq<char>,
) -> Seq<char> {
    match env {
        Some(s) => s,
        None => match file {
            Some(s) => s,
            None => default,
        },
    }
}

fn resolve_string(env: &Option<String>, file: &Option<String>, default: &str) -> (r: String)
    ensures
        r@ == spec_resolved_string(
            match env {
                Some(s) => Some(s@),
                None => None,
            },
            match file {
                Some(s) => Some(s@),
                None => None,
            },
            default@,
        ),
{
    match env {
        Some(s) => s.clone(),
        None => match file {
            Some(s) => s.clone(),
            None => String::from_str(default),
        },
    }
}

/// Whether a numeric key set in the environment does not read as a
/// 32-bit number.
pub open spec fn spec_bad_u32_key(v: Option<String>) -> bool {
    match v {
        Some(s) => spec_parse_u32(vstd::utf8::encode_utf8(s@)) is None,
        None => false,
    }
}

impl Configuration {
    /// Resolves every key.  The store connection string is required and a
    /// set-but-unreadable number is an error — exactly then does the
    /// resolution fail, first fault first; everything else falls back to
    /// the file and then the default.
    pub fn new(env: &EnvConfig, file: &ConfigurationFile) -> (r: Result<Configuration, ConfigError>)
        ensures
            r == Err::<Configuration, ConfigError>(ConfigError::MissingDbUrl) <==> (
            env.db_url is None && file.db_url is None),
            r == Err::<Configuration, ConfigError>(ConfigError::BadBlockHeight) <==> (!(
            env.db_url is None && file.db_url is None) && spec_bad_u32_key(env.block_height)),
            r == Err::<Configuration, ConfigError>(ConfigError::BadMaxTaskCount) <==> (!(
            env.db_url is None && file.db_url is None) && !spec_bad_u32_key(env.block_height)
                && spec_bad_u32_key(env.max_task_count)),
            r == Err::<Configuration, ConfigError>(ConfigError::BadLogIntervalMs) <==> (!(
            env.db_url is None && file.db_url is None) && !spec_bad_u32_key(env.block_height)
                && !spec_bad_u32_key(env.max_task_count) && spec_bad_u32_key(env.log_interval_ms)),
            r is Ok <==> (!(env.db_url is None && file.db_url is None) && !spec_bad_u32_key(
                env.block_height,
            ) && !spec_bad_u32_key(env.max_task_count) && !spec_bad_u32_key(env.log_interval_ms)),
            r matches Ok(c) ==> {
                &&& (env.db_url matches Some(s) ==> c.db_url@ == s@)
                &&& (env.db_url is None ==> (file.db_url matches Some(s) ==> c.db_url@ == s@))
                &&& !(env.db_url is None && file.db_url is None)
                &&& c.avail_url@ == spec_resolved_string(
                    match env.avail_url {
                        Some(ref s) => Some(s@),
                        None => None,
                    },
                    match file.avail_url {
                        Some(ref s) => Some(s@),
                        None => None,
                    },
                    MAINNET_ENDPOINT@,
                )
                &&& c.block_height == (match env.block_height {
                    Some(ref s) => spec_parse_u32(vstd::utf8::encode_utf8(s@)),
                    None => file.block_height,
                })
                &&& c.table_name@ == spec_resolved_string(
                    match env.table_name {
                        Some(ref s) => Some(s@),
                        None => None,
                    },
                    match file.table_name {
                        Some(ref s) => Some(s@),
                        None => None,
                    },
                    DEFAULT_TABLE_NAME@,
                )
                &&& c.send_message_table_name@ == spec_resolved_string(
                    match env.send_message_table_name {
                        Some(ref s) => Some(s@),
                        None => None,
                    },
                    match file.send_message_table_name {
                        Some(ref s) => Some(s@),
                        None => None,
                    },
                    DEFAULT_SEND_MESSAGE_TABLE_NAME@,
                )
                &&& c.execute_table_name@ == spec_resolved_string(
                    match env.execute_table_name {
                        Some(ref s) => Some(s@),
                        None => None,
                    },
                    match file.execute_table_name {
                        Some(ref s) => Some(s@),
                        None => None,
                    },
                    DEFAULT_EXECUTE_TABLE_NAME@,
                )
                &&& c.max_task_count == (match env.max_task_count {
                    Some(ref s) => spec_parse_u32(vstd::utf8::encode_utf8(s@)).unwrap(),
                    None => match file.max_task_count {
                        Some(v) => v,
                        None => DEFAULT_MAX_TASK_COUNT,
                    },
                })
                &&& c.log_interval_ms == (match env.log_interval_ms {
                    Some(ref s) => spec_parse_u32(vstd::utf8::encode_utf8(s@)).unwrap(),
                    None => match file.log_interval_ms {
                        Some(v) => v,
                        None => DEFAULT_LOG_INTERVAL_MS,
                    },
                })
            },
    {
        let db_url = match &env.db_url {
            Some(s) => s.clone(),
            None => match &file.db_url {
                Some(s) => s.clone(),
                None => {
                    return Err(ConfigError::MissingDbUrl);
                },
            },
        };
        let avail_url = resolve_string(&env.avail_url, &file.avail_url, MAINNET_ENDPOINT);
        let block_height = match &env.block_height {
            Some(s) => match parse_u32(s.as_str()) {
                Some(v) => Some(v),
                None => {
                    return Err(ConfigError::BadBlockHeight);
                },
            },
            None => file.block_height,
        };
        let table_name = resolve_string(&env.table_name, &file.table_name, DEFAULT_TABLE_NAME);
        let send_message_table_name = resolve_string(
            &env.send_message_table_name,
            &file.send_message_table_name,
            DEFAULT_SEND_MESSAGE_TABLE_NAME,
        );
        let execute_table_name = resolve_string(
            &env.execute_table_name,
            &file.execute_table_name,
            DEFAULT_EXECUTE_TABLE_NAME,
        );
        let max_task_count = match &env.max_task_count {
            Some(s) => match parse_u32(s.as_str()) {
                Some(v) => v,
                None => {
                    return Err(ConfigError::BadMaxTaskCount);
                },
            },
            None => match file.max_task_count {
                Some(v) => v,
                None => DEFAULT_MAX_TASK_COUNT,
            },
        };
        let log_interval_ms = match &env.log_interval_ms {
            Some(s) => match parse_u32(s.as_str()) {
                Some(v) => v,
                None => {
                    return Err(ConfigError::BadLogIntervalMs);
                },
            },
            None => match file.log_interval_ms {
                Some(v) => v,
                None => DEFAULT_LOG_INTERVAL_MS,
            },
        };
        Ok(
            Configuration {
                db_url,
                avail_url,
                block_height,
                table_name,
                send_message_table_name,
                execute_table_name,
                max_task_count,
                log_interval_ms,
            },
        )
    }
}

} // verus!
