//! Proxy-wide settings: the gateway API key, logging switch and log
//! retention, the values read from the environment, and the checks that
//! a request passes before an account is chosen.

use vstd::prelude::*;
use vstd::string::*;
use crate::headers::{get_header, header_lookup, hview};
use crate::text::{
    clone_opt, has_prefix, lower_of, opt_chars, starts_with, str_eq, to_lowercase, trim, trimmed,
};

verus! {

/// The request body limit used when none is configured: 16 MiB.
pub const DEFAULT_FRONT_PROXY_MAX_BODY_BYTES: usize = 16777216;

/// The log retention used when none is configured.
pub const DEFAULT_MAX_LOGS: usize = 1000;

/// Proxy-wide settings.
#[derive(Debug)]
pub struct ProxyConfig {
    /// The key clients must present; `None` lets every client through.
    pub api_key: Option<String>,
    pub enable_logging: bool,
    /// How many log records are kept; zero keeps all.
    pub max_logs: usize,
}

/// The values of a configuration.
pub struct ConfigView {
    pub api_key: Option<Seq<char>>,
    pub enable_logging: bool,
    pub max_logs: nat,
}

impl View for ProxyConfig {
    type V = ConfigView;

    open spec fn view(&self) -> ConfigView {
        ConfigView {
            api_key: opt_chars(self.api_key),
            enable_logging: self.enable_logging,
            max_logs: self.max_logs as nat,
        }
    }
}

impl Default for ProxyConfig {
    fn default() -> (r: ProxyConfig)
        ensures
            r@.api_key is None,
            r@.enable_logging,
            r@.max_logs == DEFAULT_MAX_LOGS,
    {
        ProxyConfig { api_key: None, enable_logging: true, max_logs: DEFAULT_MAX_LOGS }
    }
}

impl ProxyConfig {
    /// A copy of this configuration.
    pub fn copy(&self) -> (r: ProxyConfig)
        ensures
            r@ == self@,
    {
        ProxyConfig {
            api_key: clone_opt(&self.api_key),
            enable_logging: self.enable_logging,
            max_logs: self.max_logs,
        }
    }
}

/// The configuration read at start-up, or the defaults when none could be read.
pub fn config_or_default(loaded: Option<ProxyConfig>) -> (r: ProxyConfig)
    ensures
        loaded matches Some(c) ==> r@ == c@,
        loaded is None ==> r@.api_key is None && r@.enable_logging && r@.max_logs
            == DEFAULT_MAX_LOGS,
{
    match loaded {
        Some(c) => c,
        None => ProxyConfig::default(),
    }
}

/// `c` with the given changes: a new key is trimmed and a blank one clears
/// the key; the retention is at least one.
pub open spec fn config_updated(
    c: ConfigView,
    api_key: Option<Seq<char>>,
    enable_logging: Option<bool>,
    max_logs: Option<usize>,
) -> ConfigView {
    ConfigView {
        api_key: match api_key {
            Some(k) => if trimmed(k).len() == 0 {
                None
            } else {
                Some(trimmed(k))
            },
            None => c.api_key,
        },
        enable_logging: match enable_logging {
            Some(b) => b,
            None => c.enable_logging,
        },
        max_logs: match max_logs {
            Some(m) => if m < 1 {
                1
            } else {
                m as nat
            },
            None => c.max_logs,
        },
    }
}

/// `current` with the given changes applied.
pub fn updated_config(
    current: &ProxyConfig,
    api_key: Option<&str>,
    enable_logging: Option<bool>,
    max_logs: Option<usize>,
) -> (r: ProxyConfig)
    ensures
        r@ == config_updated(
            current@,
            match api_key {
                Some(k) => Some(k@),
                None => None,
            },
            enable_logging,
            max_logs,
        ),
{
    let mut c = current.copy();
    if let Some(k) = api_key {
        let t = trim(k);
        c.api_key = if t.unicode_len() == 0 {
            None
        } else {
            Some(t.to_owned())
        };
    }
    if let Some(b) = enable_logging {
        c.enable_logging = b;
    }
    if let Some(m) = max_logs {
        c.max_logs = if m < 1 {
            1
        } else {
            m
        };
    }
    c
}

/// The live configuration of a running gateway.
pub struct ConfigStore {
    current: ProxyConfig,
}

impl View for ConfigStore {
    type V = ConfigView;

    closed spec fn view(&self) -> ConfigView {
        self.current@
    }
}

impl ConfigStore {
    /// A store holding `initial`.
    pub fn new(initial: ProxyConfig) -> (r: ConfigStore)
        ensures
            r@ == initial@,
    {
        ConfigStore { current: initial }
    }

    /// Replaces the configuration.
    pub fn replace(&mut self, next: ProxyConfig)
        ensures
            final(self)@ == next@,
    {
        self.current = next;
    }
}

/// The live configuration.
pub fn proxy_config(store: &ConfigStore) -> (r: &ProxyConfig)
    ensures
        r@ == store@,
{
    &store.current
}

/// A copy of the live configuration.
pub fn proxy_config_snapshot(store: &ConfigStore) -> (r: ProxyConfig)
    ensures
        r@ == store@,
{
    store.current.copy()
}

/// The value of a run of decimal digits.
pub open spec fn digits_value(d: Seq<char>) -> nat
    decreases d.len(),
{
    if d.len() == 0 {
        0
    } else {
        digits_value(d.drop_last()) * 10 + ((d.last() as u32) - 48) as nat
    }
}

/// Every character is an ASCII digit.
pub open spec fn all_digits(d: Seq<char>) -> bool {
    forall|i: int| 0 <= i < d.len() ==> '0' <= #[trigger] d[i] <= '9'
}

/// What `from_str` of an unsigned integer type with largest value `max`
/// gives: an optional `+`, then one or more ASCII digits whose value is at
/// most `max`.
pub open spec fn parsed_unsigned(s: Seq<char>, max: nat) -> Option<nat> {
    let d = if s.len() > 0 && s[0] == '+' {
        s.drop_first()
    } else {
        s
    };
    if d.len() > 0 && all_digits(d) && digits_value(d) <= max {
        Some(digits_value(d))
    } else {
        None
    }
}

proof fn lemma_digits_monotone(d: Seq<char>, i: int, j: int)
    requires
        0 <= i <= j <= d.len(),
        all_digits(d),
    ensures
        digits_value(d.subrange(0, i)) <= digits_value(d.subrange(0, j)),
    decreases j - i,
{
    if i < j {
        lemma_digits_monotone(d, i, j - 1);
        let s = d.subrange(0, j);
        assert(s.drop_last() =~= d.subrange(0, j - 1));
        assert('0' <= d[j - 1] <= '9');
    }
}

/// Parses an unsigned decimal number as `u64::from_str` does.
pub fn parse_u64(s: &str) -> (r: Option<u64>)
    ensures
        match r {
            Some(v) => parsed_unsigned(s@, u64::MAX as nat) == Some(v as nat),
            None => parsed_unsigned(s@, u64::MAX as nat) is None,
        },
{
    let n = s.unicode_len();
    let start: usize = if n > 0 && s.get_char(0) == '+' {
        1
    } else {
        0
    };
    let ghost d = if s@.len() > 0 && s@[0] == '+' {
        s@.drop_first()
    } else {
        s@
    };
    assert(d =~= s@.subrange(start as int, n as int));
    if start >= n {
        return None;
    }
    let mut acc: u64 = 0;
    let mut i: usize = start;
    while i < n
        invariant
            start <= i <= n,
            n == s@.len(),
            d == s@.subrange(start as int, n as int),
            d == (if s@.len() > 0 && s@[0] == '+' {
                s@.drop_first()
            } else {
                s@
            }),
            forall|k: int| 0 <= k < i - start ==> '0' <= #[trigger] d[k] <= '9',
            acc as nat == digits_value(d.subrange(0, i - start)),
        decreases n - i,
    {
        let c = s.get_char(i);
        if c < '0' || c > '9' {
            assert(d[i - start] == c);
            assert(!all_digits(d));
            return None;
        }
        let digit: u64 = ((c as u32) - 48) as u64;
        let ghost prefix = d.subrange(0, i + 1 - start);
        assert(prefix.drop_last() =~= d.subrange(0, i - start));
        assert(prefix.last() == c);
        match acc.checked_mul(10) {
            Some(t) => match t.checked_add(digit) {
                Some(v) => {
                    acc = v;
                },
                None => {
                    proof {
                        assert(digits_value(prefix) > u64::MAX);
                        lemma_overflow_stays(d, i + 1 - start);
                    }
                    return None;
                },
            },
            None => {
                proof {
                    assert(digits_value(prefix) > u64::MAX);
                    lemma_overflow_stays(d, i + 1 - start);
                }
                return None;
            },
        }
        i = i + 1;
    }
    assert(d.subrange(0, n - start) =~= d);
    Some(acc)
}

proof fn lemma_overflow_stays(d: Seq<char>, i: int)
    requires
        0 <= i <= d.len(),
        forall|k: int| 0 <= k < i ==> '0' <= #[trigger] d[k] <= '9',
        digits_value(d.subrange(0, i)) > u64::MAX,
    ensures
        !(all_digits(d) && digits_value(d) <= u64::MAX),
{
    if all_digits(d) {
        lemma_digits_monotone(d, i, d.len() as int);
        assert(d.subrange(0, d.len() as int) =~= d);
    }
}

/// The request body limit: a positive setting (trimmed, in decimal), or
/// the default.
pub open spec fn body_limit(setting: Option<Seq<char>>) -> nat {
    match setting {
        Some(v) => match parsed_unsigned(trimmed(v), usize::MAX as nat) {
            Some(x) => if x > 0 {
                x
            } else {
                DEFAULT_FRONT_PROXY_MAX_BODY_BYTES as nat
            },
            None => DEFAULT_FRONT_PROXY_MAX_BODY_BYTES as nat,
        },
        None => DEFAULT_FRONT_PROXY_MAX_BODY_BYTES as nat,
    }
}

/// The request body limit from an optional setting.
pub fn front_proxy_max_body_bytes(setting: Option<&str>) -> (r: usize)
    ensures
        r as nat == body_limit(
            match setting {
                Some(v) => Some(v@),
                None => None,
            },
        ),
{
    match setting {
        Some(v) => match parse_u64(trim(v)) {
            Some(x) => {
                if x > 0 && x as u128 <= usize::MAX as u128 {
                    x as usize
                } else {
                    proof {
                        if x > 0 {
                            assert(parsed_unsigned(trimmed(v@), usize::MAX as nat) is None);
                        }
                    }
                    DEFAULT_FRONT_PROXY_MAX_BODY_BYTES
                }
            },
            None => {
                proof {
                    lemma_parse_narrower(trimmed(v@), usize::MAX as nat);
                }
                DEFAULT_FRONT_PROXY_MAX_BODY_BYTES
            },
        },
        None => DEFAULT_FRONT_PROXY_MAX_BODY_BYTES,
    }
}

proof fn lemma_parse_narrower(s: Seq<char>, max: nat)
    requires
        max <= u64::MAX,
        parsed_unsigned(s, u64::MAX as nat) is None,
    ensures
        parsed_unsigned(s, max) is None,
{
}

/// The declared body length exceeds `max`: the header parses (trimmed) as
/// a `u64` larger than `max`.
pub open spec fn declared_too_large(content_length: Option<Seq<char>>, max: nat) -> bool {
    match content_length {
        Some(v) => match parsed_unsigned(trimmed(v), u64::MAX as nat) {
            Some(x) => x > max,
            None => false,
        },
        None => false,
    }
}

/// Whether a request must be refused with 413 before its body is read.
pub fn content_length_too_large(headers: &Vec<(String, String)>, max_body_bytes: usize) -> (r: bool)
    ensures
        r == declared_too_large(header_lookup(hview(headers@), "content-length"@), max_body_bytes as nat),
{
    match get_header(headers, "content-length") {
        Some(v) => match parse_u64(trim(v)) {
            Some(x) => x as u128 > max_body_bytes as u128,
            None => false,
        },
        None => false,
    }
}

/// The words that switch a flag on, once trimmed and lower-cased.
pub open spec fn truthy_word(lower: Seq<char>) -> bool {
    lower == "1"@ || lower == "true"@ || lower == "yes"@ || lower == "on"@
}

/// Whether an already trimmed and lower-cased setting switches a flag on.
pub fn is_truthy_word(lower: &str) -> (r: bool)
    ensures
        r == truthy_word(lower@),
{
    str_eq(lower, "1") || str_eq(lower, "true") || str_eq(lower, "yes") || str_eq(lower, "on")
}

/// Whether an optional setting switches a flag on.
pub fn parse_bool_setting(setting: Option<&str>) -> (r: bool)
    ensures
        r == match setting {
            Some(v) => truthy_word(lower_of(trimmed(v@))),
            None => false,
        },
{
    match setting {
        Some(v) => {
            let lower = to_lowercase(trim(v));
            is_truthy_word(lower.as_str())
        },
        None => false,
    }
}

/// The cookie injected upstream: the setting trimmed, unless blank.
pub fn upstream_cookie(setting: Option<&str>) -> (r: Option<String>)
    ensures
        opt_chars(r) == match setting {
            Some(v) => if trimmed(v@).len() > 0 {
                Some(trimmed(v@))
            } else {
                None
            },
            None => None,
        },
{
    match setting {
        Some(v) => {
            let t = trim(v);
            if t.unicode_len() > 0 {
                Some(t.to_owned())
            } else {
                None
            }
        },
        None => None,
    }
}

/// Whether a request with headers `headers` passes the gateway key check.
/// Without a non-blank key configured every request passes. Otherwise the
/// key must equal `Authorization: Bearer <key>` or `x-api-key: <key>`,
/// each trimmed.
pub open spec fn api_key_accepted(api_key: Option<Seq<char>>, headers: Seq<(Seq<char>, Seq<char>)>) -> bool {
    match api_key {
        Some(k) => if trimmed(k).len() == 0 {
            true
        } else {
            (match header_lookup(headers, "authorization"@) {
                Some(v) => has_prefix(v, "Bearer "@) && trimmed(
                    v.subrange("Bearer "@.len() as int, v.len() as int),
                ) == k,
                None => false,
            }) || (match header_lookup(headers, "x-api-key"@) {
                Some(v) => trimmed(v) == k,
                None => false,
            })
        },
        None => true,
    }
}

/// Whether the request headers carry the configured gateway key.
pub fn proxy_api_key_valid(headers: &Vec<(String, String)>, config: &ProxyConfig) -> (r: bool)
    ensures
        r == api_key_accepted(config@.api_key, hview(headers@)),
{
    let expected: &str = match &config.api_key {
        Some(k) => {
            if trim(k.as_str()).unicode_len() == 0 {
                return true;
            }
            k.as_str()
        },
        None => {
            return true;
        },
    };
    let bearer_ok = match get_header(headers, "authorization") {
        Some(v) => {
            if starts_with(v, "Bearer ") {
                let n = v.unicode_len();
                let m = "Bearer ".unicode_len();
                str_eq(trim(v.substring_char(m, n)), expected)
            } else {
                false
            }
        },
        None => false,
    };
    let key_ok = match get_header(headers, "x-api-key") {
        Some(v) => str_eq(trim(v), expected),
        None => false,
    };
    bearer_ok || key_ok
}

} // verus!
