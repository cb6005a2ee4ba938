//! The policy configuration: the raw settings as they are written, and the
//! validated form that the checks use.

use vstd::prelude::*;

use crate::text::{
    decimal, i64_decimal, is_white_space, lemma_trimmed_fixed, lemma_trimmed_idempotent,
    lemma_trimmed_shape, signed_decimal, trim, trimmed, usize_decimal,
};

verus! {

/// One entry of `fieldLimits` as it is written in the configuration.
#[derive(Debug)]
pub struct FieldLimits0Config {
    pub field: String,
    pub max_chars: i64,
}

/// The policy configuration as it is written; every setting may be absent.
#[derive(Debug)]
pub struct Config {
    pub default_field_max_chars: Option<i64>,
    pub field_limits: Option<Vec<FieldLimits0Config>>,
    pub max_request_bytes: Option<i64>,
    pub max_total_argument_chars: Option<i64>,
    pub mcp_endpoint: Option<String>,
    pub strict_mode: Option<bool>,
}

/// Why a configuration was rejected.
#[derive(Debug)]
pub enum ConfigError {
    /// `defaultFieldMaxChars` is below 1.
    InvalidDefaultMax(i64),
    /// `fieldLimits[idx].maxChars` is below 1.
    InvalidFieldMax { idx: usize, value: i64 },
    /// `fieldLimits[idx].field` is empty or only whitespace.
    EmptyFieldName { idx: usize },
    /// `maxTotalArgumentChars` is below 1.
    InvalidTotalMax(i64),
}

impl ConfigError {
    /// The text of the message that reports this error.
    pub open spec fn message_text(&self) -> Seq<char> {
        match self {
            ConfigError::InvalidDefaultMax(v) => "defaultFieldMaxChars must be >= 1 (got "@
                + signed_decimal(*v as int) + ")"@,
            ConfigError::InvalidFieldMax { idx, value } => "fieldLimits["@ + decimal(*idx as nat)
                + "]: maxChars must be >= 1 (got "@ + signed_decimal(*value as int) + ")"@,
            ConfigError::EmptyFieldName { idx } => "fieldLimits["@ + decimal(*idx as nat)
                + "]: field name must not be empty"@,
            ConfigError::InvalidTotalMax(v) => "maxTotalArgumentChars must be >= 1 (got "@
                + signed_decimal(*v as int) + ")"@,
        }
    }

    /// The message that reports this error, naming the setting and the
    /// value that was refused.
    pub fn message(&self) -> (r: String)
        ensures
            r@ == self.message_text(),
    {
        match self {
            ConfigError::InvalidDefaultMax(v) => {
                let mut s = String::from_str("defaultFieldMaxChars must be >= 1 (got ");
                s.append(i64_decimal(*v).as_str());
                s.append(")");
                s
            },
            ConfigError::InvalidFieldMax { idx, value } => {
                let mut s = String::from_str("fieldLimits[");
                s.append(usize_decimal(*idx).as_str());
                s.append("]: maxChars must be >= 1 (got ");
                s.append(i64_decimal(*value).as_str());
                s.append(")");
                s
            },
            ConfigError::EmptyFieldName { idx } => {
                let mut s = String::from_str("fieldLimits[");
                s.append(usize_decimal(*idx).as_str());
                s.append("]: field name must not be empty");
                s
            },
            ConfigError::InvalidTotalMax(v) => {
                let mut s = String::from_str("maxTotalArgumentChars must be >= 1 (got ");
                s.append(i64_decimal(*v).as_str());
                s.append(")");
                s
            },
        }
    }
}

/// The validated runtime configuration of the policy.
#[derive(Debug)]
pub struct PolicyConfig {
    /// The path prefix at which the MCP endpoint is served.
    pub mcp_endpoint: String,
    /// When set, requests outside the endpoint are answered with 404.
    pub strict_mode: bool,
    /// The limit for string fields that no entry of `field_limits` covers;
    /// `None` means no default limit.
    pub default_field_max_chars: Option<usize>,
    /// Per-field limits as `(field name, max chars)`; the name `"*"` is a
    /// wildcard, consulted after the exact names.
    pub field_limits: Vec<(String, usize)>,
    /// The limit on the characters of all strings together; `None` means
    /// no such limit.
    pub max_total_argument_chars: Option<usize>,
    /// The largest request body, in bytes, that is parsed at all.
    pub max_request_bytes: usize,
}


/// The endpoint path used when none is configured.
pub open spec fn default_endpoint() -> Seq<char> {
    "/mcp"@
}

/// `s` trimmed, given a leading `/` when it has none, and `/mcp` when
/// nothing is left of it.
pub open spec fn normalized_endpoint(s: Seq<char>) -> Seq<char> {
    let t = trimmed(s);
    if t.len() == 0 {
        default_endpoint()
    } else if t[0] != '/' {
        seq!['/'] + t
    } else {
        t
    }
}

/// `v` clamped to `[min, max]`.
pub open spec fn clamped(v: int, min: int, max: int) -> int {
    if v < min {
        min
    } else if v > max {
        max
    } else {
        v
    }
}

/// The error of entry `idx` of `fieldLimits`, if it has one: a blank name
/// is reported before a limit below 1.
pub open spec fn row_error(row: FieldLimits0Config, idx: int) -> Option<ConfigError> {
    if trimmed(row.field@).len() == 0 {
        Some(ConfigError::EmptyFieldName { idx: idx as usize })
    } else if row.max_chars < 1 {
        Some(ConfigError::InvalidFieldMax { idx: idx as usize, value: row.max_chars })
    } else {
        None
    }
}

/// The error of the first entry of `rows[i..]` that has one.
pub open spec fn rows_error(rows: Seq<FieldLimits0Config>, i: int) -> Option<ConfigError>
    decreases rows.len() - i,
{
    if 0 <= i < rows.len() {
        match row_error(rows[i], i) {
            Some(e) => Some(e),
            None => rows_error(rows, i + 1),
        }
    } else {
        None
    }
}

/// Whether `out` holds, in order, the trimmed names and the limits of `rows`.
pub open spec fn parsed_limits(rows: Seq<FieldLimits0Config>, out: Seq<(String, usize)>) -> bool {
    &&& out.len() == rows.len()
    &&& forall|i: int|
        0 <= i < rows.len() ==> {
            &&& (#[trigger] out[i]).0@ == trimmed(rows[i].field@)
            &&& out[i].1 == rows[i].max_chars as usize
        }
}

/// The first error of a raw configuration, in the order in which the
/// settings are validated: the default limit, the field limits, the total
/// limit.
pub open spec fn config_error(raw: Config) -> Option<ConfigError> {
    match raw.default_field_max_chars {
        Some(v) if v < 1 => Some(ConfigError::InvalidDefaultMax(v)),
        _ => match raw.field_limits {
            Some(rows) if rows_error(rows@, 0) is Some => rows_error(rows@, 0),
            _ => match raw.max_total_argument_chars {
                Some(v) if v < 1 => Some(ConfigError::InvalidTotalMax(v)),
                _ => None,
            },
        },
    }
}

/// The default field limit that a valid configuration sets: 4096 when
/// none is given.
pub open spec fn default_limit_setting(raw: Config) -> Option<usize> {
    match raw.default_field_max_chars {
        None => Some(4096usize),
        Some(v) => Some(v as usize),
    }
}

/// The total limit that a valid configuration sets: none when none is given.
pub open spec fn total_limit_setting(raw: Config) -> Option<usize> {
    match raw.max_total_argument_chars {
        None => None,
        Some(v) => Some(v as usize),
    }
}

/// The endpoint that a configuration sets: the normalised `mcpEndpoint`,
/// `/mcp` when none is given.
pub open spec fn endpoint_setting(raw: Config) -> Seq<char> {
    match raw.mcp_endpoint {
        Some(e) => normalized_endpoint(e@),
        None => normalized_endpoint(default_endpoint()),
    }
}

/// Validates the entries of `fieldLimits` in order and returns them as
/// `(trimmed name, limit)` pairs, or the error of the first invalid entry.
pub fn parse_field_limits(raw: Option<&[FieldLimits0Config]>) -> (r: Result<
    Vec<(String, usize)>,
    ConfigError,
>)
    ensures
        match raw {
            None => r matches Ok(out) && out@.len() == 0,
            Some(rows) => match rows_error(rows@, 0) {
                Some(e) => r matches Err(e2) && e2 == e,
                None => r matches Ok(out) && parsed_limits(rows@, out@),
            },
        },
{
    let rows = match raw {
        Some(rows) => rows,
        None => return Ok(Vec::new()),
    };
    let mut out: Vec<(String, usize)> = Vec::new();
    let n = rows.len();
    let mut idx: usize = 0;
    while idx < n
        invariant
            raw == Some(rows),
            n == rows@.len(),
            idx <= n,
            rows_error(rows@, 0) == rows_error(rows@, idx as int),
            out@.len() == idx,
            forall|i: int|
                0 <= i < idx ==> {
                    &&& (#[trigger] out@[i]).0@ == trimmed(rows@[i].field@)
                    &&& out@[i].1 == rows@[i].max_chars as usize
                },
        decreases n - idx,
    {
        let row = &rows[idx];
        let name = trim(row.field.as_str());
        if name.as_str().unicode_len() == 0 {
            return Err(ConfigError::EmptyFieldName { idx });
        }
        if row.max_chars < 1 {
            return Err(ConfigError::InvalidFieldMax { idx, value: row.max_chars });
        }
        out.push((name, row.max_chars as usize));
        idx = idx + 1;
    }
    Ok(out)
}

/// Normalises the configured endpoint path: trims it, falls back to `/mcp`
/// when nothing is left, and adds a leading `/` when it has none.
pub fn normalize_mcp_path(s: &str) -> (r: String)
    ensures
        r@ == normalized_endpoint(s@),
{
    let t = trim(s);
    if t.as_str().unicode_len() == 0 {
        proof {
            reveal_strlit("/mcp");
        }
        return String::from_str("/mcp");
    }
    if t.as_str().get_char(0) != '/' {
        proof {
            reveal_strlit("/");
        }
        return String::from_str("/").concat(t.as_str());
    }
    t
}

/// `v`, or `default` when absent, clamped to `[min, max]` and converted.
pub fn clamp_usize(v: Option<i64>, min: i64, max: i64, default: i64) -> (r: usize)
    requires
        min <= max,
    ensures
        r == clamped(v.unwrap_or(default) as int, min as int, max as int) as usize,
{
    let x = match v {
        Some(x) => x,
        None => default,
    };
    let c = if x < min {
        min
    } else if x > max {
        max
    } else {
        x
    };
    c as usize
}

impl PolicyConfig {
    /// Validates a raw configuration and fills in the defaults: a default
    /// field limit of 4096, no field limits, no total limit, a 1 MiB body
    /// limit clamped to `[1024, 104857600]`, the endpoint `/mcp` and strict
    /// mode on. Rejects the first setting that is out of range.
    pub fn from_config(raw: &Config) -> (r: Result<Self, ConfigError>)
        ensures
            match r {
                Err(e) => config_error(*raw) == Some(e),
                Ok(p) => {
                    &&& config_error(*raw) is None
                    &&& p.default_field_max_chars == default_limit_setting(*raw)
                    &&& match raw.default_field_max_chars {
                        Some(v) => v <= usize::MAX ==> p.default_field_max_chars is Some
                            && p.default_field_max_chars.unwrap() as int == v,
                        None => true,
                    }
                    &&& match raw.field_limits {
                        None => p.field_limits@.len() == 0,
                        Some(rows) => parsed_limits(rows@, p.field_limits@),
                    }
                    &&& p.max_total_argument_chars == total_limit_setting(*raw)
                    &&& match raw.max_total_argument_chars {
                        Some(v) => v <= usize::MAX ==> p.max_total_argument_chars is Some
                            && p.max_total_argument_chars.unwrap() as int == v,
                        None => true,
                    }
                    &&& 1_024 <= p.max_request_bytes <= 104_857_600
                    &&& p.max_request_bytes == clamped(
                        raw.max_request_bytes.unwrap_or(1_048_576) as int,
                        1_024,
                        104_857_600,
                    ) as usize
                    &&& p.mcp_endpoint@ == endpoint_setting(*raw)
                    &&& p.strict_mode == raw.strict_mode.unwrap_or(true)
                },
            },
    {
        let default_field_max_chars = match raw.default_field_max_chars {
            None => Some(4096usize),
            Some(v) => {
                if v < 1 {
                    return Err(ConfigError::InvalidDefaultMax(v));
                }
                Some(v as usize)
            },
        };
        let rows = match &raw.field_limits {
            Some(v) => Some(v.as_slice()),
            None => None,
        };
        let field_limits = match parse_field_limits(rows) {
            Ok(l) => l,
            Err(e) => {
                return Err(e);
            },
        };
        let max_total_argument_chars = match raw.max_total_argument_chars {
            None => None,
            Some(v) => {
                if v < 1 {
                    return Err(ConfigError::InvalidTotalMax(v));
                }
                Some(v as usize)
            },
        };
        let max_request_bytes = clamp_usize(raw.max_request_bytes, 1_024, 104_857_600, 1_048_576);
        let mcp_endpoint = match &raw.mcp_endpoint {
            Some(e) => normalize_mcp_path(e.as_str()),
            None => {
                proof {
                    reveal_strlit("/mcp");
                }
                normalize_mcp_path("/mcp")
            },
        };
        let strict_mode = match raw.strict_mode {
            Some(b) => b,
            None => true,
        };
        Ok(PolicyConfig {
            mcp_endpoint,
            strict_mode,
            default_field_max_chars,
            field_limits,
            max_total_argument_chars,
            max_request_bytes,
        })
    }
}


/// Law: whatever is configured, the normalised endpoint is a non-empty path
/// that starts with `/`.
pub proof fn lemma_endpoint_is_absolute(s: Seq<char>)
    ensures
        normalized_endpoint(s).len() > 0,
        normalized_endpoint(s)[0] == '/',
{
    reveal_strlit("/mcp");
}


/// Law: normalising the endpoint twice is normalising it once, and the
/// normalised endpoint has no surrounding whitespace.
pub proof fn lemma_normalize_idempotent(s: Seq<char>)
    ensures
        trimmed(normalized_endpoint(s)) == normalized_endpoint(s),
        normalized_endpoint(normalized_endpoint(s)) == normalized_endpoint(s),
{
    reveal_strlit("/mcp");
    let t = trimmed(s);
    let n = normalized_endpoint(s);
    lemma_trimmed_shape(s);
    lemma_endpoint_is_absolute(s);
    if t.len() == 0 {
        assert(n.last() == 'p');
    } else if t[0] != '/' {
        assert(n.last() == t.last());
    }
    assert(!is_white_space(n[0]));
    assert(!is_white_space(n.last()));
    lemma_trimmed_fixed(n);
}

/// Whether every number of a raw configuration fits in a `usize`, so that
/// converting it keeps its value.
pub open spec fn settings_fit(raw: Config) -> bool {
    &&& raw.default_field_max_chars matches Some(v) ==> v <= usize::MAX
    &&& raw.max_total_argument_chars matches Some(v) ==> v <= usize::MAX
    &&& raw.field_limits matches Some(rows) ==> forall|i: int|
        0 <= i < rows@.len() ==> #[trigger] rows@[i].max_chars <= usize::MAX
}

proof fn lemma_rows_valid(rows: Seq<FieldLimits0Config>, i: int)
    requires
        0 <= i,
        rows_error(rows, i) is None,
    ensures
        forall|j: int| i <= j < rows.len() ==> row_error(#[trigger] rows[j], j) is None,
    decreases rows.len() - i,
{
    if i < rows.len() {
        lemma_rows_valid(rows, i + 1);
    }
}

/// Law: a configuration that validates sets a default limit and a total
/// limit (when given) of at least 1, field limits of at least 1 under names
/// that are non-empty and already trimmed, and an endpoint that starts with
/// `/` and is already trimmed. Numbers that do not fit in a `usize` are left
/// out: converting them keeps only their low bits.
pub proof fn lemma_validated_settings(raw: Config)
    requires
        config_error(raw) is None,
        settings_fit(raw),
    ensures
        default_limit_setting(raw) matches Some(n) && n >= 1,
        total_limit_setting(raw) matches Some(n) ==> n >= 1,
        raw.field_limits matches Some(rows) ==> forall|i: int|
            0 <= i < rows@.len() ==> {
                &&& trimmed((#[trigger] rows@[i]).field@).len() > 0
                &&& trimmed(trimmed(rows@[i].field@)) == trimmed(rows@[i].field@)
                &&& rows@[i].max_chars as usize >= 1
            },
        endpoint_setting(raw).len() > 0,
        endpoint_setting(raw)[0] == '/',
        trimmed(endpoint_setting(raw)) == endpoint_setting(raw),
{
    if let Some(rows) = raw.field_limits {
        lemma_rows_valid(rows@, 0);
        assert forall|i: int| 0 <= i < rows@.len() implies {
            &&& trimmed((#[trigger] rows@[i]).field@).len() > 0
            &&& trimmed(trimmed(rows@[i].field@)) == trimmed(rows@[i].field@)
            &&& rows@[i].max_chars as usize >= 1
        } by {
            assert(row_error(rows@[i], i) is None);
            lemma_trimmed_idempotent(rows@[i].field@);
        }
    }
    match raw.mcp_endpoint {
        Some(e) => {
            lemma_endpoint_is_absolute(e@);
            lemma_normalize_idempotent(e@);
        },
        None => {
            lemma_endpoint_is_absolute(default_endpoint());
            lemma_normalize_idempotent(default_endpoint());
        },
    }
}


/// Law: a configured default field limit or total limit is kept exactly as
/// configured, however large, when it fits in a `usize`; the default field
/// limit is 4096 only when none is configured, and the total limit is absent
/// only when none is configured.
pub proof fn lemma_configured_limits_kept(raw: Config)
    ensures
        match raw.default_field_max_chars {
            Some(v) => 1 <= v <= usize::MAX ==> default_limit_setting(raw) is Some
                && default_limit_setting(raw).unwrap() as int == v,
            None => default_limit_setting(raw) == Some(4096usize),
        },
        match raw.max_total_argument_chars {
            Some(v) => 1 <= v <= usize::MAX ==> total_limit_setting(raw) is Some
                && total_limit_setting(raw).unwrap() as int == v,
            None => total_limit_setting(raw) is None,
        },
{
}

} // verus!
