use mcp_maxchar_length::config::{
    clamp_usize, normalize_mcp_path, parse_field_limits, Config, ConfigError, FieldLimits0Config,
    PolicyConfig,
};
use mcp_maxchar_length::text::{i64_decimal, is_whitespace, trim, usize_decimal};

fn bare_config() -> Config {
    Config {
        default_field_max_chars: None,
        field_limits: None,
        max_request_bytes: None,
        max_total_argument_chars: None,
        mcp_endpoint: None,
        strict_mode: None,
    }
}

#[test]
fn defaults_apply_when_nothing_configured() {
    let cfg = PolicyConfig::from_config(&bare_config()).unwrap();
    assert_eq!(cfg.mcp_endpoint, "/mcp");
    assert_eq!(cfg.strict_mode, true);
    assert_eq!(cfg.default_field_max_chars, Some(4096));
    assert!(cfg.field_limits.is_empty());
    assert!(cfg.max_total_argument_chars.is_none());
    assert_eq!(cfg.max_request_bytes, 1_048_576);
}

#[test]
fn field_limits_parsed_correctly() {
    let raw = Config {
        field_limits: Some(vec![
            FieldLimits0Config { field: "description".into(), max_chars: 512 },
            FieldLimits0Config { field: "*".into(), max_chars: 2048 },
        ]),
        ..bare_config()
    };
    let cfg = PolicyConfig::from_config(&raw).unwrap();
    assert_eq!(cfg.field_limits.len(), 2);
    assert_eq!(cfg.field_limits[0], ("description".into(), 512));
    assert_eq!(cfg.field_limits[1], ("*".into(), 2048));
}

#[test]
fn zero_default_max_is_rejected() {
    let raw = Config { default_field_max_chars: Some(0), ..bare_config() };
    assert!(matches!(PolicyConfig::from_config(&raw), Err(ConfigError::InvalidDefaultMax(0))));
}

#[test]
fn zero_field_max_is_rejected() {
    let raw = Config {
        field_limits: Some(vec![FieldLimits0Config { field: "desc".into(), max_chars: 0 }]),
        ..bare_config()
    };
    assert!(matches!(
        PolicyConfig::from_config(&raw),
        Err(ConfigError::InvalidFieldMax { idx: 0, value: 0 })
    ));
}

#[test]
fn empty_field_name_is_rejected() {
    let raw = Config {
        field_limits: Some(vec![FieldLimits0Config { field: "  ".into(), max_chars: 100 }]),
        ..bare_config()
    };
    assert!(matches!(PolicyConfig::from_config(&raw), Err(ConfigError::EmptyFieldName { idx: 0 })));
}

#[test]
fn total_max_zero_is_rejected() {
    let raw = Config { max_total_argument_chars: Some(0), ..bare_config() };
    assert!(matches!(PolicyConfig::from_config(&raw), Err(ConfigError::InvalidTotalMax(0))));
}

#[test]
fn mcp_endpoint_gets_leading_slash() {
    let raw = Config { mcp_endpoint: Some("mcp".into()), ..bare_config() };
    let cfg = PolicyConfig::from_config(&raw).unwrap();
    assert_eq!(cfg.mcp_endpoint, "/mcp");
}

// ---------------------------------------------------------------------------
// Further cases
// ---------------------------------------------------------------------------

#[test]
fn configured_values_are_kept() {
    let raw = Config {
        default_field_max_chars: Some(2048),
        field_limits: Some(vec![FieldLimits0Config { field: "  prompt\t".into(), max_chars: 512 }]),
        max_request_bytes: Some(4096),
        max_total_argument_chars: Some(8192),
        mcp_endpoint: Some("  /countrycode/mcp ".into()),
        strict_mode: Some(false),
    };
    let cfg = PolicyConfig::from_config(&raw).unwrap();
    assert_eq!(cfg.default_field_max_chars, Some(2048));
    assert_eq!(cfg.field_limits, vec![("prompt".to_string(), 512)]);
    assert_eq!(cfg.max_request_bytes, 4096);
    assert_eq!(cfg.max_total_argument_chars, Some(8192));
    assert_eq!(cfg.mcp_endpoint, "/countrycode/mcp");
    assert_eq!(cfg.strict_mode, false);
}

#[test]
fn negative_limits_are_rejected_with_their_value() {
    let raw = Config { default_field_max_chars: Some(-7), ..bare_config() };
    assert!(matches!(PolicyConfig::from_config(&raw), Err(ConfigError::InvalidDefaultMax(-7))));
    let raw = Config { max_total_argument_chars: Some(-1), ..bare_config() };
    assert!(matches!(PolicyConfig::from_config(&raw), Err(ConfigError::InvalidTotalMax(-1))));
}

#[test]
fn first_error_wins() {
    let raw = Config {
        default_field_max_chars: Some(0),
        field_limits: Some(vec![FieldLimits0Config { field: "".into(), max_chars: 0 }]),
        max_total_argument_chars: Some(0),
        ..bare_config()
    };
    assert!(matches!(PolicyConfig::from_config(&raw), Err(ConfigError::InvalidDefaultMax(0))));
    let raw = Config {
        field_limits: Some(vec![
            FieldLimits0Config { field: "ok".into(), max_chars: 5 },
            FieldLimits0Config { field: " ".into(), max_chars: 0 },
            FieldLimits0Config { field: "x".into(), max_chars: -3 },
        ]),
        max_total_argument_chars: Some(0),
        ..bare_config()
    };
    assert!(matches!(PolicyConfig::from_config(&raw), Err(ConfigError::EmptyFieldName { idx: 1 })));
}

#[test]
fn request_bytes_are_clamped() {
    let raw = Config { max_request_bytes: Some(1), ..bare_config() };
    assert_eq!(PolicyConfig::from_config(&raw).unwrap().max_request_bytes, 1024);
    let raw = Config { max_request_bytes: Some(-5), ..bare_config() };
    assert_eq!(PolicyConfig::from_config(&raw).unwrap().max_request_bytes, 1024);
    let raw = Config { max_request_bytes: Some(i64::MAX), ..bare_config() };
    assert_eq!(PolicyConfig::from_config(&raw).unwrap().max_request_bytes, 104_857_600);
    assert_eq!(clamp_usize(None, 1, 10, 4), 4);
    assert_eq!(clamp_usize(Some(11), 1, 10, 4), 10);
}

#[test]
fn parse_field_limits_cases() {
    assert_eq!(parse_field_limits(None).unwrap(), vec![]);
    let rows = vec![
        FieldLimits0Config { field: "a".into(), max_chars: 1 },
        FieldLimits0Config { field: "b".into(), max_chars: -2 },
    ];
    assert!(matches!(
        parse_field_limits(Some(&rows[..])),
        Err(ConfigError::InvalidFieldMax { idx: 1, value: -2 })
    ));
}

#[test]
fn normalize_mcp_path_cases() {
    assert_eq!(normalize_mcp_path(""), "/mcp");
    assert_eq!(normalize_mcp_path(" \t\n "), "/mcp");
    assert_eq!(normalize_mcp_path("mcp"), "/mcp");
    assert_eq!(normalize_mcp_path(" api/mcp "), "/api/mcp");
    assert_eq!(normalize_mcp_path("/a"), "/a");
    assert_eq!(normalize_mcp_path("\u{a0}/x\u{3000}"), "/x");
}

#[test]
fn trim_removes_unicode_whitespace_at_both_ends_only() {
    assert_eq!(trim("  a b  "), "a b");
    assert_eq!(trim("\u{2003}x\u{85}"), "x");
    assert_eq!(trim("xy"), "xy");
    assert_eq!(trim("   "), "");
}

#[test]
fn decimal_rendering() {
    assert_eq!(usize_decimal(0), "0");
    assert_eq!(usize_decimal(1_048_576), "1048576");
    assert_eq!(usize_decimal(907), "907");
}

#[test]
fn whitespace_agrees_with_std_on_every_char() {
    for u in 0u32..=0x10FFFF {
        if let Some(c) = char::from_u32(u) {
            assert_eq!(is_whitespace(c), c.is_whitespace(), "U+{u:04X}");
        }
    }
}

#[test]
fn signed_decimal_rendering() {
    assert_eq!(i64_decimal(-42), "-42");
    assert_eq!(i64_decimal(0), "0");
    assert_eq!(i64_decimal(i64::MIN), "-9223372036854775808");
    assert_eq!(i64_decimal(i64::MAX), "9223372036854775807");
}

#[test]
fn config_error_messages() {
    assert_eq!(ConfigError::InvalidDefaultMax(0).message(), "defaultFieldMaxChars must be >= 1 (got 0)");
    assert_eq!(
        ConfigError::InvalidFieldMax { idx: 2, value: -7 }.message(),
        "fieldLimits[2]: maxChars must be >= 1 (got -7)"
    );
    assert_eq!(
        ConfigError::EmptyFieldName { idx: 0 }.message(),
        "fieldLimits[0]: field name must not be empty"
    );
    assert_eq!(ConfigError::InvalidTotalMax(-1).message(), "maxTotalArgumentChars must be >= 1 (got -1)");
}

#[test]
fn normalize_is_idempotent_on_examples() {
    for s in ["", "  ", "mcp", " /a/b ", "\u{3000}x\u{a0}", "/mcp"] {
        let n = normalize_mcp_path(s);
        assert_eq!(normalize_mcp_path(&n), n);
        assert!(n.starts_with('/'));
        assert_eq!(n.trim(), n);
    }
}
