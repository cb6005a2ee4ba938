//! Argument character-limit enforcement.
//!
//! Two checks run in order:
//!   1. Per-field: each string value, at any depth, is tested against the
//!      limit of the top-level key it sits under (an exact entry of
//!      `field_limits`, else the `"*"` entry, else the default when it is not
//!      zero). A string with no applicable limit is skipped.
//!   2. Total: the characters of all string values together are tested
//!      against `max_total_argument_chars` when it is set.
//!
//! Characters are Unicode scalar values, not bytes. An error names the
//! field path, the count and the limit, never the string itself.

use vstd::prelude::*;

use crate::config::PolicyConfig;
use crate::json::{char_total, entries_total, items_total, JsonValue};
use crate::text::{decimal, str_eq, usize_decimal};

verus! {

/// The path under which the argument object itself is reported.
pub open spec fn root_path() -> Seq<char> {
    "<root>"@
}

/// The view of an optional string.
pub open spec fn opt_chars(o: Option<&str>) -> Option<Seq<char>> {
    match o {
        Some(s) => Some(s@),
        None => None,
    }
}

/// The limit of the first entry of `limits` named `key`, if any.
pub open spec fn find_limit(limits: Seq<(String, usize)>, key: Seq<char>) -> Option<usize>
    decreases limits.len(),
{
    if limits.len() == 0 {
        None
    } else if limits[0].0@ == key {
        Some(limits[0].1)
    } else {
        find_limit(limits.drop_first(), key)
    }
}

/// The default limit, when it is set and not zero.
pub open spec fn default_limit(cfg: PolicyConfig) -> Option<usize> {
    match cfg.default_field_max_chars {
        Some(d) => if d == 0 {
            None
        } else {
            Some(d)
        },
        None => None,
    }
}

/// The limit that applies to strings under the top-level key `top_key`:
/// an exact entry, else the wildcard entry, else the default when it is not
/// zero, else none. Strings that sit under no top-level key get the default.
pub open spec fn field_limit(cfg: PolicyConfig, top_key: Option<Seq<char>>) -> Option<usize> {
    match top_key {
        None => default_limit(cfg),
        Some(k) => match find_limit(cfg.field_limits@, k) {
            Some(l) => Some(l),
            None => match find_limit(cfg.field_limits@, "*"@) {
                Some(l) => Some(l),
                None => default_limit(cfg),
            },
        },
    }
}

/// The path of member `key` of the value at `parent`; `at_root` tells
/// whether that value is the argument object itself.
pub open spec fn member_path(parent: Seq<char>, key: Seq<char>, at_root: bool) -> Seq<char> {
    if at_root {
        key
    } else {
        parent + "."@ + key
    }
}

/// The path of item `i` of the array at `parent`.
pub open spec fn item_path(parent: Seq<char>, i: nat) -> Seq<char> {
    parent + "["@ + decimal(i) + "]"@
}

/// The top-level key of member `key` of a value under the top-level key
/// `top_key`; a member of the argument object itself is its own top-level key.
pub open spec fn member_top_key(key: Seq<char>, top_key: Option<Seq<char>>, at_root: bool) -> Option<
    Seq<char>,
> {
    if at_root {
        Some(key)
    } else {
        top_key
    }
}

/// The first string in `v`, visiting object members and array items in the
/// order in which `v` holds them, that is longer than its limit, as
/// `(path, character count, limit)`.
pub open spec fn first_violation(
    v: JsonValue,
    path: Seq<char>,
    top_key: Option<Seq<char>>,
    at_root: bool,
    cfg: PolicyConfig,
) -> Option<(Seq<char>, nat, usize)>
    decreases v, 0nat,
{
    match v {
        JsonValue::Str(s) => match field_limit(cfg, top_key) {
            Some(l) => if s@.len() > l {
                Some((path, s@.len(), l))
            } else {
                None
            },
            None => None,
        },
        JsonValue::Array(items) => items_violation(items@, 0, path, top_key, cfg),
        JsonValue::Object(entries) => entries_violation(entries@, 0, path, top_key, at_root, cfg),
        _ => None,
    }
}

/// The first violation among `items[i..]` of the array at `path`.
pub open spec fn items_violation(
    items: Seq<JsonValue>,
    i: int,
    path: Seq<char>,
    top_key: Option<Seq<char>>,
    cfg: PolicyConfig,
) -> Option<(Seq<char>, nat, usize)>
    decreases items, items.len() - i,
{
    if 0 <= i < items.len() {
        match first_violation(items[i], item_path(path, i as nat), top_key, false, cfg) {
            Some(x) => Some(x),
            None => items_violation(items, i + 1, path, top_key, cfg),
        }
    } else {
        None
    }
}

/// The first violation among the members `entries[i..]` of the object at `path`.
pub open spec fn entries_violation(
    entries: Seq<(String, JsonValue)>,
    i: int,
    path: Seq<char>,
    top_key: Option<Seq<char>>,
    at_root: bool,
    cfg: PolicyConfig,
) -> Option<(Seq<char>, nat, usize)>
    decreases entries, entries.len() - i,
{
    if 0 <= i < entries.len() {
        let key = entries[i].0@;
        match first_violation(
            entries[i].1,
            member_path(path, key, at_root),
            member_top_key(key, top_key, at_root),
            false,
            cfg,
        ) {
            Some(x) => Some(x),
            None => entries_violation(entries, i + 1, path, top_key, at_root, cfg),
        }
    } else {
        None
    }
}

/// The first per-field violation of an argument object.
pub open spec fn argument_violation(args: JsonValue, cfg: PolicyConfig) -> Option<
    (Seq<char>, nat, usize),
> {
    first_violation(args, root_path(), None, true, cfg)
}

/// Whether the characters of all strings together exceed the total limit.
pub open spec fn total_exceeded(args: JsonValue, cfg: PolicyConfig) -> bool {
    match cfg.max_total_argument_chars {
        Some(m) => char_total(args) > m,
        None => false,
    }
}

/// `n`, capped at `usize::MAX`.
pub open spec fn capped(n: nat) -> nat {
    if n > usize::MAX {
        usize::MAX as nat
    } else {
        n
    }
}

/// The message for a string at `path` of `len` characters over `limit`.
pub open spec fn field_message(path: Seq<char>, len: nat, limit: nat) -> Seq<char> {
    "argument field '"@ + path + "' has "@ + decimal(len)
        + " character(s), which exceeds the limit of "@ + decimal(limit)
}

/// The message for a character total over `limit`.
pub open spec fn total_message(total: nat, limit: nat) -> Seq<char> {
    "total argument characters ("@ + decimal(total) + ") exceed the configured limit of "@
        + decimal(limit)
}

/// The first limit that an argument object violates.
#[derive(Debug)]
pub enum LimitViolation {
    /// The string at `path` has `len` characters, more than `limit`.
    Field { path: String, len: usize, limit: usize },
    /// All strings together have `total` characters, more than `limit`.
    Total { total: usize, limit: usize },
}

impl LimitViolation {
    /// The text of the message that reports this violation.
    pub open spec fn message_text(&self) -> Seq<char> {
        match self {
            LimitViolation::Field { path, len, limit } => field_message(
                path@,
                *len as nat,
                *limit as nat,
            ),
            LimitViolation::Total { total, limit } => total_message(*total as nat, *limit as nat),
        }
    }

    /// The message that reports this violation; it names the path, the
    /// count and the limit, and holds nothing of the string's content.
    pub fn message(&self) -> (r: String)
        ensures
            r@ == self.message_text(),
    {
        match self {
            LimitViolation::Field { path, len, limit } => {
                let mut s = String::from_str("argument field '");
                s.append(path.as_str());
                s.append("' has ");
                s.append(usize_decimal(*len).as_str());
                s.append(" character(s), which exceeds the limit of ");
                s.append(usize_decimal(*limit).as_str());
                s
            },
            LimitViolation::Total { total, limit } => {
                let mut s = String::from_str("total argument characters (");
                s.append(usize_decimal(*total).as_str());
                s.append(") exceed the configured limit of ");
                s.append(usize_decimal(*limit).as_str());
                s
            },
        }
    }
}


/// The limit of the first entry of `limits` named `key`.
fn lookup_limit(limits: &Vec<(String, usize)>, key: &str) -> (r: Option<usize>)
    ensures
        r == find_limit(limits@, key@),
{
    let n = limits.len();
    let mut i: usize = 0;
    assert(limits@.skip(0) =~= limits@);
    while i < n
        invariant
            n == limits@.len(),
            i <= n,
            find_limit(limits@, key@) == find_limit(limits@.skip(i as int), key@),
        decreases n - i,
    {
        assert(limits@.skip(i as int)[0] == limits@[i as int]);
        assert(limits@.skip(i as int).drop_first() =~= limits@.skip(i + 1));
        if str_eq(limits[i].0.as_str(), key) {
            return Some(limits[i].1);
        }
        i = i + 1;
    }
    assert(limits@.skip(n as int).len() == 0);
    None
}

/// Returns the default limit, unless it is absent or zero.
fn default_field_limit(config: &PolicyConfig) -> (r: Option<usize>)
    ensures
        r == default_limit(*config),
{
    match config.default_field_max_chars {
        Some(d) => if d == 0 {
            None
        } else {
            Some(d)
        },
        None => None,
    }
}

/// Determines the per-field character limit for strings under `top_key`.
///
/// Lookup order: an exact entry of `field_limits` for the key, then a
/// wildcard `"*"` entry, then `default_field_max_chars` when it is not zero,
/// then no limit. Strings under no top-level key get the default.
pub fn effective_field_limit(top_key: Option<&str>, config: &PolicyConfig) -> (r: Option<usize>)
    ensures
        r == field_limit(*config, opt_chars(top_key)),
{
    let key = match top_key {
        Some(k) => k,
        None => return default_field_limit(config),
    };
    if let Some(lim) = lookup_limit(&config.field_limits, key) {
        return Some(lim);
    }
    proof {
        reveal_strlit("*");
    }
    if let Some(lim) = lookup_limit(&config.field_limits, "*") {
        return Some(lim);
    }
    default_field_limit(config)
}

/// The path of member `key` of the value at `parent`: the key itself when
/// that value is the argument object (`parent_is_root`), else `parent.key`.
pub fn child_path(parent: &str, key: &str, parent_is_root: bool) -> (r: String)
    ensures
        r@ == member_path(parent@, key@, parent_is_root),
{
    if parent_is_root {
        String::from_str(key)
    } else {
        let mut s = String::from_str(parent);
        s.append(".");
        s.append(key);
        s
    }
}

/// The path of item `i` of the array at `parent`: `parent[i]`.
fn array_item_path(parent: &str, i: usize) -> (r: String)
    ensures
        r@ == item_path(parent@, i as nat),
{
    let mut s = String::from_str(parent);
    s.append("[");
    s.append(usize_decimal(i).as_str());
    s.append("]");
    s
}


/// Sums the character counts of every string in `value`; `None` when the
/// sum does not fit in a `usize`.
fn checked_char_total(value: &JsonValue) -> (r: Option<usize>)
    ensures
        match r {
            Some(t) => t as nat == char_total(*value),
            None => char_total(*value) > usize::MAX,
        },
    decreases value,
{
    match value {
        JsonValue::Str(s) => Some(s.as_str().unicode_len()),
        JsonValue::Array(items) => {
            let n = items.len();
            let mut total: usize = 0;
            let mut i: usize = 0;
            while i < n
                invariant
                    n == items@.len(),
                    i <= n,
                    *value == JsonValue::Array(*items),
                    items_total(items@, 0) == total + items_total(items@, i as int),
                decreases n - i,
            {
                proof {
                    assert(decreases_to!(*value => (*value)->Array_0));
                    assert(decreases_to!(*items => items@));
                    assert(decreases_to!(items@ => items@[i as int]));
                }
                match checked_char_total(&items[i]) {
                    Some(c) => {
                        if total > usize::MAX - c {
                            return None;
                        }
                        total = total + c;
                    },
                    None => {
                        return None;
                    },
                }
                i = i + 1;
            }
            Some(total)
        },
        JsonValue::Object(entries) => {
            let n = entries.len();
            let mut total: usize = 0;
            let mut i: usize = 0;
            while i < n
                invariant
                    n == entries@.len(),
                    i <= n,
                    *value == JsonValue::Object(*entries),
                    entries_total(entries@, 0) == total + entries_total(entries@, i as int),
                decreases n - i,
            {
                proof {
                    assert(decreases_to!(*value => (*value)->Object_0));
                    assert(decreases_to!(*entries => entries@));
                    assert(decreases_to!(entries@ => entries@[i as int]));
                    assert(decreases_to!(entries@[i as int] => entries@[i as int].1));
                }
                match checked_char_total(&entries[i].1) {
                    Some(c) => {
                        if total > usize::MAX - c {
                            return None;
                        }
                        total = total + c;
                    },
                    None => {
                        return None;
                    },
                }
                i = i + 1;
            }
            Some(total)
        },
        _ => Some(0),
    }
}

/// Sums the character counts of every string in `value`, at any depth,
/// capped at `usize::MAX`.
pub fn count_total_chars(value: &JsonValue) -> (r: usize)
    ensures
        r as nat == capped(char_total(*value)),
{
    match checked_char_total(value) {
        Some(t) => t,
        None => usize::MAX,
    }
}

/// Recursively checks `value`, which sits at `path` inside the argument
/// object and under the top-level key `top_key` (`None` at the root);
/// `at_root` tells whether `value` is the argument object itself. Reports
/// the first string, in the order of the members and items, that exceeds
/// its limit.
fn check_value(
    value: &JsonValue,
    path: &str,
    top_key: Option<&str>,
    at_root: bool,
    config: &PolicyConfig,
) -> (r: Result<(), LimitViolation>)
    ensures
        match r {
            Ok(()) => first_violation(*value, path@, opt_chars(top_key), at_root, *config) is None,
            Err(LimitViolation::Field { path: p, len, limit }) => first_violation(
                *value,
                path@,
                opt_chars(top_key),
                at_root,
                *config,
            ) == Some((p@, len as nat, limit)),
            Err(LimitViolation::Total { .. }) => false,
        },
    decreases value,
{
    match value {
        JsonValue::Str(s) => {
            let len = s.as_str().unicode_len();
            if let Some(limit) = effective_field_limit(top_key, config) {
                if len > limit {
                    return Err(LimitViolation::Field { path: String::from_str(path), len, limit });
                }
            }
            Ok(())
        },
        JsonValue::Object(entries) => {
            let n = entries.len();
            let mut i: usize = 0;
            while i < n
                invariant
                    n == entries@.len(),
                    i <= n,
                    *value == JsonValue::Object(*entries),
                    first_violation(*value, path@, opt_chars(top_key), at_root, *config)
                        == entries_violation(
                        entries@,
                        i as int,
                        path@,
                        opt_chars(top_key),
                        at_root,
                        *config,
                    ),
                decreases n - i,
            {
                proof {
                    assert(decreases_to!(*value => (*value)->Object_0));
                    assert(decreases_to!(*entries => entries@));
                    assert(decreases_to!(entries@ => entries@[i as int]));
                    assert(decreases_to!(entries@[i as int] => entries@[i as int].1));
                }
                let key = entries[i].0.as_str();
                let cpath = child_path(path, key, at_root);
                let ctop = if at_root {
                    Some(key)
                } else {
                    top_key
                };
                assert(opt_chars(ctop) == member_top_key(key@, opt_chars(top_key), at_root));
                match check_value(&entries[i].1, cpath.as_str(), ctop, false, config) {
                    Ok(()) => {},
                    Err(e) => {
                        return Err(e);
                    },
                }
                i = i + 1;
            }
            Ok(())
        },
        JsonValue::Array(items) => {
            let n = items.len();
            let mut i: usize = 0;
            while i < n
                invariant
                    n == items@.len(),
                    i <= n,
                    *value == JsonValue::Array(*items),
                    first_violation(*value, path@, opt_chars(top_key), at_root, *config)
                        == items_violation(items@, i as int, path@, opt_chars(top_key), *config),
                decreases n - i,
            {
                proof {
                    assert(decreases_to!(*value => (*value)->Array_0));
                    assert(decreases_to!(*items => items@));
                    assert(decreases_to!(items@ => items@[i as int]));
                }
                let ipath = array_item_path(path, i);
                match check_value(&items[i], ipath.as_str(), top_key, false, config) {
                    Ok(()) => {},
                    Err(e) => {
                        return Err(e);
                    },
                }
                i = i + 1;
            }
            Ok(())
        },
        _ => Ok(()),
    }
}

/// Runs the per-field check and then the total check on `args`, and
/// reports the first violated limit.
pub fn check_arguments(args: &JsonValue, config: &PolicyConfig) -> (r: Result<(), LimitViolation>)
    ensures
        match r {
            Ok(()) => argument_violation(*args, *config) is None && !total_exceeded(*args, *config),
            Err(LimitViolation::Field { path, len, limit }) => argument_violation(*args, *config)
                == Some((path@, len as nat, limit)),
            Err(LimitViolation::Total { total, limit }) => {
                &&& argument_violation(*args, *config) is None
                &&& total_exceeded(*args, *config)
                &&& config.max_total_argument_chars == Some(limit)
                &&& total as nat == capped(char_total(*args))
            },
        },
{
    proof {
        reveal_strlit("<root>");
    }
    match check_value(args, "<root>", None, true, config) {
        Ok(()) => {},
        Err(e) => {
            return Err(e);
        },
    }
    if let Some(max_total) = config.max_total_argument_chars {
        match checked_char_total(args) {
            Some(total) => {
                if total > max_total {
                    return Err(LimitViolation::Total { total, limit: max_total });
                }
            },
            None => {
                return Err(LimitViolation::Total { total: usize::MAX, limit: max_total });
            },
        }
    }
    Ok(())
}

/// The result of the character-limit check: `Ok(())` when every limit is
/// met, else the message of the first violated limit. The message names
/// the field path, the count and the limit, never the string itself.
pub fn check_argument_chars(args: &JsonValue, config: &PolicyConfig) -> (r: Result<(), String>)
    ensures
        match r {
            Ok(()) => argument_violation(*args, *config) is None && !total_exceeded(*args, *config),
            Err(msg) => match argument_violation(*args, *config) {
                Some((path, len, limit)) => msg@ == field_message(path, len, limit as nat),
                None => {
                    &&& total_exceeded(*args, *config)
                    &&& msg@ == total_message(
                        capped(char_total(*args)),
                        config.max_total_argument_chars.unwrap() as nat,
                    )
                },
            },
        },
{
    match check_arguments(args, config) {
        Ok(()) => Ok(()),
        Err(v) => Err(v.message()),
    }
}


/// Whether every string in `v` is within the limit of its top-level key.
pub open spec fn within_limits(
    v: JsonValue,
    path: Seq<char>,
    top_key: Option<Seq<char>>,
    at_root: bool,
    cfg: PolicyConfig,
) -> bool
    decreases v,
{
    match v {
        JsonValue::Str(s) => match field_limit(cfg, top_key) {
            Some(l) => s@.len() <= l,
            None => true,
        },
        JsonValue::Array(items) => forall|i: int|
            0 <= i < items@.len() ==> within_limits(
                #[trigger] items@[i],
                item_path(path, i as nat),
                top_key,
                false,
                cfg,
            ),
        JsonValue::Object(entries) => forall|i: int|
            0 <= i < entries@.len() ==> within_limits(
                (#[trigger] entries@[i]).1,
                member_path(path, entries@[i].0@, at_root),
                member_top_key(entries@[i].0@, top_key, at_root),
                false,
                cfg,
            ),
        _ => true,
    }
}

/// Law: the per-field check finds nothing exactly when every string value,
/// at any depth, is within the limit of the top-level key it sits under;
/// and what it does report is a string whose count is above its limit.
pub proof fn lemma_violation_iff_over_limit(
    v: JsonValue,
    path: Seq<char>,
    top_key: Option<Seq<char>>,
    at_root: bool,
    cfg: PolicyConfig,
)
    ensures
        first_violation(v, path, top_key, at_root, cfg) is None <==> within_limits(
            v,
            path,
            top_key,
            at_root,
            cfg,
        ),
        first_violation(v, path, top_key, at_root, cfg) matches Some((p, l, lim)) ==> l > lim,
    decreases v, 0nat,
{
    match v {
        JsonValue::Array(items) => {
            lemma_items_violation(items@, 0, path, top_key, cfg);
        },
        JsonValue::Object(entries) => {
            lemma_entries_violation(entries@, 0, path, top_key, at_root, cfg);
        },
        _ => {},
    }
}

proof fn lemma_items_violation(
    items: Seq<JsonValue>,
    i: int,
    path: Seq<char>,
    top_key: Option<Seq<char>>,
    cfg: PolicyConfig,
)
    requires
        0 <= i <= items.len(),
    ensures
        items_violation(items, i, path, top_key, cfg) is None <==> forall|j: int|
            i <= j < items.len() ==> within_limits(
                #[trigger] items[j],
                item_path(path, j as nat),
                top_key,
                false,
                cfg,
            ),
        items_violation(items, i, path, top_key, cfg) matches Some((p, l, lim)) ==> l > lim,
    decreases items, items.len() - i,
{
    if i < items.len() {
        lemma_violation_iff_over_limit(items[i], item_path(path, i as nat), top_key, false, cfg);
        lemma_items_violation(items, i + 1, path, top_key, cfg);
    }
}

proof fn lemma_entries_violation(
    entries: Seq<(String, JsonValue)>,
    i: int,
    path: Seq<char>,
    top_key: Option<Seq<char>>,
    at_root: bool,
    cfg: PolicyConfig,
)
    requires
        0 <= i <= entries.len(),
    ensures
        entries_violation(entries, i, path, top_key, at_root, cfg) is None <==> forall|j: int|
            i <= j < entries.len() ==> within_limits(
                (#[trigger] entries[j]).1,
                member_path(path, entries[j].0@, at_root),
                member_top_key(entries[j].0@, top_key, at_root),
                false,
                cfg,
            ),
        entries_violation(entries, i, path, top_key, at_root, cfg) matches Some((p, l, lim)) ==> l
            > lim,
    decreases entries, entries.len() - i,
{
    if i < entries.len() {
        let key = entries[i].0@;
        lemma_violation_iff_over_limit(
            entries[i].1,
            member_path(path, key, at_root),
            member_top_key(key, top_key, at_root),
            false,
            cfg,
        );
        lemma_entries_violation(entries, i + 1, path, top_key, at_root, cfg);
    }
}

/// Whether `a` and `b` differ at most in the contents of strings: same
/// structure, same keys, same scalars, and strings of equal length.
pub open spec fn same_shape(a: JsonValue, b: JsonValue) -> bool
    decreases a,
{
    match (a, b) {
        (JsonValue::Null, JsonValue::Null) => true,
        (JsonValue::Bool(x), JsonValue::Bool(y)) => x == y,
        (JsonValue::Number(x), JsonValue::Number(y)) => x@ == y@,
        (JsonValue::Str(x), JsonValue::Str(y)) => x@.len() == y@.len(),
        (JsonValue::Array(x), JsonValue::Array(y)) => {
            &&& x@.len() == y@.len()
            &&& forall|i: int| 0 <= i < x@.len() ==> same_shape(#[trigger] x@[i], y@[i])
        },
        (JsonValue::Object(x), JsonValue::Object(y)) => {
            &&& x@.len() == y@.len()
            &&& forall|i: int|
                0 <= i < x@.len() ==> (#[trigger] x@[i]).0@ == y@[i].0@ && same_shape(
                    x@[i].1,
                    y@[i].1,
                )
        },
        _ => false,
    }
}

/// Law: the check reads strings only through their character counts.
/// Two argument objects that differ only in the contents of strings of
/// equal length get the same per-field outcome, the same character total,
/// and so the same result and message; no message can carry the content of
/// a string.
pub proof fn lemma_outcome_ignores_string_contents(
    a: JsonValue,
    b: JsonValue,
    path: Seq<char>,
    top_key: Option<Seq<char>>,
    at_root: bool,
    cfg: PolicyConfig,
)
    requires
        same_shape(a, b),
    ensures
        first_violation(a, path, top_key, at_root, cfg) == first_violation(
            b,
            path,
            top_key,
            at_root,
            cfg,
        ),
        char_total(a) == char_total(b),
    decreases a, 0nat,
{
    match (a, b) {
        (JsonValue::Array(x), JsonValue::Array(y)) => {
            lemma_items_ignore_contents(x@, y@, 0, path, top_key, cfg);
        },
        (JsonValue::Object(x), JsonValue::Object(y)) => {
            lemma_entries_ignore_contents(x@, y@, 0, path, top_key, at_root, cfg);
        },
        _ => {},
    }
}

proof fn lemma_items_ignore_contents(
    x: Seq<JsonValue>,
    y: Seq<JsonValue>,
    i: int,
    path: Seq<char>,
    top_key: Option<Seq<char>>,
    cfg: PolicyConfig,
)
    requires
        0 <= i <= x.len(),
        x.len() == y.len(),
        forall|j: int| 0 <= j < x.len() ==> same_shape(#[trigger] x[j], y[j]),
    ensures
        items_violation(x, i, path, top_key, cfg) == items_violation(y, i, path, top_key, cfg),
        items_total(x, i) == items_total(y, i),
    decreases x, x.len() - i,
{
    if i < x.len() {
        lemma_outcome_ignores_string_contents(
            x[i],
            y[i],
            item_path(path, i as nat),
            top_key,
            false,
            cfg,
        );
        lemma_items_ignore_contents(x, y, i + 1, path, top_key, cfg);
    }
}

proof fn lemma_entries_ignore_contents(
    x: Seq<(String, JsonValue)>,
    y: Seq<(String, JsonValue)>,
    i: int,
    path: Seq<char>,
    top_key: Option<Seq<char>>,
    at_root: bool,
    cfg: PolicyConfig,
)
    requires
        0 <= i <= x.len(),
        x.len() == y.len(),
        forall|j: int|
            0 <= j < x.len() ==> (#[trigger] x[j]).0@ == y[j].0@ && same_shape(x[j].1, y[j].1),
    ensures
        entries_violation(x, i, path, top_key, at_root, cfg) == entries_violation(
            y,
            i,
            path,
            top_key,
            at_root,
            cfg,
        ),
        entries_total(x, i) == entries_total(y, i),
    decreases x, x.len() - i,
{
    if i < x.len() {
        let key = x[i].0@;
        lemma_outcome_ignores_string_contents(
            x[i].1,
            y[i].1,
            member_path(path, key, at_root),
            member_top_key(key, top_key, at_root),
            false,
            cfg,
        );
        lemma_entries_ignore_contents(x, y, i + 1, path, top_key, at_root, cfg);
    }
}


proof fn lemma_find_first(limits: Seq<(String, usize)>, key: Seq<char>, i: int)
    requires
        0 <= i < limits.len(),
        limits[i].0@ == key,
        forall|j: int| 0 <= j < i ==> (#[trigger] limits[j]).0@ != key,
    ensures
        find_limit(limits, key) == Some(limits[i].1),
    decreases limits.len(),
{
    if i > 0 {
        assert forall|j: int| 0 <= j < i - 1 implies (#[trigger] limits.drop_first()[j]).0@ != key by {
            assert(limits.drop_first()[j] == limits[j + 1]);
        }
        lemma_find_first(limits.drop_first(), key, i - 1);
    }
}

proof fn lemma_find_none(limits: Seq<(String, usize)>, key: Seq<char>)
    requires
        forall|j: int| 0 <= j < limits.len() ==> (#[trigger] limits[j]).0@ != key,
    ensures
        find_limit(limits, key) is None,
    decreases limits.len(),
{
    if limits.len() > 0 {
        assert forall|j: int| 0 <= j < limits.len() - 1 implies (#[trigger] limits.drop_first()[
            j
        ]).0@ != key by {
            assert(limits.drop_first()[j] == limits[j + 1]);
        }
        lemma_find_none(limits.drop_first(), key);
    }
}

/// Law: an entry of `field_limits` named `key` overrides the default: the
/// limit for strings under the top-level key `key` is exactly the limit of
/// the first such entry, whether it is above or below the default.
pub proof fn lemma_exact_entry_wins(cfg: PolicyConfig, key: Seq<char>, i: int)
    requires
        0 <= i < cfg.field_limits@.len(),
        cfg.field_limits@[i].0@ == key,
        forall|j: int| 0 <= j < i ==> (#[trigger] cfg.field_limits@[j]).0@ != key,
    ensures
        field_limit(cfg, Some(key)) == Some(cfg.field_limits@[i].1),
{
    lemma_find_first(cfg.field_limits@, key, i);
}

/// Law: for a key with no entry of its own, the first `"*"` entry overrides
/// the default: its limit is exactly the limit of that entry.
pub proof fn lemma_wildcard_entry_wins(cfg: PolicyConfig, key: Seq<char>, w: int)
    requires
        forall|j: int| 0 <= j < cfg.field_limits@.len() ==> (#[trigger] cfg.field_limits@[j]).0@
            != key,
        0 <= w < cfg.field_limits@.len(),
        cfg.field_limits@[w].0@ == "*"@,
        forall|j: int| 0 <= j < w ==> (#[trigger] cfg.field_limits@[j]).0@ != "*"@,
    ensures
        field_limit(cfg, Some(key)) == Some(cfg.field_limits@[w].1),
{
    lemma_find_none(cfg.field_limits@, key);
    lemma_find_first(cfg.field_limits@, "*"@, w);
}

/// Law: for a key with neither an entry of its own nor a `"*"` entry, and
/// for strings under no top-level key, the limit is the default when it is
/// set and not zero, and there is no limit otherwise.
pub proof fn lemma_default_applies(cfg: PolicyConfig, key: Seq<char>)
    requires
        forall|j: int|
            0 <= j < cfg.field_limits@.len() ==> (#[trigger] cfg.field_limits@[j]).0@ != key
                && cfg.field_limits@[j].0@ != "*"@,
    ensures
        field_limit(cfg, Some(key)) == field_limit(cfg, None),
        field_limit(cfg, None) == (match cfg.default_field_max_chars {
            Some(d) => if d > 0 {
                Some(d)
            } else {
                None
            },
            None => None,
        }),
{
    lemma_find_none(cfg.field_limits@, key);
    lemma_find_none(cfg.field_limits@, "*"@);
}

} // verus!
