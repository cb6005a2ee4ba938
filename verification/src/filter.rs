//! The decisions that the policy takes on an incoming request, from the
//! request line to the JSON-RPC envelope.
//!
//! The policy passes every request through except in these cases:
//!   * a path outside the MCP endpoint in strict mode: 404;
//!   * a `POST` to the endpoint whose Content-Type is not JSON, whose body is
//!     larger than `max_request_bytes`, that is not JSON at all, or whose
//!     envelope is malformed: a JSON-RPC error;
//!   * a `tools/call` whose arguments are not an object or break a
//!     character limit: `-32602 Invalid params`.
//!
//! No answer holds a string value of the request: `arguments` that are not
//! an object are named by their kind, and limit errors by path and count.

use vstd::prelude::*;

use crate::argcheck::{
    argument_violation, capped, check_argument_chars, field_message,
    lemma_outcome_ignores_string_contents, root_path, same_shape, total_exceeded, total_message,
};
use crate::config::PolicyConfig;
use crate::json::{char_total, JsonValue};
use crate::text::{chars_of, str_eq, usize_decimal, decimal};

verus! {

/// JSON-RPC: the body is not valid JSON.
pub const PARSE_ERROR: i64 = -32700;

/// JSON-RPC: the message is not a valid request.
pub const INVALID_REQUEST: i64 = -32600;

/// JSON-RPC: the parameters of the method are invalid.
pub const INVALID_PARAMS: i64 = -32602;

/// The parts of a JSON-RPC message that the policy reads.
#[derive(Debug)]
pub struct RpcRequest {
    pub jsonrpc: Option<String>,
    pub id: Option<JsonValue>,
    pub method: Option<String>,
    pub params: Option<JsonValue>,
}

impl RpcRequest {
    /// A message without an `id` is a notification.
    pub fn is_notification(&self) -> (r: bool)
        ensures
            r == (self.id is None),
    {
        self.id.is_none()
    }
}

/// What to do with a request once its path and method are known.
#[derive(Debug)]
pub enum Route {
    /// Answer 404: the path is outside the endpoint and strict mode is on.
    NotFound,
    /// Let the request through untouched.
    PassThrough,
    /// Buffer the body and inspect the JSON-RPC message.
    Inspect,
}

/// A JSON-RPC error to answer with, in place of forwarding the request.
/// The message never holds a string value of the request.
#[derive(Debug)]
pub struct RpcReject {
    pub code: i64,
    pub message: String,
}

/// The outcome of the envelope check.
#[derive(Debug)]
pub enum Verdict {
    Continue,
    Reject(RpcReject),
}

/// A rejection as contracts speak of it: its code and the text of its message.
pub type Rejection = (i64, Seq<char>);

/// The rejection that `r` stands for.
pub open spec fn rejection(r: RpcReject) -> Rejection {
    (r.code, r.message@)
}

/// The rejection, if any, that `v` stands for.
pub open spec fn verdict_rejection(v: Verdict) -> Option<Rejection> {
    match v {
        Verdict::Continue => None,
        Verdict::Reject(r) => Some(rejection(r)),
    }
}

/// `p` up to its first `?`.
pub open spec fn before_query(p: Seq<char>) -> Seq<char>
    decreases p.len(),
{
    if p.len() == 0 {
        p
    } else if p[0] == '?' {
        Seq::empty()
    } else {
        seq![p[0]] + before_query(p.drop_first())
    }
}

/// Whether `pre` is a prefix of `s`.
pub open spec fn is_prefix(pre: Seq<char>, s: Seq<char>) -> bool {
    pre.len() <= s.len() && s.take(pre.len() as int) == pre
}

/// Whether `needle` occurs in `s`.
pub open spec fn contains(s: Seq<char>, needle: Seq<char>) -> bool {
    exists|i: int| 0 <= i <= s.len() - needle.len() && #[trigger] s.subrange(i, i + needle.len()) == needle
}

/// `c` in upper case, when it is an ASCII lower-case letter.
pub open spec fn ascii_upper(c: char) -> char {
    if 'a' <= c && c <= 'z' {
        ((c as u32) - 32) as char
    } else {
        c
    }
}

/// Whether the HTTP method `m` is `POST` in any ASCII case.
pub open spec fn is_post(m: Seq<char>) -> bool {
    m.len() == 4 && ascii_upper(m[0]) == 'P' && ascii_upper(m[1]) == 'O' && ascii_upper(m[2]) == 'S'
        && ascii_upper(m[3]) == 'T'
}

/// Where a request for `path` with HTTP `method` goes.
pub open spec fn route_of(policy: PolicyConfig, path: Seq<char>, method: Seq<char>) -> Route {
    if !is_prefix(policy.mcp_endpoint@, before_query(path)) {
        if policy.strict_mode {
            Route::NotFound
        } else {
            Route::PassThrough
        }
    } else if !is_post(method) {
        Route::PassThrough
    } else {
        Route::Inspect
    }
}

/// Returns `p` up to its first `?`.
fn strip_query(p: &Vec<char>) -> (r: Vec<char>)
    ensures
        r@ == before_query(p@),
{
    let n = p.len();
    let mut k: usize = 0;
    assert(p@.skip(0) =~= p@);
    while k < n && p[k] != '?'
        invariant
            n == p@.len(),
            k <= n,
            before_query(p@) == p@.take(k as int) + before_query(p@.skip(k as int)),
        decreases n - k,
    {
        assert(p@.skip(k as int).drop_first() =~= p@.skip(k + 1));
        assert(p@.take(k as int) + seq![p@[k as int]] =~= p@.take(k + 1));
        assert(p@.take(k as int) + (seq![p@[k as int]] + before_query(p@.skip(k + 1))) =~= p@.take(k
            + 1) + before_query(p@.skip(k + 1)));
        k = k + 1;
    }
    let mut r: Vec<char> = Vec::new();
    let mut i: usize = 0;
    while i < k
        invariant
            n == p@.len(),
            k <= n,
            i <= k,
            r@ == p@.take(i as int),
        decreases k - i,
    {
        r.push(p[i]);
        assert(r@ =~= p@.take(i + 1));
        i = i + 1;
    }
    assert(before_query(p@.skip(k as int)) =~= Seq::<char>::empty());
    assert(r@ + Seq::<char>::empty() =~= r@);
    r
}

/// Whether `pre` is a prefix of `s`.
fn starts_with(s: &Vec<char>, pre: &Vec<char>) -> (r: bool)
    ensures
        r == is_prefix(pre@, s@),
{
    if pre.len() > s.len() {
        return false;
    }
    let n = pre.len();
    let mut i: usize = 0;
    while i < n
        invariant
            n == pre@.len(),
            n <= s@.len(),
            i <= n,
            forall|j: int| 0 <= j < i ==> s@[j] == pre@[j],
        decreases n - i,
    {
        if s[i] != pre[i] {
            assert(s@.take(n as int)[i as int] != pre@[i as int]);
            return false;
        }
        i = i + 1;
    }
    assert(s@.take(n as int) =~= pre@);
    true
}

/// Whether `needle` occurs in `s`.
fn contains_chars(s: &Vec<char>, needle: &Vec<char>) -> (r: bool)
    ensures
        r == contains(s@, needle@),
{
    if needle.len() > s.len() {
        return false;
    }
    let m = needle.len();
    if m == 0 {
        assert(s@.subrange(0, 0 + needle@.len() as int) =~= needle@);
        return true;
    }
    let last = s.len() - m;
    let mut i: usize = 0;
    while i <= last
        invariant
            m == needle@.len(),
            m >= 1,
            last + m == s@.len(),
            s@.len() <= usize::MAX,
            i <= last + 1,
            forall|k: int| 0 <= k < i ==> #[trigger] s@.subrange(k, k + m) != needle@,
        decreases last + 1 - i,
    {
        let mut j: usize = 0;
        let mut same = true;
        while j < m
            invariant
                m == needle@.len(),
                last + m == s@.len(),
                s@.len() <= usize::MAX,
                i <= last,
                j <= m,
                same == (forall|t: int| 0 <= t < j ==> s@[i + t] == needle@[t]),
            decreases m - j,
        {
            if s[i + j] != needle[j] {
                same = false;
            }
            j = j + 1;
        }
        if same {
            assert(s@.subrange(i as int, i + m) =~= needle@);
            return true;
        }
        assert(s@.subrange(i as int, i + m) != needle@) by {
            let t = choose|t: int| 0 <= t < m && s@[i + t] != needle@[t];
            assert(s@.subrange(i as int, i + m)[t] == s@[i + t]);
        }
        i = i + 1;
    }
    false
}

/// Whether `m` is `POST` in any ASCII case.
fn method_is_post(m: &str) -> (r: bool)
    ensures
        r == is_post(m@),
{
    let v = chars_of(m);
    if v.len() != 4 {
        return false;
    }
    assert(ascii_upper('p') == 'P' && ascii_upper('o') == 'O' && ascii_upper('s') == 'S'
        && ascii_upper('t') == 'T');
    (v[0] == 'P' || v[0] == 'p') && (v[1] == 'O' || v[1] == 'o') && (v[2] == 'S' || v[2] == 's') && (
    v[3] == 'T' || v[3] == 't')
}

/// Decides where a request goes from its path and HTTP method: outside the
/// endpoint it is answered 404 in strict mode and passed through otherwise;
/// at the endpoint, only a `POST` is inspected.
pub fn route_request(policy: &PolicyConfig, path: &str, method: &str) -> (r: Route)
    ensures
        r == route_of(*policy, path@, method@),
{
    let p = chars_of(path);
    let bare = strip_query(&p);
    let endpoint = chars_of(policy.mcp_endpoint.as_str());
    if !starts_with(&bare, &endpoint) {
        if policy.strict_mode {
            return Route::NotFound;
        }
        return Route::PassThrough;
    }
    if !method_is_post(method) {
        return Route::PassThrough;
    }
    Route::Inspect
}


/// The rejection, if any, that `o` stands for.
pub open spec fn opt_rejection(o: Option<RpcReject>) -> Option<Rejection> {
    match o {
        Some(r) => Some(rejection(r)),
        None => None,
    }
}

/// The rejection of a `POST` to the endpoint from its Content-Type and the
/// size of its body: the Content-Type must name JSON, and the body must not
/// be larger than `max_request_bytes`.
pub open spec fn transport_rejection(policy: PolicyConfig, content_type: Seq<char>, body_len: nat) -> Option<
    Rejection,
> {
    if !contains(content_type, "application/json"@) {
        Some((INVALID_REQUEST, "Content-Type must be application/json"@))
    } else if body_len > policy.max_request_bytes {
        Some(
            (
                INVALID_REQUEST,
                "request body of "@ + decimal(body_len) + " bytes exceeds limit of "@ + decimal(
                    policy.max_request_bytes as nat,
                ) + " bytes"@,
            ),
        )
    } else {
        None
    }
}

/// Checks the Content-Type and the body size of a `POST` to the endpoint,
/// before the body is parsed.
pub fn check_transport(policy: &PolicyConfig, content_type: &str, body_len: usize) -> (r: Option<
    RpcReject,
>)
    ensures
        opt_rejection(r) == transport_rejection(*policy, content_type@, body_len as nat),
{
    let ct = chars_of(content_type);
    let json = chars_of("application/json");
    if !contains_chars(&ct, &json) {
        return Some(
            RpcReject {
                code: INVALID_REQUEST,
                message: String::from_str("Content-Type must be application/json"),
            },
        );
    }
    if body_len > policy.max_request_bytes {
        let mut m = String::from_str("request body of ");
        m.append(usize_decimal(body_len).as_str());
        m.append(" bytes exceeds limit of ");
        m.append(usize_decimal(policy.max_request_bytes).as_str());
        m.append(" bytes");
        return Some(RpcReject { code: INVALID_REQUEST, message: m });
    }
    None
}

/// The rejection of a body that is not a JSON-RPC message at all, with
/// the parser's description of the fault.
pub fn parse_error_reject(detail: &str) -> (r: RpcReject)
    ensures
        rejection(r) == (PARSE_ERROR, "Parse error: "@ + detail@),
{
    let m = String::from_str("Parse error: ").concat(detail);
    RpcReject { code: PARSE_ERROR, message: m }
}

/// The value of the first member of `entries` named `key`.
pub open spec fn member_value(entries: Seq<(String, JsonValue)>, key: Seq<char>) -> Option<JsonValue>
    decreases entries.len(),
{
    if entries.len() == 0 {
        None
    } else if entries[0].0@ == key {
        Some(entries[0].1)
    } else {
        member_value(entries.drop_first(), key)
    }
}

/// The `arguments` member of the parameters of a request, when they are an
/// object that has one (the first, should the name repeat).
pub open spec fn arguments_of(params: Option<JsonValue>) -> Option<JsonValue> {
    match params {
        Some(JsonValue::Object(entries)) => member_value(entries@, "arguments"@),
        _ => None,
    }
}

/// The kind of a JSON value, as a rejection names it: its type, never its
/// content.
pub open spec fn json_kind(v: JsonValue) -> Seq<char> {
    match v {
        JsonValue::Null => "null"@,
        JsonValue::Bool(_) => "a boolean"@,
        JsonValue::Number(_) => "a number"@,
        JsonValue::Str(_) => "a string"@,
        JsonValue::Array(_) => "an array"@,
        JsonValue::Object(_) => "an object"@,
    }
}

/// Names the kind of `v`.
fn json_kind_name(v: &JsonValue) -> (r: &'static str)
    ensures
        r@ == json_kind(*v),
{
    match v {
        JsonValue::Null => "null",
        JsonValue::Bool(_) => "a boolean",
        JsonValue::Number(_) => "a number",
        JsonValue::Str(_) => "a string",
        JsonValue::Array(_) => "an array",
        JsonValue::Object(_) => "an object",
    }
}

/// The message of the first limit that `args` violates.
pub open spec fn limit_message(args: JsonValue, cfg: PolicyConfig) -> Seq<char> {
    match argument_violation(args, cfg) {
        Some((path, len, limit)) => field_message(path, len, limit as nat),
        None => total_message(
            capped(char_total(args)),
            cfg.max_total_argument_chars.unwrap() as nat,
        ),
    }
}

/// The rejection of a `tools/call` from its parameters: its `arguments`,
/// when present, must be an object within every character limit.
pub open spec fn arguments_rejection(params: Option<JsonValue>, cfg: PolicyConfig) -> Option<
    Rejection,
> {
    match arguments_of(params) {
        Some(JsonValue::Object(entries)) => {
            let args = JsonValue::Object(entries);
            if argument_violation(args, cfg) is Some || total_exceeded(args, cfg) {
                Some(
                    (
                        INVALID_PARAMS,
                        "argument character limit exceeded \u{2014} "@ + limit_message(args, cfg),
                    ),
                )
            } else {
                None
            }
        },
        Some(other) => Some(
            (INVALID_PARAMS, "'arguments' must be a JSON object, got "@ + json_kind(other)),
        ),
        None => None,
    }
}

/// The value of an optional reference.
pub open spec fn opt_value(o: Option<&JsonValue>) -> Option<JsonValue> {
    match o {
        Some(v) => Some(*v),
        None => None,
    }
}

/// Returns the value of the first member of `entries` named `key`.
fn find_member<'a>(entries: &'a Vec<(String, JsonValue)>, key: &str) -> (r: Option<&'a JsonValue>)
    ensures
        opt_value(r) == member_value(entries@, key@),
{
    let n = entries.len();
    let mut i: usize = 0;
    assert(entries@.skip(0) =~= entries@);
    while i < n
        invariant
            n == entries@.len(),
            i <= n,
            member_value(entries@, key@) == member_value(entries@.skip(i as int), key@),
        decreases n - i,
    {
        assert(entries@.skip(i as int)[0] == entries@[i as int]);
        assert(entries@.skip(i as int).drop_first() =~= entries@.skip(i + 1));
        if str_eq(entries[i].0.as_str(), key) {
            return Some(&entries[i].1);
        }
        i = i + 1;
    }
    assert(entries@.skip(n as int).len() == 0);
    None
}

/// Validates the arguments of a `tools/call` against the configured
/// character limits. The arguments are checked when they are an object,
/// an absent `arguments` counts as an empty object, and anything else is
/// rejected.
pub fn check_tools_call_args(params: Option<&JsonValue>, policy: &PolicyConfig) -> (r: Result<
    (),
    RpcReject,
>)
    ensures
        match r {
            Ok(()) => arguments_rejection(opt_value(params), *policy) is None,
            Err(rej) => arguments_rejection(opt_value(params), *policy) == Some(rejection(rej)),
        },
{
    proof {
        reveal_strlit("arguments");
    }
    let args = match params {
        Some(JsonValue::Object(entries)) => find_member(entries, "arguments"),
        _ => None,
    };
    let outcome = match args {
        Some(a) => match a {
            JsonValue::Object(_) => check_argument_chars(a, policy),
            _ => {
                let m = String::from_str("'arguments' must be a JSON object, got ").concat(
                    json_kind_name(a),
                );
                return Err(RpcReject { code: INVALID_PARAMS, message: m });
            },
        },
        None => {
            let empty = JsonValue::Object(Vec::new());
            assert(total_exceeded(empty, *policy) == false) by {
                assert(char_total(empty) == 0);
            }
            check_argument_chars(&empty, policy)
        },
    };
    match outcome {
        Ok(()) => Ok(()),
        Err(msg) => {
            let m = String::from_str("argument character limit exceeded \u{2014} ").concat(msg.as_str());
            Err(RpcReject { code: INVALID_PARAMS, message: m })
        },
    }
}

/// The rejection of a parsed JSON-RPC message: the version must be `2.0`
/// and a method must be named. Notifications pass without further checks,
/// and only `tools/call` has its arguments checked.
pub open spec fn rpc_rejection(policy: PolicyConfig, rpc: RpcRequest) -> Option<Rejection> {
    if !(rpc.jsonrpc matches Some(v) && v@ == "2.0"@) {
        Some((INVALID_REQUEST, "jsonrpc must be \"2.0\""@))
    } else if rpc.method is None {
        Some((INVALID_REQUEST, "missing method"@))
    } else if rpc.id is None {
        None
    } else if rpc.method.unwrap()@ == "tools/call"@ {
        arguments_rejection(rpc.params, policy)
    } else {
        None
    }
}

/// Decides on a parsed JSON-RPC message: reject it with a JSON-RPC error,
/// or let it continue downstream unchanged.
pub fn check_rpc(policy: &PolicyConfig, rpc: &RpcRequest) -> (r: Verdict)
    ensures
        verdict_rejection(r) == rpc_rejection(*policy, *rpc),
{
    let version_ok = match &rpc.jsonrpc {
        Some(v) => str_eq(v.as_str(), "2.0"),
        None => false,
    };
    if !version_ok {
        return Verdict::Reject(
            RpcReject {
                code: INVALID_REQUEST,
                message: String::from_str("jsonrpc must be \"2.0\""),
            },
        );
    }
    let method = match &rpc.method {
        Some(m) => m,
        None => {
            return Verdict::Reject(
                RpcReject {
                    code: INVALID_REQUEST,
                    message: String::from_str("missing method"),
                },
            );
        },
    };
    if rpc.is_notification() {
        return Verdict::Continue;
    }
    if str_eq(method.as_str(), "tools/call") {
        let params = match &rpc.params {
            Some(p) => Some(p),
            None => None,
        };
        match check_tools_call_args(params, policy) {
            Ok(()) => {},
            Err(rej) => {
                return Verdict::Reject(rej);
            },
        }
    }
    Verdict::Continue
}


/// Whether `rpc` is a well-formed JSON-RPC 2.0 message that names a method.
pub open spec fn well_formed(rpc: RpcRequest) -> bool {
    &&& rpc.jsonrpc matches Some(v) && v@ == "2.0"@
    &&& rpc.method is Some
}

/// Law: a well-formed `tools/call` request whose `arguments` is an object
/// is rejected with `-32602 Invalid params` exactly when the argument check
/// fails on that object, with the check's message after the fixed prefix;
/// otherwise it continues downstream.
pub proof fn lemma_tools_call_rejected_iff_limits_broken(policy: PolicyConfig, rpc: RpcRequest, args: JsonValue)
    requires
        well_formed(rpc),
        rpc.id is Some,
        rpc.method.unwrap()@ == "tools/call"@,
        arguments_of(rpc.params) == Some(args),
        args is Object,
    ensures
        rpc_rejection(policy, rpc) is Some <==> (argument_violation(args, policy) is Some
            || total_exceeded(args, policy)),
        rpc_rejection(policy, rpc) is Some ==> rpc_rejection(policy, rpc) == Some(
            (
                INVALID_PARAMS,
                "argument character limit exceeded \u{2014} "@ + limit_message(args, policy),
            ),
        ),
{
}

/// Law: a well-formed message that is a notification, or that calls any
/// method other than `tools/call`, always continues downstream, whatever
/// its parameters.
pub proof fn lemma_other_messages_pass(policy: PolicyConfig, rpc: RpcRequest)
    requires
        well_formed(rpc),
        rpc.id is None || rpc.method.unwrap()@ != "tools/call"@,
    ensures
        rpc_rejection(policy, rpc) is None,
{
}

/// Law: a `tools/call` without an `arguments` member is never rejected,
/// whatever the configured limits.
pub proof fn lemma_missing_arguments_pass(policy: PolicyConfig, rpc: RpcRequest)
    requires
        well_formed(rpc),
        arguments_of(rpc.params) is None,
    ensures
        rpc_rejection(policy, rpc) is None,
{
}


proof fn lemma_member_same_shape(x: Seq<(String, JsonValue)>, y: Seq<(String, JsonValue)>, key: Seq<char>)
    requires
        x.len() == y.len(),
        forall|j: int|
            0 <= j < x.len() ==> (#[trigger] x[j]).0@ == y[j].0@ && same_shape(x[j].1, y[j].1),
    ensures
        member_value(x, key) is None <==> member_value(y, key) is None,
        member_value(x, key) is Some ==> same_shape(
            member_value(x, key).unwrap(),
            member_value(y, key).unwrap(),
        ),
    decreases x.len(),
{
    if x.len() > 0 && x[0].0@ != key {
        assert forall|j: int| 0 <= j < x.drop_first().len() implies (#[trigger] x.drop_first()[j]).0@
            == y.drop_first()[j].0@ && same_shape(x.drop_first()[j].1, y.drop_first()[j].1) by {
            assert(x.drop_first()[j] == x[j + 1]);
        }
        lemma_member_same_shape(x.drop_first(), y.drop_first(), key);
    }
}

/// Law: the answer to a `tools/call` reads strings only through their
/// character counts. Parameters that differ only in the contents of strings
/// of equal length get the same answer, so no answer carries the content of
/// a string, neither for limits that are broken nor for `arguments` that
/// are not an object.
pub proof fn lemma_rejection_ignores_string_contents(a: JsonValue, b: JsonValue, cfg: PolicyConfig)
    requires
        same_shape(a, b),
    ensures
        arguments_rejection(Some(a), cfg) == arguments_rejection(Some(b), cfg),
{
    reveal_strlit("arguments");
    match (a, b) {
        (JsonValue::Object(x), JsonValue::Object(y)) => {
            lemma_member_same_shape(x@, y@, "arguments"@);
            match (arguments_of(Some(a)), arguments_of(Some(b))) {
                (Some(u), Some(w)) => {
                    lemma_outcome_ignores_string_contents(u, w, root_path(), None, true, cfg);
                },
                _ => {},
            }
        },
        _ => {},
    }
}


/// Law: `before_query(p)` is the part of `p` before its first `?`: a prefix
/// of `p` without a `?`, followed in `p` by a `?` or by nothing.
pub proof fn lemma_before_query(p: Seq<char>)
    ensures
        before_query(p).len() <= p.len(),
        p.subrange(0, before_query(p).len() as int) == before_query(p),
        forall|i: int| 0 <= i < before_query(p).len() ==> #[trigger] before_query(p)[i] != '?',
        before_query(p).len() == p.len() || p[before_query(p).len() as int] == '?',
    decreases p.len(),
{
    if p.len() > 0 && p[0] != '?' {
        let rest = p.drop_first();
        lemma_before_query(rest);
        let b = before_query(p);
        assert(b == seq![p[0]] + before_query(rest));
        assert(p.subrange(0, b.len() as int) =~= seq![p[0]] + rest.subrange(
            0,
            before_query(rest).len() as int,
        ));
        assert forall|i: int| 0 <= i < b.len() implies #[trigger] b[i] != '?' by {
            if i > 0 {
                assert(b[i] == before_query(rest)[i - 1]);
            }
        }
        if b.len() < p.len() {
            assert(p[b.len() as int] == rest[before_query(rest).len() as int]);
        }
    } else if p.len() > 0 {
        assert(p.subrange(0, 0) =~= before_query(p));
    } else {
        assert(p.subrange(0, 0) =~= p);
    }
}

/// Law: a method is `POST` exactly when it has four characters, each the
/// upper- or lower-case letter of `POST` at that place.
pub proof fn lemma_is_post(m: Seq<char>)
    ensures
        is_post(m) <==> (m.len() == 4 && forall|i: int|
            0 <= i < 4 ==> (#[trigger] m[i] == "POST"@[i] || m[i] == "post"@[i])),
{
    reveal_strlit("POST");
    reveal_strlit("post");
    if m.len() == 4 {
        assert forall|c: char| #[trigger] ascii_upper(c) == 'P' <==> (c == 'P' || c == 'p') by {
        }
        assert forall|c: char| #[trigger] ascii_upper(c) == 'O' <==> (c == 'O' || c == 'o') by {
        }
        assert forall|c: char| #[trigger] ascii_upper(c) == 'S' <==> (c == 'S' || c == 's') by {
        }
        assert forall|c: char| #[trigger] ascii_upper(c) == 'T' <==> (c == 'T' || c == 't') by {
        }
        if (forall|i: int| 0 <= i < 4 ==> (#[trigger] m[i] == "POST"@[i] || m[i] == "post"@[i])) {
            assert(m[0] == "POST"@[0] || m[0] == "post"@[0]);
            assert(m[1] == "POST"@[1] || m[1] == "post"@[1]);
            assert(m[2] == "POST"@[2] || m[2] == "post"@[2]);
            assert(m[3] == "POST"@[3] || m[3] == "post"@[3]);
        }
    }
}

/// Law: in strict mode a request whose path, up to its first `?`, lies
/// outside the endpoint is answered 404 whatever its method, and with strict
/// mode off it passes through; a request at the endpoint is inspected
/// exactly when its method is `POST`, and passes through otherwise.
pub proof fn lemma_route(policy: PolicyConfig, path: Seq<char>, method: Seq<char>)
    ensures
        ({
            let bare = before_query(path);
            let ep = policy.mcp_endpoint@;
            let at_endpoint = ep.len() <= bare.len() && bare.subrange(0, ep.len() as int) == ep;
            &&& !at_endpoint && policy.strict_mode ==> route_of(policy, path, method) is NotFound
            &&& !at_endpoint && !policy.strict_mode ==> route_of(policy, path, method) is PassThrough
            &&& at_endpoint ==> (route_of(policy, path, method) is Inspect <==> is_post(method))
            &&& at_endpoint ==> (route_of(policy, path, method) is PassThrough <==> !is_post(method))
        }),
{
}

/// Law: every Content-Type that does not hold `application/json`, the empty
/// one of a missing header included, is refused with `INVALID_REQUEST`
/// whatever the body; with a JSON Content-Type the request is refused exactly
/// when its body is larger than `max_request_bytes`; and every refusal here
/// is an `INVALID_REQUEST`.
pub proof fn lemma_transport(policy: PolicyConfig, content_type: Seq<char>, body_len: nat)
    ensures
        (forall|i: int|
            0 <= i && i + 16 <= content_type.len() ==> #[trigger] content_type.subrange(i, i + 16)
                != "application/json"@) ==> (transport_rejection(policy, content_type, body_len)
            matches Some((code, _)) && code == INVALID_REQUEST),
        content_type.len() == 0 ==> transport_rejection(policy, content_type, body_len) is Some,
        (exists|i: int|
            0 <= i && i + 16 <= content_type.len() && #[trigger] content_type.subrange(i, i + 16)
                == "application/json"@) ==> (transport_rejection(policy, content_type, body_len) is Some
            <==> body_len > policy.max_request_bytes),
        transport_rejection(policy, content_type, body_len) matches Some((code, _)) ==> code
            == INVALID_REQUEST,
{
    reveal_strlit("application/json");
    assert("application/json"@.len() == 16);
}


/// Law: a message whose `jsonrpc` is not exactly `2.0`, absent included, is
/// refused with `INVALID_REQUEST` whatever else it holds; so is a message
/// with the right version and no method; and only these two faults are
/// refused with `INVALID_REQUEST` here.
pub proof fn lemma_envelope_faults(policy: PolicyConfig, rpc: RpcRequest)
    ensures
        !(rpc.jsonrpc is Some && rpc.jsonrpc.unwrap()@ == "2.0"@) ==> (rpc_rejection(policy, rpc)
            matches Some((code, _)) && code == INVALID_REQUEST),
        (rpc.jsonrpc is Some && rpc.jsonrpc.unwrap()@ == "2.0"@ && rpc.method is None) ==> (
        rpc_rejection(policy, rpc) matches Some((code, _)) && code == INVALID_REQUEST),
        well_formed(rpc) ==> (rpc_rejection(policy, rpc) matches Some((code, _)) ==> code
            == INVALID_PARAMS),
{
}

} // verus!
