//! The decisions of the checks once their I/O is done: expected values,
//! substrings and patterns, HTTP status and body rules, file and JSON
//! value extraction, Oracle connect strings and TLS targets.

use vstd::prelude::*;
use regex::Regex;
use url::Url;
use crate::jsonpath::{JsonDoc, json_document, lookup, lookup_spec, parse_json, value_text, value_to_string};
use crate::state::opt_view;
use crate::text::{append_str, decimal, u64_text};

verus! {

#[verifier::external_type_specification]
#[verifier::external_body]
pub struct ExRegex(regex::Regex);

#[verifier::external_type_specification]
#[verifier::external_body]
pub struct ExRegexError(regex::Error);

/// A compiled regular expression together with its pattern.
pub struct CompiledRegex {
    pattern: String,
    inner: Regex,
}

impl CompiledRegex {
    /// The pattern this expression was compiled from.
    pub closed spec fn pattern(&self) -> Seq<char> {
        self.pattern@
    }
}

/// Whether `regex` accepts `pattern` (with its default size limits).
pub uninterp spec fn regex_compiles(pattern: Seq<char>) -> bool;

/// Whether the regular expression `pattern` matches somewhere in `text`.
pub uninterp spec fn regex_matches(pattern: Seq<char>, text: Seq<char>) -> bool;

/// `Regex::new`: compiles `pattern`.
#[verifier::external_body]
fn regex_new(pattern: &str) -> (r: Result<CompiledRegex, regex::Error>)
    ensures
        r is Ok <==> regex_compiles(pattern@),
        r matches Ok(c) ==> c.pattern() == pattern@,
{
    match Regex::new(pattern) {
        Ok(inner) => Ok(CompiledRegex { pattern: pattern.to_string(), inner }),
        Err(e) => Err(e),
    }
}

/// `Regex::is_match`: whether the expression matches somewhere in `text`.
#[verifier::external_body]
fn regex_is_match(re: &CompiledRegex, text: &str) -> (b: bool)
    ensures
        b == regex_matches(re.pattern(), text@),
{
    re.inner.is_match(text)
}

/// `needle` occurs in `hay`.
pub open spec fn contains_seq(hay: Seq<char>, needle: Seq<char>) -> bool {
    exists|i: int| 0 <= i && i + needle.len() <= hay.len() && #[trigger] hay.subrange(i, i + needle.len()) == needle
}

/// `str::contains` with a string pattern.
pub fn str_contains(hay: &str, needle: &str) -> (b: bool)
    ensures
        b == contains_seq(hay@, needle@),
{
    let h = crate::text::chars_of(hay);
    let nd = crate::text::chars_of(needle);
    let n = h.len();
    let m = nd.len();
    if m > n {
        proof {
            if contains_seq(hay@, needle@) {
                let i = choose|i: int| 0 <= i && i + needle@.len() <= hay@.len() && #[trigger] hay@.subrange(i, i + needle@.len()) == needle@;
            }
        }
        return false;
    }
    let mut i: usize = 0;
    while i <= n - m
        invariant
            n == hay@.len(),
            m == needle@.len(),
            h@ == hay@,
            nd@ == needle@,
            m <= n,
            i <= n - m + 1,
            forall|k: int| 0 <= k < i ==> #[trigger] hay@.subrange(k, k + m) != needle@,
        decreases n - m + 1 - i,
    {
        let mut j: usize = 0;
        while j < m && h[i + j] == nd[j]
            invariant
                i + m <= n,
                n == h@.len(),
                m == nd@.len(),
                j <= m,
                forall|q: int| 0 <= q < j ==> h@[i + q] == nd@[q],
            decreases m - j,
        {
            j = j + 1;
        }
        if j == m {
            proof { assert(hay@.subrange(i as int, i + m) =~= needle@); }
            return true;
        }
        proof {
            assert(hay@.subrange(i as int, i + m)[j as int] == h@[i + j]);
        }
        i = i + 1;
    }
    proof {
        if contains_seq(hay@, needle@) {
            let k = choose|k: int| 0 <= k && k + needle@.len() <= hay@.len() && #[trigger] hay@.subrange(k, k + needle@.len()) == needle@;
            assert(hay@.subrange(k, k + m) != needle@);
        }
    }
    false
}

/// Why a value failed its expectations.
pub enum ExpectationError {
    /// The value differs from the expected one.
    Mismatch { got: String, expected: String },
    /// The value lacks the expected substring.
    MissingSubstring { got: String, needle: String },
    /// The expected pattern does not compile.
    InvalidRegex { pattern: String },
    /// The value does not match the expected pattern.
    NoMatch { got: String, pattern: String },
}

/// The verdict on `got` against an exact value, a substring and a pattern,
/// tried in that order; the first that fails decides.
pub open spec fn expectation_spec(got: Seq<char>, value: Option<Seq<char>>, contains: Option<Seq<char>>, pattern: Option<Seq<char>>) -> Option<int> {
    if value matches Some(v) && got != v {
        Some(0)
    } else if contains matches Some(c) && !contains_seq(got, c) {
        Some(1)
    } else if pattern matches Some(p) && !regex_compiles(p) {
        Some(2)
    } else if pattern matches Some(p) && !regex_matches(p, got) {
        Some(3)
    } else {
        None
    }
}

/// Which rule an error stands for (the order of `expectation_spec`).
pub open spec fn error_rule(e: ExpectationError) -> int {
    match e {
        ExpectationError::Mismatch { .. } => 0,
        ExpectationError::MissingSubstring { .. } => 1,
        ExpectationError::InvalidRegex { .. } => 2,
        ExpectationError::NoMatch { .. } => 3,
    }
}

/// The details an error carries: the value, and the expectation it failed.
pub open spec fn error_details(e: ExpectationError, got: Seq<char>, value: Option<Seq<char>>, contains: Option<Seq<char>>, pattern: Option<Seq<char>>) -> bool {
    match e {
        ExpectationError::Mismatch { got: g, expected } => g@ == got && value == Some(expected@),
        ExpectationError::MissingSubstring { got: g, needle } => g@ == got && contains == Some(needle@),
        ExpectationError::InvalidRegex { pattern: p } => pattern == Some(p@),
        ExpectationError::NoMatch { got: g, pattern: p } => g@ == got && pattern == Some(p@),
    }
}

/// Checks `got` against the optional exact value, substring and pattern.
pub fn check_expectations(got: &str, value: Option<&str>, contains: Option<&str>, pattern: Option<&str>) -> (r: Result<(), ExpectationError>)
    ensures
        match r {
            Ok(()) => expectation_spec(got@, crate::healthz::opt_str(value), crate::healthz::opt_str(contains), crate::healthz::opt_str(pattern)) is None,
            Err(e) => expectation_spec(got@, crate::healthz::opt_str(value), crate::healthz::opt_str(contains), crate::healthz::opt_str(pattern)) == Some(error_rule(e))
                && error_details(e, got@, crate::healthz::opt_str(value), crate::healthz::opt_str(contains), crate::healthz::opt_str(pattern)),
        },
{
    if let Some(v) = value {
        if !crate::strmap::str_eq(got, v) {
            return Err(ExpectationError::Mismatch { got: got.to_string(), expected: v.to_string() });
        }
    }
    if let Some(c) = contains {
        if !str_contains(got, c) {
            return Err(ExpectationError::MissingSubstring { got: got.to_string(), needle: c.to_string() });
        }
    }
    if let Some(p) = pattern {
        let outcome = match regex_new(p) {
            Ok(re) => Some(regex_is_match(&re, got)),
            Err(_) => None,
        };
        return pattern_verdict(got, p, outcome);
    }
    Ok(())
}

/// The verdict of pattern `pattern` on `got`, given what the regular
/// expression engine answered: `None` when the pattern does not compile,
/// else whether it matches.
pub fn pattern_verdict(got: &str, pattern: &str, outcome: Option<bool>) -> (r: Result<(), ExpectationError>)
    ensures
        match outcome {
            None => r matches Err(ExpectationError::InvalidRegex { pattern: p }) && p@ == pattern@,
            Some(true) => r is Ok,
            Some(false) => r matches Err(ExpectationError::NoMatch { got: g, pattern: p }) && g@ == got@ && p@ == pattern@,
        },
{
    match outcome {
        None => Err(ExpectationError::InvalidRegex { pattern: pattern.to_string() }),
        Some(true) => Ok(()),
        Some(false) => Err(ExpectationError::NoMatch { got: got.to_string(), pattern: pattern.to_string() }),
    }
}


/// Whether an optional string is exactly `lit`.
fn opt_is(o: Option<&str>, lit: &str) -> (b: bool)
    ensures
        b == (o matches Some(s) && s@ == lit@),
{
    match o {
        Some(s) => crate::strmap::str_eq(s, lit),
        None => false,
    }
}

/// A file check reads the content when it extracts or compares anything,
/// or must validate JSON.
pub fn file_needs_content(
    format: Option<&str>,
    json_path: Option<&str>,
    expected_value: Option<&str>,
    expected_contains: Option<&str>,
    expected_regex: Option<&str>,
) -> (b: bool)
    ensures
        b == (json_path is Some || expected_value is Some || expected_contains is Some || expected_regex is Some
            || (format matches Some(f) && f@ == "json"@)),
{
    json_path.is_some() || expected_value.is_some() || expected_contains.is_some() || expected_regex.is_some()
        || opt_is(format, "json")
}

/// A file check reads its content as JSON when the format is `json` or a
/// JSON path is given.
pub fn file_json_mode(format: Option<&str>, json_path: Option<&str>) -> (b: bool)
    ensures
        b == ((format matches Some(f) && f@ == "json"@) || json_path is Some),
{
    opt_is(format, "json") || json_path.is_some()
}

/// The value a JSON path selects, as text; none if it selects nothing.
pub open spec fn json_path_text(doc: JsonDoc, path: Seq<char>) -> Option<Seq<char>> {
    match lookup_spec(doc, path) {
        Some(i) => Some(value_text(doc, i)),
        None => None,
    }
}

/// The text of the value at `path`, if the path selects one.
pub fn json_path_value(doc: &JsonDoc, path: &str) -> (r: Option<String>)
    requires
        doc.wf(),
    ensures
        opt_view(r) == json_path_text(*doc, path@),
{
    match lookup(doc, path) {
        Some(i) => {
            proof { crate::jsonpath::lemma_lookup_valid(*doc, path@); }
            Some(value_to_string(doc, i))
        },
        None => None,
    }
}

/// What a file check compares: the text itself, or for JSON the value at
/// the path (none if the path selects nothing) or the whole document's
/// compact text.
pub open spec fn file_value_spec(doc: Option<JsonDoc>, text: Seq<char>, json_path: Option<Seq<char>>) -> Option<Seq<char>> {
    match doc {
        None => Some(text),
        Some(d) => match json_path {
            Some(p) => json_path_text(d, p),
            None => Some(d.nodes@[d.root as int].text@),
        },
    }
}

/// The value a file check compares (see `file_value_spec`).
pub fn file_value(doc: Option<&JsonDoc>, text: &str, json_path: Option<&str>) -> (r: Option<String>)
    requires
        doc matches Some(d) ==> d.wf(),
    ensures
        opt_view(r) == file_value_spec(match doc { Some(d) => Some(*d), None => None }, text@, crate::healthz::opt_str(json_path)),
{
    match doc {
        None => Some(text.to_string()),
        Some(d) => match json_path {
            Some(p) => json_path_value(d, p),
            None => Some(d.nodes[d.root].text.clone()),
        },
    }
}

/// Why a file check failed once its content was read.
pub enum FileCheckError {
    /// JSON mode, and the content is not JSON.
    InvalidJson,
    /// The JSON path selects nothing.
    JsonPathNotFound,
    /// The value failed an expectation.
    Expectation(ExpectationError),
}

/// The verdict on a file's value: not found, or the expectations in order.
pub open spec fn file_verdict_ok(got: Option<Seq<char>>, value: Option<Seq<char>>, contains: Option<Seq<char>>,
    pattern: Option<Seq<char>>, r: Result<(), FileCheckError>) -> bool {
    match got {
        None => r matches Err(FileCheckError::JsonPathNotFound),
        Some(g) => match r {
            Ok(()) => expectation_spec(g, value, contains, pattern) is None,
            Err(FileCheckError::Expectation(e)) => expectation_spec(g, value, contains, pattern) == Some(error_rule(e))
                && error_details(e, g, value, contains, pattern),
            Err(_) => false,
        },
    }
}

/// The verdict of a file check on its content `text`, given the parsed
/// document in JSON mode (`doc`) or none in text mode.
pub fn file_verdict(
    doc: Option<&JsonDoc>,
    text: &str,
    json_path: Option<&str>,
    expected_value: Option<&str>,
    expected_contains: Option<&str>,
    expected_regex: Option<&str>,
) -> (r: Result<(), FileCheckError>)
    requires
        doc matches Some(d) ==> d.wf(),
    ensures
        file_verdict_ok(
            file_value_spec(match doc { Some(d) => Some(*d), None => None }, text@, crate::healthz::opt_str(json_path)),
            crate::healthz::opt_str(expected_value), crate::healthz::opt_str(expected_contains),
            crate::healthz::opt_str(expected_regex), r),
{
    let got = match file_value(doc, text, json_path) {
        Some(g) => g,
        None => return Err(FileCheckError::JsonPathNotFound),
    };
    match check_expectations(got.as_str(), expected_value, expected_contains, expected_regex) {
        Ok(()) => Ok(()),
        Err(e) => Err(FileCheckError::Expectation(e)),
    }
}

/// Whether a file check reads its content as JSON.
pub open spec fn json_mode_spec(format: Option<&str>, json_path: Option<&str>) -> bool {
    (format matches Some(f) && f@ == "json"@) || json_path is Some
}

/// The checks of a file whose content `text` was read: in JSON mode the
/// content must parse, the path (if any) must select a value, and the
/// value (or, without a path, the document's compact text; in text mode,
/// the content itself) must meet the expected value, substring and pattern.
pub fn file_check(
    text: &str,
    format: Option<&str>,
    json_path: Option<&str>,
    expected_value: Option<&str>,
    expected_contains: Option<&str>,
    expected_regex: Option<&str>,
) -> (r: Result<(), FileCheckError>)
    ensures
        json_mode_spec(format, json_path) && json_document(text@) is None ==> r matches Err(FileCheckError::InvalidJson),
        json_mode_spec(format, json_path) && json_document(text@) is Some ==> file_verdict_ok(
            file_value_spec(json_document(text@), text@, crate::healthz::opt_str(json_path)),
            crate::healthz::opt_str(expected_value), crate::healthz::opt_str(expected_contains),
            crate::healthz::opt_str(expected_regex), r),
        !json_mode_spec(format, json_path) ==> file_verdict_ok(
            Some(text@), crate::healthz::opt_str(expected_value), crate::healthz::opt_str(expected_contains),
            crate::healthz::opt_str(expected_regex), r),
{
    if file_json_mode(format, json_path) {
        match parse_json(text) {
            None => Err(FileCheckError::InvalidJson),
            Some(doc) => file_verdict(Some(&doc), text, json_path, expected_value, expected_contains, expected_regex),
        }
    } else {
        file_verdict(None, text, json_path, expected_value, expected_contains, expected_regex)
    }
}

/// Why an HTTP check failed after the response arrived.
pub enum HttpCheckError {
    UnexpectedStatus { actual: u16, expected: u16 },
    Body(ExpectationError),
    JsonPathNotFound,
    /// The body of an `http_json` check is not JSON.
    InvalidJson,
}

/// The status code rule: when a code is expected, the response must have it.
pub fn check_status(expected: Option<u16>, actual: u16) -> (r: Result<(), HttpCheckError>)
    ensures
        r is Ok <==> (expected matches Some(c) ==> c == actual),
        r matches Err(e) ==> e == (HttpCheckError::UnexpectedStatus { actual: actual, expected: expected->0 }),
{
    match expected {
        Some(c) => if c != actual { Err(HttpCheckError::UnexpectedStatus { actual, expected: c }) } else { Ok(()) },
        None => Ok(()),
    }
}

/// An HTTP check reads the body only to look for a substring or pattern.
pub fn http_needs_body(substring: Option<&str>, pattern: Option<&str>) -> (b: bool)
    ensures
        b == (substring is Some || pattern is Some),
{
    substring.is_some() || pattern.is_some()
}

/// The body rules of an HTTP check: the substring, then the pattern.
pub fn check_http_body(body: &str, substring: Option<&str>, pattern: Option<&str>) -> (r: Result<(), ExpectationError>)
    ensures
        match r {
            Ok(()) => expectation_spec(body@, None, crate::healthz::opt_str(substring), crate::healthz::opt_str(pattern)) is None,
            Err(e) => expectation_spec(body@, None, crate::healthz::opt_str(substring), crate::healthz::opt_str(pattern)) == Some(error_rule(e)),
        },
{
    check_expectations(body, None, substring, pattern)
}

/// The JSON rules of an `http_json` check: without a path, any JSON body
/// passes; with one, the path must select a value, which must equal the
/// expected value and match the pattern where these are given.
pub fn check_http_json(doc: &JsonDoc, json_path: Option<&str>, expected_value: Option<&str>, pattern: Option<&str>) -> (r: Result<(), HttpCheckError>)
    requires
        doc.wf(),
    ensures
        json_path is None ==> r is Ok,
        json_path matches Some(p) ==> match json_path_text(*doc, p@) {
            None => r matches Err(HttpCheckError::JsonPathNotFound),
            Some(got) => match r {
                Ok(()) => expectation_spec(got, crate::healthz::opt_str(expected_value), None, crate::healthz::opt_str(pattern)) is None,
                Err(HttpCheckError::Body(e)) => expectation_spec(got, crate::healthz::opt_str(expected_value), None, crate::healthz::opt_str(pattern)) == Some(error_rule(e)),
                Err(_) => false,
            },
        },
{
    let p = match json_path {
        Some(p) => p,
        None => return Ok(()),
    };
    let got = match json_path_value(doc, p) {
        Some(g) => g,
        None => return Err(HttpCheckError::JsonPathNotFound),
    };
    match check_expectations(got.as_str(), expected_value, None, pattern) {
        Ok(()) => Ok(()),
        Err(e) => Err(HttpCheckError::Body(e)),
    }
}

/// The JSON rules of an `http_json` check on the response body `body`: it
/// must parse as JSON, then `check_http_json` applies to the document.
pub fn check_http_json_body(body: &str, json_path: Option<&str>, expected_value: Option<&str>, pattern: Option<&str>) -> (r: Result<(), HttpCheckError>)
    ensures
        json_document(body@) is None ==> r matches Err(HttpCheckError::InvalidJson),
        json_document(body@) matches Some(doc) ==> {
            &&& json_path is None ==> r is Ok
            &&& json_path matches Some(p) ==> match json_path_text(doc, p@) {
                None => r matches Err(HttpCheckError::JsonPathNotFound),
                Some(got) => match r {
                    Ok(()) => expectation_spec(got, crate::healthz::opt_str(expected_value), None, crate::healthz::opt_str(pattern)) is None,
                    Err(HttpCheckError::Body(e)) => expectation_spec(got, crate::healthz::opt_str(expected_value), None, crate::healthz::opt_str(pattern)) == Some(error_rule(e)),
                    Err(_) => false,
                },
            }
        },
{
    match parse_json(body) {
        None => Err(HttpCheckError::InvalidJson),
        Some(doc) => check_http_json(&doc, json_path, expected_value, pattern),
    }
}

/// Why an Oracle connect string cannot be built.
#[derive(Debug, Clone, Copy, PartialEq, Eq, Structural)]
pub enum ConnectStringError {
    MissingHost,
    MissingServiceOrSid,
}

/// The Oracle connect string: the given one, else `host:port/service` or
/// `host:port:sid` with port 1521 by default.
pub open spec fn connect_string_spec(
    cs: Option<Seq<char>>,
    host: Option<Seq<char>>,
    port: Option<u16>,
    service: Option<Seq<char>>,
    sid: Option<Seq<char>>,
) -> Result<Seq<char>, ConnectStringError> {
    match cs {
        Some(c) => Ok(c),
        None => match host {
            None => Err(ConnectStringError::MissingHost),
            Some(h) => {
                let p: u16 = match port { Some(p) => p, None => 1521 };
                match service {
                    Some(svc) => Ok(h + ":"@ + decimal(p as nat) + "/"@ + svc),
                    None => match sid {
                        Some(sd) => Ok(h + ":"@ + decimal(p as nat) + ":"@ + sd),
                        None => Err(ConnectStringError::MissingServiceOrSid),
                    },
                }
            },
        },
    }
}

/// Builds the Oracle connect string.
pub fn build_connect_string(
    connection_string: Option<&str>,
    host: Option<&str>,
    port: Option<u16>,
    service_name: Option<&str>,
    sid: Option<&str>,
) -> (r: Result<String, ConnectStringError>)
    ensures
        match (r, connect_string_spec(crate::healthz::opt_str(connection_string), crate::healthz::opt_str(host), port,
            crate::healthz::opt_str(service_name), crate::healthz::opt_str(sid))) {
            (Ok(s), Ok(t)) => s@ == t,
            (Err(e), Err(f)) => e == f,
            _ => false,
        },
{
    if let Some(cs) = connection_string {
        return Ok(cs.to_string());
    }
    let h = match host {
        Some(h) => h,
        None => return Err(ConnectStringError::MissingHost),
    };
    let p: u16 = match port {
        Some(p) => p,
        None => 1521,
    };
    let ps = u64_text(p as u64);
    if let Some(svc) = service_name {
        let mut s = h.to_string();
        append_str(&mut s, ":");
        append_str(&mut s, ps.as_str());
        append_str(&mut s, "/");
        append_str(&mut s, svc);
        return Ok(s);
    }
    if let Some(sd) = sid {
        let mut s = h.to_string();
        append_str(&mut s, ":");
        append_str(&mut s, ps.as_str());
        append_str(&mut s, ":");
        append_str(&mut s, sd);
        return Ok(s);
    }
    Err(ConnectStringError::MissingServiceOrSid)
}

/// `host:port`.
pub fn tcp_address(host: &str, port: u16) -> (r: String)
    ensures
        r@ == host@ + ":"@ + decimal(port as nat),
{
    let mut s = host.to_string();
    append_str(&mut s, ":");
    let ps = u64_text(port as u64);
    append_str(&mut s, ps.as_str());
    s
}

#[verifier::external_type_specification]
#[verifier::external_body]
pub struct ExUrl(url::Url);

#[verifier::external_type_specification]
#[verifier::external_body]
pub struct ExUrlParseError(url::ParseError);

/// A parsed URL together with its source text.
pub struct ParsedUrl {
    source: String,
    inner: Url,
}

impl ParsedUrl {
    /// The text this URL was parsed from.
    pub closed spec fn source(&self) -> Seq<char> {
        self.source@
    }
}

/// Whether `url` parses `s` as an absolute URL.
pub uninterp spec fn url_parses(s: Seq<char>) -> bool;

/// The host of the URL parsed from `s`, as `Url::host_str` gives it.
pub uninterp spec fn url_host(s: Seq<char>) -> Option<Seq<char>>;

/// The port of the URL parsed from `s`, or its scheme's known default, as
/// `Url::port_or_known_default` gives it.
pub uninterp spec fn url_port(s: Seq<char>) -> Option<u16>;

/// `Url::parse`.
#[verifier::external_body]
fn parse_url(s: &str) -> (r: Result<ParsedUrl, url::ParseError>)
    ensures
        r is Ok <==> url_parses(s@),
        r matches Ok(u) ==> u.source() == s@,
{
    match Url::parse(s) {
        Ok(inner) => Ok(ParsedUrl { source: s.to_string(), inner }),
        Err(e) => Err(e),
    }
}

/// `Url::host_str`.
#[verifier::external_body]
fn url_host_str(u: &ParsedUrl) -> (r: Option<String>)
    ensures
        opt_view(r) == url_host(u.source()),
{
    match u.inner.host_str() {
        Some(h) => Some(h.to_string()),
        None => None,
    }
}

/// `Url::port_or_known_default`.
#[verifier::external_body]
fn url_port_or_known_default(u: &ParsedUrl) -> (r: Option<u16>)
    ensures
        r == url_port(u.source()),
{
    u.inner.port_or_known_default()
}

/// Why the target of a TLS certificate check cannot be determined.
#[derive(Debug, Clone, Copy, PartialEq, Eq, Structural)]
pub enum TlsTargetError {
    /// `url` does not parse.
    InvalidUrl,
    /// `url` has no host.
    UrlWithoutHost,
    /// Neither `url` nor `host` is given.
    MissingHost,
}

/// The host and port a TLS certificate check connects to: from the URL
/// when one is given (its port or scheme default, else 443), else from
/// `host` and `port` (443 by default).
pub open spec fn tls_target_spec(host: Option<Seq<char>>, port: Option<u16>, url: Option<Seq<char>>) -> Result<(Seq<char>, u16), TlsTargetError> {
    match url {
        Some(u) => if !url_parses(u) {
            Err(TlsTargetError::InvalidUrl)
        } else {
            match url_host(u) {
                None => Err(TlsTargetError::UrlWithoutHost),
                Some(h) => Ok((h, match url_port(u) { Some(p) => p, None => 443 })),
            }
        },
        None => match host {
            None => Err(TlsTargetError::MissingHost),
            Some(h) => Ok((h, match port { Some(p) => p, None => 443 })),
        },
    }
}

/// The target of a parsed URL, given its host and its port (or its scheme's
/// default port): no host is an error, and 443 stands in for no port.
pub fn url_target(host: Option<String>, port: Option<u16>) -> (r: Result<(String, u16), TlsTargetError>)
    ensures
        match host {
            None => r == Err::<(String, u16), TlsTargetError>(TlsTargetError::UrlWithoutHost),
            Some(h) => r matches Ok((rh, rp)) && rh@ == h@ && rp == match port { Some(p) => p, None => 443u16 },
        },
{
    match host {
        None => Err(TlsTargetError::UrlWithoutHost),
        Some(h) => Ok((h, match port { Some(p) => p, None => 443 })),
    }
}

/// Resolves the host and port of a TLS certificate check.
pub fn tls_target(host: Option<&str>, port: Option<u16>, url: Option<&str>) -> (r: Result<(String, u16), TlsTargetError>)
    ensures
        match (r, tls_target_spec(crate::healthz::opt_str(host), port, crate::healthz::opt_str(url))) {
            (Ok((h, p)), Ok((sh, sp))) => h@ == sh && p == sp,
            (Err(e), Err(f)) => e == f,
            _ => false,
        },
{
    match url {
        Some(u) => {
            let parsed = match parse_url(u) {
                Ok(p) => p,
                Err(_) => return Err(TlsTargetError::InvalidUrl),
            };
            url_target(url_host_str(&parsed), url_port_or_known_default(&parsed))
        },
        None => match host {
            None => Err(TlsTargetError::MissingHost),
            Some(h) => Ok((h.to_string(), match port { Some(p) => p, None => 443 })),
        },
    }
}

/// The server name sent in the TLS handshake: the SNI override, else the host.
pub fn sni_name(sni: Option<&str>, host: &str) -> (r: String)
    ensures
        r@ == match sni { Some(s) => s@, None => host@ },
{
    match sni {
        Some(s) => s.to_string(),
        None => host.to_string(),
    }
}

/// The Postgres connection settings a check uses: port 5432 unless given,
/// TLS off unless enabled, and certificates verified unless
/// `ignore_invalid_cert`.
pub fn postgres_connection(port: Option<u16>, tls: Option<bool>, ignore_invalid_cert: Option<bool>) -> (r: (u16, bool, bool))
    ensures
        r.0 == match port { Some(p) => p, None => 5432u16 },
        r.1 == (tls == Some(true)),
        r.2 == !(ignore_invalid_cert == Some(true)),
{
    let p = match port { Some(p) => p, None => 5432 };
    let t = match tls { Some(t) => t, None => false };
    let i = match ignore_invalid_cert { Some(i) => i, None => false };
    (p, t, !i)
}

/// The expiry instant (`notAfter`) of the DER certificate `der`, as
/// x509-parser reads it: Unix seconds and the nanosecond within the second,
/// or `None` where the bytes do not parse as a certificate.
pub uninterp spec fn cert_not_after(der: Seq<u8>) -> Option<(i64, u32)>;

/// `x509_parser::parse_x509_certificate`, keeping the `notAfter` instant of
/// the certificate's validity as Unix seconds and nanoseconds (which
/// `OffsetDateTime::nanosecond` documents to be below one billion).
#[verifier::external_body]
fn leaf_not_after(der: &[u8]) -> (r: Option<(i64, u32)>)
    ensures
        r == cert_not_after(der@),
        r matches Some(t) ==> t.1 < 1_000_000_000,
{
    match x509_parser::parse_x509_certificate(der) {
        Ok((_, cert)) => {
            let t = cert.validity().not_after.to_datetime();
            Some((t.unix_timestamp(), t.nanosecond()))
        },
        Err(_) => None,
    }
}

/// Why a presented leaf certificate fails the check before its remaining
/// lifetime is weighed.
#[derive(Debug, Clone, Copy, PartialEq, Eq, Structural)]
pub enum CertError {
    /// The bytes are not a certificate.
    Unparsable,
    /// The certificate's `notAfter` (Unix seconds and nanoseconds) is not
    /// after now.
    Expired { not_after_secs: i64, not_after_nanos: u32 },
}

/// Nanoseconds from `now` to `not_after`, both given as Unix seconds and
/// nanoseconds.
pub open spec fn nanos_between(not_after: (i64, u32), now: (i64, u32)) -> int {
    (not_after.0 - now.0) * 1_000_000_000 + (not_after.1 - now.1)
}

/// A certificate that expires at `not_after`, seen at `now`: expired when
/// `not_after` is not later than `now`, else the whole seconds that remain.
pub open spec fn cert_remaining_spec(not_after: (i64, u32), now: (i64, u32)) -> Result<int, CertError> {
    if nanos_between(not_after, now) <= 0 {
        Err(CertError::Expired { not_after_secs: not_after.0, not_after_nanos: not_after.1 })
    } else {
        Ok(nanos_between(not_after, now) / 1_000_000_000)
    }
}

/// Weighs a certificate's expiry instant against now: `Expired`, or the
/// whole seconds it has left.
pub fn cert_remaining_seconds(not_after: (i64, u32), now: (i64, u32)) -> (r: Result<i128, CertError>)
    requires
        not_after.1 < 1_000_000_000,
        now.1 < 1_000_000_000,
    ensures
        match (r, cert_remaining_spec(not_after, now)) {
            (Ok(x), Ok(y)) => x == y,
            (Err(e), Err(f)) => e == f,
            _ => false,
        },
{
    let (a_s, a_n) = not_after;
    let (b_s, b_n) = now;
    let ds: i128 = a_s as i128 - b_s as i128;
    let ghost total = nanos_between(not_after, now);
    if ds < 0 || (ds == 0 && a_n <= b_n) {
        proof {
            assert(total <= 0) by (nonlinear_arith)
                requires
                    total == ds * 1_000_000_000 + (a_n - b_n),
                    ds < 0 || (ds == 0 && a_n <= b_n),
                    a_n < 1_000_000_000,
                    b_n < 1_000_000_000,
            ;
        }
        Err(CertError::Expired { not_after_secs: a_s, not_after_nanos: a_n })
    } else if a_n >= b_n {
        proof {
            assert(total / 1_000_000_000 == ds) by (nonlinear_arith)
                requires
                    total == ds * 1_000_000_000 + (a_n - b_n),
                    a_n >= b_n,
                    a_n < 1_000_000_000,
            ;
        }
        Ok(ds)
    } else {
        proof {
            assert(total > 0 && total / 1_000_000_000 == ds - 1) by (nonlinear_arith)
                requires
                    total == ds * 1_000_000_000 + (a_n - b_n),
                    ds > 0,
                    a_n < b_n,
                    b_n < 1_000_000_000,
            ;
        }
        Ok(ds - 1)
    }
}

/// What a presented leaf certificate still has: its expiry instant (Unix
/// seconds and nanoseconds) and the whole seconds left until then.
#[derive(Debug, Clone, Copy, PartialEq, Eq, Structural)]
pub struct CertLifetime {
    pub not_after_secs: i64,
    pub not_after_nanos: u32,
    pub remaining_secs: i128,
}

/// Checks the leaf certificate a server presented, given as DER bytes,
/// against the time `now`: `Unparsable`, `Expired`, or its expiry and the
/// whole seconds it has left.
pub fn check_leaf_certificate(der: &[u8], now: (i64, u32)) -> (r: Result<CertLifetime, CertError>)
    requires
        now.1 < 1_000_000_000,
    ensures
        match cert_not_after(der@) {
            None => r == Err::<CertLifetime, CertError>(CertError::Unparsable),
            Some(na) => match (r, cert_remaining_spec(na, now)) {
                (Ok(l), Ok(y)) => l.not_after_secs == na.0 && l.not_after_nanos == na.1 && l.remaining_secs == y,
                (Err(e), Err(f)) => e == f,
                _ => false,
            },
        },
{
    match leaf_not_after(der) {
        None => Err(CertError::Unparsable),
        Some(na) => match cert_remaining_seconds(na, now) {
            Ok(secs) => Ok(CertLifetime { not_after_secs: na.0, not_after_nanos: na.1, remaining_secs: secs }),
            Err(e) => Err(e),
        },
    }
}

} // verus!
