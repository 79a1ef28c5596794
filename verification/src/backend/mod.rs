//! Backends that serve a request, and the path patterns that pick one.
pub mod router;
pub mod static_files;

use vstd::prelude::*;
use crate::error::{ParseError, framed_message, prefixed_message};
use crate::text::{
    chars_of, chars_end_with, chars_equal, chars_start_with, seq_ends_with, seq_starts_with,
    str_lowercase, to_lowercase, trim_end_char, trim_end_chars, trim_start_char,
    trim_start_chars,
};

verus! {

broadcast use vstd::string::group_string_axioms;

/// The kind of backend that serves a request.
#[derive(Debug, Clone, Copy, PartialEq, Eq, Hash, Structural)]
pub enum BackendType {
    Embedded,
    FastCGI,
    Static,
}

/// The backend type a lower-cased name stands for.
pub open spec fn backend_type_named(name: Seq<char>) -> Option<BackendType> {
    if name == "embedded"@ {
        Some(BackendType::Embedded)
    } else if name == "fastcgi"@ {
        Some(BackendType::FastCGI)
    } else if name == "static"@ {
        Some(BackendType::Static)
    } else {
        None
    }
}

/// The name a backend type is written with.
pub open spec fn backend_type_name(t: BackendType) -> Seq<char> {
    match t {
        BackendType::Embedded => "embedded"@,
        BackendType::FastCGI => "fastcgi"@,
        BackendType::Static => "static"@,
    }
}

impl BackendType {
    /// The name of the backend type.
    pub fn to_string(&self) -> (r: String)
        ensures
            r@ == backend_type_name(*self),
    {
        match self {
            BackendType::Embedded => "embedded".to_string(),
            BackendType::FastCGI => "fastcgi".to_string(),
            BackendType::Static => "static".to_string(),
        }
    }

    /// Reads a backend type from its name, ignoring case.
    pub fn from_str(s: &str) -> (r: Result<BackendType, ParseError>)
        ensures
            match backend_type_named(str_lowercase(s@)) {
                Some(t) => r == Ok::<BackendType, ParseError>(t),
                None => r matches Err(e) && e.message@ == "Invalid backend type: '"@ + s@ + "'"@,
            },
    {
        let lower = to_lowercase(s);
        if lower == "embedded".to_string() {
            Ok(BackendType::Embedded)
        } else if lower == "fastcgi".to_string() {
            Ok(BackendType::FastCGI)
        } else if lower == "static".to_string() {
            Ok(BackendType::Static)
        } else {
            Err(ParseError { message: framed_message("Invalid backend type: '", s, "'") })
        }
    }
}

/// Why a backend could not serve a request.
#[derive(Debug, Clone)]
pub enum BackendError {
    ConnectionFailed(String),
    Timeout,
    ProtocolError(String),
    PhpError(String),
    /// An I/O failure, with the message of the underlying error.
    IoError(String),
    NotFound(String),
    /// Any other failure, with its message.
    Other(String),
}

/// The message a backend error is shown with.
pub open spec fn backend_error_message(e: BackendError) -> Seq<char> {
    match e {
        BackendError::ConnectionFailed(m) => "Connection failed: "@ + m@,
        BackendError::Timeout => "Request timeout"@,
        BackendError::ProtocolError(m) => "Protocol error: "@ + m@,
        BackendError::PhpError(m) => "PHP error: "@ + m@,
        BackendError::IoError(m) => "IO error: "@ + m@,
        BackendError::NotFound(p) => "Not found: "@ + p@,
        BackendError::Other(m) => m@,
    }
}

/// The label under which a backend error is counted in the metrics.
pub open spec fn backend_error_kind(e: BackendError) -> Seq<char> {
    match e {
        BackendError::NotFound(_) => "not_found"@,
        BackendError::PhpError(_) => "php_error"@,
        BackendError::ConnectionFailed(_) => "connection_failed"@,
        BackendError::ProtocolError(_) => "protocol_error"@,
        BackendError::IoError(_) => "io_error"@,
        BackendError::Timeout => "timeout"@,
        BackendError::Other(_) => "other"@,
    }
}

impl BackendError {
    /// The message the error is shown with.
    pub fn to_string(&self) -> (r: String)
        ensures
            r@ == backend_error_message(*self),
    {
        match self {
            BackendError::ConnectionFailed(m) => prefixed_message("Connection failed: ", m.as_str()),
            BackendError::Timeout => "Request timeout".to_string(),
            BackendError::ProtocolError(m) => prefixed_message("Protocol error: ", m.as_str()),
            BackendError::PhpError(m) => prefixed_message("PHP error: ", m.as_str()),
            BackendError::IoError(m) => prefixed_message("IO error: ", m.as_str()),
            BackendError::NotFound(p) => prefixed_message("Not found: ", p.as_str()),
            BackendError::Other(m) => m.clone(),
        }
    }

    /// The label under which the error is counted in the metrics.
    pub fn kind(&self) -> (r: &'static str)
        ensures
            r@ == backend_error_kind(*self),
    {
        match self {
            BackendError::NotFound(_) => "not_found",
            BackendError::PhpError(_) => "php_error",
            BackendError::ConnectionFailed(_) => "connection_failed",
            BackendError::ProtocolError(_) => "protocol_error",
            BackendError::IoError(_) => "io_error",
            BackendError::Timeout => "timeout",
            BackendError::Other(_) => "other",
        }
    }
}

/// Status code, headers and body of a response a backend produced.
#[derive(Debug, Clone)]
pub struct ResponseParts {
    pub status_code: u16,
    pub headers: crate::php::Headers,
    pub body: Vec<u8>,
}

/// The outcome of a backend health check.
#[derive(Debug, Clone)]
pub struct HealthStatus {
    pub healthy: bool,
    pub message: String,
    pub latency: Option<core::time::Duration>,
}

impl HealthStatus {
    /// A healthy status with the given message and no latency.
    pub fn healthy(message: &str) -> (r: HealthStatus)
        ensures
            r.healthy,
            r.message@ == message@,
            r.latency is None,
    {
        HealthStatus { healthy: true, message: message.to_string(), latency: None }
    }

    /// An unhealthy status with the given message and no latency.
    pub fn unhealthy(message: &str) -> (r: HealthStatus)
        ensures
            !r.healthy,
            r.message@ == message@,
            r.latency is None,
    {
        HealthStatus { healthy: false, message: message.to_string(), latency: None }
    }

    /// The same status with the given latency recorded.
    pub fn with_latency(self, latency: core::time::Duration) -> (r: HealthStatus)
        ensures
            r.healthy == self.healthy,
            r.message == self.message,
            r.latency == Some(latency),
    {
        let mut s = self;
        s.latency = Some(latency);
        s
    }
}

#[verifier::external_type_specification]
#[verifier::external_body]
pub struct ExRegex(regex::Regex);

#[verifier::external_type_specification]
#[verifier::external_body]
pub struct ExRegexError(regex::Error);

/// Whether `regex::Regex::new` accepts this pattern.
pub uninterp spec fn regex_compiles(pattern: Seq<char>) -> bool;

/// What `regex::Regex::is_match` returns for the regex compiled from `pattern` on `text`.
pub uninterp spec fn regex_finds_match(pattern: Seq<char>, text: Seq<char>) -> bool;

/// A regular expression together with the pattern it was compiled from.
#[derive(Debug)]
pub struct RegexPattern {
    source: String,
    compiled: regex::Regex,
}

impl RegexPattern {
    /// The pattern the expression was compiled from.
    pub closed spec fn pattern(&self) -> Seq<char> {
        self.source@
    }

    /// `regex::Regex::new`: compiles `pattern`, keeping the pattern beside the compiled
    /// expression. Claims that it succeeds exactly when the pattern compiles.
    #[verifier::external_body]
    pub(crate) fn compile(pattern: &str) -> (r: Result<RegexPattern, regex::Error>)
        ensures
            r is Ok <==> regex_compiles(pattern@),
            r matches Ok(p) ==> p.pattern() == pattern@,
    {
        regex::Regex::new(pattern).map(|compiled| RegexPattern { source: pattern.to_string(), compiled })
    }

    /// `regex::Regex::is_match` on the compiled expression: claims its result is the named
    /// match result for the pattern this value was compiled from.
    #[verifier::external_body]
    pub(crate) fn is_match(&self, text: &str) -> (b: bool)
        ensures
            b == regex_finds_match(self.pattern(), text@),
    {
        self.compiled.is_match(text)
    }

    /// The pattern the expression was compiled from.
    pub fn as_str(&self) -> (r: &str)
        ensures
            r@ == self.pattern(),
    {
        self.source.as_str()
    }
}

/// A pattern that request paths are matched against.
#[derive(Debug)]
pub enum PathPattern {
    Exact(String),
    Prefix(String),
    Suffix(String),
    Regex(RegexPattern),
}

/// The kind of a path pattern.
#[derive(Debug, Clone, Copy, PartialEq, Eq, Structural)]
pub enum PatternKind {
    Exact,
    Prefix,
    Suffix,
    Regex,
}

/// A pattern's kind and text.
pub open spec fn pattern_view(p: PathPattern) -> (PatternKind, Seq<char>) {
    match p {
        PathPattern::Exact(s) => (PatternKind::Exact, s@),
        PathPattern::Prefix(s) => (PatternKind::Prefix, s@),
        PathPattern::Suffix(s) => (PatternKind::Suffix, s@),
        PathPattern::Regex(r) => (PatternKind::Regex, r.pattern()),
    }
}

/// Whether `path` matches the pattern of this kind and text: exact patterns compare whole;
/// a prefix pattern is compared without its trailing `*` and then `/` characters; a suffix
/// pattern without its leading `*` characters; a regular expression must find a match.
pub open spec fn view_matches(v: (PatternKind, Seq<char>), path: Seq<char>) -> bool {
    match v.0 {
        PatternKind::Exact => path == v.1,
        PatternKind::Prefix => seq_starts_with(path, trim_end_char(trim_end_char(v.1, '*'), '/')),
        PatternKind::Suffix => seq_ends_with(path, trim_start_char(v.1, '*')),
        PatternKind::Regex => regex_finds_match(v.1, path),
    }
}

/// Whether `path` matches `pattern`.
pub open spec fn pattern_matches(pattern: PathPattern, path: Seq<char>) -> bool {
    view_matches(pattern_view(pattern), path)
}

impl PathPattern {
    /// A regular-expression pattern, or the error when `pattern` does not compile.
    pub fn regex(pattern: &str) -> (r: Result<PathPattern, ParseError>)
        ensures
            r is Ok <==> regex_compiles(pattern@),
            r matches Ok(p) ==> p matches PathPattern::Regex(re) && re.pattern() == pattern@,
            r matches Err(e) ==> e.message@ == "Invalid regex pattern: "@ + pattern@,
    {
        match RegexPattern::compile(pattern) {
            Ok(re) => Ok(PathPattern::Regex(re)),
            Err(_) => Err(ParseError { message: prefixed_message("Invalid regex pattern: ", pattern) }),
        }
    }

    /// Whether `path` matches this pattern.
    pub fn matches(&self, path: &str) -> (r: bool)
        ensures
            r == pattern_matches(*self, path@),
    {
        match self {
            PathPattern::Exact(p) => {
                let a = chars_of(path);
                let b = chars_of(p.as_str());
                chars_equal(&a, &b)
            },
            PathPattern::Prefix(p) => {
                let pc = chars_of(p.as_str());
                let t1 = trim_end_chars(&pc, '*');
                let t2 = trim_end_chars(&t1, '/');
                let a = chars_of(path);
                chars_start_with(&a, &t2)
            },
            PathPattern::Suffix(s) => {
                let sc = chars_of(s.as_str());
                let t = trim_start_chars(&sc, '*');
                let a = chars_of(path);
                chars_end_with(&a, &t)
            },
            PathPattern::Regex(re) => re.is_match(path),
        }
    }
}

} // verus!
