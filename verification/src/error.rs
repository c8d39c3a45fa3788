//! The analyzer's error kinds.

use vstd::prelude::*;
use vstd::string::StringExecFns;
use crate::text::dec_str;

verus! {

/// What can go wrong around the core: a transient network failure, a
/// non-retryable decode or parse failure, and quota exhaustion carrying the
/// server's reset timestamp.
#[derive(Debug, Clone, PartialEq, Eq)]
pub enum GithubAnalyzerError {
    NetworkError(String),
    ParseError(String),
    RateLimitError(u64),
}

impl GithubAnalyzerError {
    /// A human-readable description of the error.
    pub fn message(&self) -> (r: String)
        ensures
            match self {
                GithubAnalyzerError::NetworkError(m) => r@ == "Network error: "@ + m@,
                GithubAnalyzerError::ParseError(m) => r@ == "Parse error: "@ + m@,
                GithubAnalyzerError::RateLimitError(t) => r@
                    == "Rate limit exceeded. Resets at timestamp: "@ + dec_str(*t as nat),
            },
    {
        match self {
            GithubAnalyzerError::NetworkError(m) => {
                let mut out = String::from_str("Network error: ");
                out.append(m.as_str());
                out
            },
            GithubAnalyzerError::ParseError(m) => {
                let mut out = String::from_str("Parse error: ");
                out.append(m.as_str());
                out
            },
            GithubAnalyzerError::RateLimitError(t) => {
                let mut out = String::from_str("Rate limit exceeded. Resets at timestamp: ");
                crate::text::append_dec(&mut out, *t);
                out
            },
        }
    }
}

} // verus!
