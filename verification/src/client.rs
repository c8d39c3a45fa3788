//! The pure half of the remote client: request-URL construction, content
//! decoding, and the retry decision rules.  The network calls themselves
//! live outside the library; they hand plain values in and take plain
//! values back.

use vstd::prelude::*;
use vstd::string::StringExecFns;
use vstd::utf8::{decode_utf8, valid_utf8};
use crate::error::GithubAnalyzerError;
use crate::text::{replace_all, replace_spec, str_eq};

verus! {

/// What a contents request's URL is: the repository URL with the public
/// host rewritten to the API host and any branch path dropped, then the
/// listing path and branch reference appended.
pub open spec fn contents_url_spec(repo: Seq<char>, path: Seq<char>, branch: Seq<char>) -> Seq<
    char,
> {
    replace_spec(
        replace_spec(replace_spec(repo, "github.com"@, "api.github.com/repos"@), "tree/main"@, ""@),
        "tree/master"@,
        ""@,
    ) + "/contents/"@ + path + "?ref="@ + branch
}

/// Builds the API URL that lists `path` on `branch` of the repository.
pub fn build_contents_url(repo_url: &str, path: &str, branch: &str) -> (r: String)
    ensures
        r@ == contents_url_spec(repo_url@, path@, branch@),
{
    proof {
        reveal_strlit("github.com");
        reveal_strlit("tree/main");
        reveal_strlit("tree/master");
    }
    let s1 = replace_all(repo_url, "github.com", "api.github.com/repos");
    let s2 = replace_all(s1.as_str(), "tree/main", "");
    let mut out = replace_all(s2.as_str(), "tree/master", "");
    out.append("/contents/");
    out.append(path);
    out.append("?ref=");
    out.append(branch);
    out
}

/// What `base64::decode` yields on a given text; the result depends on the
/// characters alone.
pub uninterp spec fn base64_decoding(s: Seq<char>) -> Option<Seq<u8>>;

/// Relies on `base64::decode` with the standard alphabet: decoding either
/// yields the encoded bytes or fails, and which of the two happens — and
/// the bytes themselves — are a function of the input text alone.
#[verifier::external_body]
fn base64_decode(s: &str) -> (r: Option<Vec<u8>>)
    ensures
        r is Some <==> base64_decoding(s@) is Some,
        r matches Some(v) ==> base64_decoding(s@) == Some(v@),
{
    base64::decode(s).ok()
}

/// Relies on `String::from_utf8`: it succeeds exactly on valid UTF-8 and
/// returns the decoded characters.
#[verifier::external_body]
fn utf8_to_string(b: Vec<u8>) -> (r: Option<String>)
    ensures
        r is Some <==> valid_utf8(b@),
        r matches Some(s) ==> s@ == decode_utf8(b@),
{
    String::from_utf8(b).ok()
}

/// Turns fetched bytes into text: succeeds exactly on valid UTF-8, and
/// reports a parse error otherwise.
pub fn text_from_bytes(b: Vec<u8>) -> (r: Result<String, GithubAnalyzerError>)
    ensures
        r matches Ok(s) ==> valid_utf8(b@) && s@ == decode_utf8(b@),
        r matches Err(e) ==> e is ParseError,
        r is Ok <==> valid_utf8(b@),
{
    match utf8_to_string(b) {
        Some(s) => Ok(s),
        None => Err(
            GithubAnalyzerError::ParseError(String::from_str("invalid utf-8 in decoded content")),
        ),
    }
}

/// Whether a fetched body decodes: both parts present, the encoding marked
/// `base64`, and the content — newlines removed — both base64-decodable
/// and valid UTF-8.
pub open spec fn decodable(content: Option<Seq<char>>, encoding: Option<Seq<char>>) -> bool {
    match (content, encoding) {
        (Some(c), Some(e)) => e == "base64"@ && match base64_decoding(
            replace_spec(c, "\n"@, ""@),
        ) {
            Some(bytes) => valid_utf8(bytes),
            None => false,
        },
        _ => false,
    }
}

/// The text a decodable body denotes.
pub open spec fn decoded_text(content: Seq<char>) -> Seq<char>
    recommends
        base64_decoding(replace_spec(content, "\n"@, ""@)) is Some,
{
    decode_utf8(base64_decoding(replace_spec(content, "\n"@, ""@))->Some_0)
}

/// Decodes a fetched file body: the content must be present, marked
/// `base64`, decode as base64 after newline removal, and hold valid UTF-8;
/// any other input yields a parse error.
pub fn decode_file_content(content: Option<String>, encoding: Option<String>) -> (r: Result<
    String,
    GithubAnalyzerError,
>)
    ensures
        r is Ok <==> decodable(
            match content {
                Some(c) => Some(c@),
                None => None,
            },
            match encoding {
                Some(e) => Some(e@),
                None => None,
            },
        ),
        r matches Ok(s) ==> content matches Some(c) && s@ == decoded_text(c@),
        r matches Err(e) ==> e is ParseError,
        !(content is Some && encoding is Some && encoding->0@ == "base64"@) ==> (r matches Err(e)
            && e matches GithubAnalyzerError::ParseError(m) && m@
            == "Content or encoding unavailable"@),
{
    match (content, encoding) {
        (Some(c), Some(e)) => {
            if str_eq(e.as_str(), "base64") {
                proof {
                    reveal_strlit("\n");
                }
                let stripped = replace_all(c.as_str(), "\n", "");
                match base64_decode(stripped.as_str()) {
                    Some(bytes) => match utf8_to_string(bytes) {
                        Some(s) => Ok(s),
                        None => Err(
                            GithubAnalyzerError::ParseError(
                                String::from_str("invalid utf-8 in decoded content"),
                            ),
                        ),
                    },
                    None => Err(
                        GithubAnalyzerError::ParseError(String::from_str("invalid base64 content")),
                    ),
                }
            } else {
                Err(
                    GithubAnalyzerError::ParseError(
                        String::from_str("Content or encoding unavailable"),
                    ),
                )
            }
        },
        _ => Err(
            GithubAnalyzerError::ParseError(String::from_str("Content or encoding unavailable")),
        ),
    }
}

/// What one attempt of a fetch reported, as plain values: success, the
/// distinguished forbidden status, another status, or a transport failure.
/// The message strings carry whatever the transport layer said.
#[derive(Debug, Clone, PartialEq, Eq)]
pub enum FetchOutcome {
    Success,
    Forbidden,
    Status(String),
    Transport(String),
}

/// What the retry loop does next: wait for the quota to reset and try
/// again without spending a retry, use the response, fail at once with the
/// given error, retry after a backoff, or give up with the last error.
#[derive(Debug, Clone, PartialEq, Eq)]
pub enum RetryDecision {
    WaitReset(u64),
    UseResponse,
    Fail(GithubAnalyzerError),
    Retry { next_retries: u32, wait_secs: u64 },
    GiveUp(GithubAnalyzerError),
}

/// The exponential backoff before retry number `retries`.
pub fn backoff_secs(retries: u32) -> (r: u64)
    requires
        retries < 64,
    ensures
        r == (1u64 << retries),
{
    1u64 << retries
}

/// Decides what the fetch loop does after one attempt.
///
/// When the rate-limit headers say the quota is spent and give a reset time
/// in the future, the loop waits until just past that time and tries again
/// without spending a retry.  Otherwise a success is used as is; a
/// forbidden status fails at once with the rate-limit error carrying the
/// reset time (zero when none was given); any other status or a transport
/// failure spends a retry, backing off exponentially, until the retries
/// are exhausted, when the last failure is returned.
pub fn retry_decide(
    retries: u32,
    max_retries: u32,
    remaining: Option<u32>,
    reset: Option<u64>,
    now: u64,
    outcome: FetchOutcome,
) -> (r: RetryDecision)
    requires
        retries <= max_retries,
        max_retries < 63,
        match reset {
            Some(t) => t < u64::MAX,
            None => true,
        },
    ensures
        ({
            let limited = remaining == Some(0u32) && match reset {
                Some(t) => t > now,
                None => false,
            };
            &&& limited ==> r == RetryDecision::WaitReset((reset->Some_0 - now + 1) as u64)
            &&& !limited ==> match outcome {
                FetchOutcome::Success => r == RetryDecision::UseResponse,
                FetchOutcome::Forbidden => r == RetryDecision::Fail(
                    GithubAnalyzerError::RateLimitError(
                        match reset {
                            Some(t) => t,
                            None => 0u64,
                        },
                    ),
                ),
                FetchOutcome::Status(m) => if retries + 1 <= max_retries {
                    r == (RetryDecision::Retry {
                        next_retries: (retries + 1) as u32,
                        wait_secs: (1u64 << (retries + 1) as u64),
                    })
                } else {
                    r == RetryDecision::GiveUp(GithubAnalyzerError::NetworkError(m))
                },
                FetchOutcome::Transport(m) => if retries + 1 <= max_retries {
                    r == (RetryDecision::Retry {
                        next_retries: (retries + 1) as u32,
                        wait_secs: (1u64 << (retries + 1) as u64),
                    })
                } else {
                    r == RetryDecision::GiveUp(GithubAnalyzerError::NetworkError(m))
                },
            }
        }),
{
    let limited = match (remaining, reset) {
        (Some(rem), Some(t)) => rem == 0 && t > now,
        _ => false,
    };
    if limited {
        let t = match reset {
            Some(t) => t,
            None => 0,
        };
        return RetryDecision::WaitReset(t - now + 1);
    }
    match outcome {
        FetchOutcome::Success => RetryDecision::UseResponse,
        FetchOutcome::Forbidden => RetryDecision::Fail(
            GithubAnalyzerError::RateLimitError(
                match reset {
                    Some(t) => t,
                    None => 0,
                },
            ),
        ),
        FetchOutcome::Status(m) => {
            if retries + 1 <= max_retries {
                RetryDecision::Retry {
                    next_retries: retries + 1,
                    wait_secs: backoff_secs(retries + 1),
                }
            } else {
                RetryDecision::GiveUp(GithubAnalyzerError::NetworkError(m))
            }
        },
        FetchOutcome::Transport(m) => {
            if retries + 1 <= max_retries {
                RetryDecision::Retry {
                    next_retries: retries + 1,
                    wait_secs: backoff_secs(retries + 1),
                }
            } else {
                RetryDecision::GiveUp(GithubAnalyzerError::NetworkError(m))
            }
        },
    }
}

} // verus!
