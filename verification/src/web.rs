//! Input validation and the value shapes exchanged with the web front end.
//! The HTTP handling itself lives outside; these are the rules it applies.

use vstd::prelude::*;
use vstd::string::StringSliceAdditionalSpecFns;

use crate::text;
use crate::urlinfo;

verus! {

/// A transfer request: the share link and its optional extraction code.
#[derive(Debug)]
pub struct TransferRequest {
    pub share_url: String,
    pub pwd: String,
}

/// The answer to a transfer request.
#[derive(Debug)]
pub struct TransferResponse {
    pub success: bool,
    pub message: String,
    pub file_count: Option<usize>,
    pub save_path: Option<String>,
}

/// A login attempt.
#[derive(Debug)]
pub struct LoginRequest {
    pub password: String,
}

/// The answer to a login attempt.
#[derive(Debug)]
pub struct LoginResponse {
    pub success: bool,
    pub message: String,
}

/// The health-check answer.
#[derive(Debug)]
pub struct HealthResponse {
    pub status: String,
    pub version: &'static str,
}

/// Why an input was rejected.
#[derive(Debug, PartialEq, Eq, Structural)]
pub enum ValidationError {
    /// The share link is empty.
    EmptyUrl,
    /// The share link is not a parseable URL.
    NotAUrl,
    /// The share link's host is not the storage service.
    NotBaiduHost,
    /// The share link's path holds no share segment.
    MissingSharePath,
    /// The extraction code is neither empty nor four bytes long.
    BadPasswordLength,
}

/// What share-link validation decides: the link must be non-empty, parse as
/// a URL, name a `baidu.com` host, and carry `/s/` in its path.
pub open spec fn spec_validate_share_url(s: Seq<char>) -> Result<(), ValidationError> {
    if s.len() == 0 {
        Err(ValidationError::EmptyUrl)
    } else {
        match urlinfo::parsed_url_host(s) {
            Option::None => Err(ValidationError::NotAUrl),
            Option::Some(hopt) => match hopt {
                Option::None => Err(ValidationError::NotBaiduHost),
                Option::Some(h) => if !text::spec_contains(h, "baidu.com"@) {
                    Err(ValidationError::NotBaiduHost)
                } else {
                    match urlinfo::parsed_url_path(s) {
                        Option::None => Err(ValidationError::NotAUrl),
                        Option::Some(p) => if text::spec_contains(p, "/s/"@) {
                            Ok(())
                        } else {
                            Err(ValidationError::MissingSharePath)
                        },
                    }
                },
            },
        }
    }
}

/// Validates a share link as `spec_validate_share_url` says.
pub fn validate_share_url(url: &str) -> (r: Result<(), ValidationError>)
    ensures
        r == spec_validate_share_url(url@),
{
    if url.unicode_len() == 0 {
        return Err(ValidationError::EmptyUrl);
    }
    match urlinfo::url_host(url) {
        None => Err(ValidationError::NotAUrl),
        Some(hopt) => match hopt {
            None => Err(ValidationError::NotBaiduHost),
            Some(h) => {
                if !text::contains_str(h.as_str(), "baidu.com") {
                    return Err(ValidationError::NotBaiduHost);
                }
                match urlinfo::url_path(url) {
                    None => Err(ValidationError::NotAUrl),
                    Some(p) => {
                        if text::contains_str(p.as_str(), "/s/") {
                            Ok(())
                        } else {
                            Err(ValidationError::MissingSharePath)
                        }
                    },
                }
            },
        },
    }
}

/// Validates an extraction code: it may be empty, and otherwise must be
/// exactly four bytes.
pub fn validate_password(pwd: &str) -> (r: Result<(), ValidationError>)
    ensures
        r is Ok <==> (pwd.spec_bytes().len() == 0 || pwd.spec_bytes().len() == 4),
        r is Err ==> r->Err_0 == ValidationError::BadPasswordLength,
{
    let n = pwd.as_bytes().len();
    if n != 0 && n != 4 {
        Err(ValidationError::BadPasswordLength)
    } else {
        Ok(())
    }
}

} // verus!
