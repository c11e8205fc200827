//! The short-lived bearer credential used against the backend API: when a
//! static value is configured it is used as is; otherwise the refresh secret
//! is exchanged at the token endpoint, and the decisions about that exchange
//! are made here from plain values.

use vstd::prelude::*;

use crate::config::OpenApiConfig;
use crate::encoding;

verus! {

/// Where a credential came from.
#[derive(Debug, Clone, Copy, PartialEq, Eq, Structural)]
pub enum CredentialSource {
    /// The configured static value, returned unchanged.
    CachedConfigured,
    /// Freshly exchanged from the refresh secret.
    RefreshedFromRefreshToken,
}

/// The bearer credential for one pipeline run.
#[derive(Debug, Clone)]
pub struct Credential {
    pub value: String,
    pub source: CredentialSource,
}

/// Why a refresh exchange failed.
#[derive(Debug, Clone, Copy, PartialEq, Eq, Structural)]
pub enum RefreshReason {
    /// The client identity needed for the exchange is not configured.
    MissingClientIdentity,
    /// No refresh secret is configured.
    MissingRefreshSecret,
    /// The token endpoint answered with a non-success HTTP status.
    HttpStatus(u16),
    /// The token endpoint's reply could not be decoded.
    UnreadableReply,
    /// The token endpoint embedded an error in its reply.
    ErrorReply,
    /// The reply carried an empty credential.
    EmptyCredential,
}

/// Credential acquisition failure.
#[derive(Debug, Clone, Copy, PartialEq, Eq, Structural)]
pub enum CredentialError {
    /// Neither a static credential nor a refresh secret is configured.
    NotConfigured,
    /// The refresh exchange failed.
    RefreshFailed(RefreshReason),
}

/// How a credential is to be obtained for this run.
pub enum ObtainPlan {
    /// The configured static value serves, with no network call.
    UseStatic(Credential),
    /// The refresh secret must be exchanged at the token endpoint.
    ExchangeRefreshToken,
}

/// Decides how to obtain the credential: a non-empty configured static
/// value is used unchanged; otherwise a non-empty refresh secret calls for
/// an exchange; with neither, acquisition fails.
pub fn plan_obtain(cfg: &OpenApiConfig) -> (r: Result<ObtainPlan, CredentialError>)
    ensures
        cfg.access_token@.len() > 0 ==> {
            &&& r is Ok
            &&& r->Ok_0 matches ObtainPlan::UseStatic(c)
            &&& r->Ok_0->UseStatic_0.value@ == cfg.access_token@
            &&& r->Ok_0->UseStatic_0.source == CredentialSource::CachedConfigured
        },
        cfg.access_token@.len() == 0 && cfg.refresh_token@.len() > 0 ==> r is Ok && r->Ok_0 matches
            ObtainPlan::ExchangeRefreshToken,
        cfg.access_token@.len() == 0 && cfg.refresh_token@.len() == 0 ==> r == Err::<
            ObtainPlan,
            CredentialError,
        >(CredentialError::NotConfigured),
{
    if cfg.access_token.as_str().unicode_len() > 0 {
        Ok(
            ObtainPlan::UseStatic(
                Credential {
                    value: cfg.access_token.clone(),
                    source: CredentialSource::CachedConfigured,
                },
            ),
        )
    } else if cfg.refresh_token.as_str().unicode_len() > 0 {
        Ok(ObtainPlan::ExchangeRefreshToken)
    } else {
        Err(CredentialError::NotConfigured)
    }
}

/// The token-endpoint URL for the refresh exchange; a missing refresh
/// secret or client identity fails before any request exists.
pub fn refresh_request_url(cfg: &OpenApiConfig) -> (r: Result<String, CredentialError>)
    ensures
        cfg.client_id@.len() == 0 || cfg.client_secret@.len() == 0 ==> r == Err::<
            String,
            CredentialError,
        >(CredentialError::RefreshFailed(RefreshReason::MissingClientIdentity)),
        cfg.client_id@.len() > 0 && cfg.client_secret@.len() > 0 && cfg.refresh_token@.len() == 0
            ==> r == Err::<String, CredentialError>(
            CredentialError::RefreshFailed(RefreshReason::MissingRefreshSecret),
        ),
        cfg.client_id@.len() > 0 && cfg.client_secret@.len() > 0 && cfg.refresh_token@.len() > 0
            ==> {
            &&& r is Ok
            &&& r->Ok_0@ == "https://openapi.baidu.com/oauth/2.0/token?grant_type=refresh_token&refresh_token="@
                + encoding::percent_encoded(cfg.refresh_token@) + "&client_id="@
                + encoding::percent_encoded(cfg.client_id@) + "&client_secret="@
                + encoding::percent_encoded(cfg.client_secret@)
        },
{
    if cfg.client_id.as_str().unicode_len() == 0 || cfg.client_secret.as_str().unicode_len()
        == 0 {
        return Err(CredentialError::RefreshFailed(RefreshReason::MissingClientIdentity));
    }
    if cfg.refresh_token.as_str().unicode_len() == 0 {
        return Err(CredentialError::RefreshFailed(RefreshReason::MissingRefreshSecret));
    }
    let mut r = String::from_str(
        "https://openapi.baidu.com/oauth/2.0/token?grant_type=refresh_token&refresh_token=",
    );
    r.append(encoding::percent_encode(cfg.refresh_token.as_str()).as_str());
    r.append("&client_id=");
    r.append(encoding::percent_encode(cfg.client_id.as_str()).as_str());
    r.append("&client_secret=");
    r.append(encoding::percent_encode(cfg.client_secret.as_str()).as_str());
    Ok(r)
}

/// The token endpoint's reply, as decoded by the I/O layer; absent fields
/// arrive as their defaults.
pub struct RawTokenReply {
    pub access_token: String,
    pub refresh_token: String,
    pub error: Option<String>,
    pub error_description: Option<String>,
}

/// Decides what the refresh exchange returned: a non-success HTTP status,
/// an undecodable body, an error field, or an empty credential each fail
/// with its own reason; otherwise the reply's credential is the result,
/// marked as freshly refreshed. Persisting it is the caller's follow-up and
/// is best-effort only.
pub fn interpret_refresh_reply(status: u16, body: Option<RawTokenReply>) -> (r: Result<
    Credential,
    CredentialError,
>)
    ensures
        !(200 <= status < 300) ==> r == Err::<Credential, CredentialError>(
            CredentialError::RefreshFailed(RefreshReason::HttpStatus(status)),
        ),
        200 <= status < 300 ==> match body {
            None => r == Err::<Credential, CredentialError>(
                CredentialError::RefreshFailed(RefreshReason::UnreadableReply),
            ),
            Some(b) => {
                &&& b.error is Some ==> r == Err::<Credential, CredentialError>(
                    CredentialError::RefreshFailed(RefreshReason::ErrorReply),
                )
                &&& (b.error is None && b.access_token@.len() == 0) ==> r == Err::<
                    Credential,
                    CredentialError,
                >(CredentialError::RefreshFailed(RefreshReason::EmptyCredential))
                &&& (b.error is None && b.access_token@.len() > 0) ==> {
                    &&& r is Ok
                    &&& r->Ok_0.value@ == b.access_token@
                    &&& r->Ok_0.source == CredentialSource::RefreshedFromRefreshToken
                }
            },
        },
{
    if !(200 <= status && status < 300) {
        return Err(CredentialError::RefreshFailed(RefreshReason::HttpStatus(status)));
    }
    match body {
        None => Err(CredentialError::RefreshFailed(RefreshReason::UnreadableReply)),
        Some(b) => {
            if b.error.is_some() {
                return Err(CredentialError::RefreshFailed(RefreshReason::ErrorReply));
            }
            if b.access_token.as_str().unicode_len() == 0 {
                return Err(CredentialError::RefreshFailed(RefreshReason::EmptyCredential));
            }
            Ok(
                Credential {
                    value: b.access_token,
                    source: CredentialSource::RefreshedFromRefreshToken,
                },
            )
        },
    }
}

} // verus!
