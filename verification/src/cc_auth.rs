//! Credentials of the first client: an API key, or an OAuth token found in the
//! macOS Keychain.
use vstd::prelude::*;

use crate::errors::{error_text, AppError, AppErrorView};
use crate::json::{jget, jget_str, json_parse, parse_json, JsonView};
use crate::process::CommandOutput;
use crate::text::{concat, to_string, trim, trim_seq};

verus! {

/// The Keychain service that holds the OAuth credentials.
pub const KEYCHAIN_SERVICE: &'static str = "Agent Code-credentials";

/// Where OAuth tokens are used.
pub const OAUTH_BASE_URL: &'static str = "https://api.agent.ai";

/// How requests are authenticated.
pub enum Credential {
    /// Raw API key against api.anthropic.com.
    ApiKey(String),
    /// OAuth access token against its own base URL.
    OAuthToken { access_token: String, base_url: String },
}

pub enum CredentialView {
    ApiKey(Seq<char>),
    OAuthToken { access_token: Seq<char>, base_url: Seq<char> },
}

impl View for Credential {
    type V = CredentialView;

    open spec fn view(&self) -> CredentialView {
        match self {
            Credential::ApiKey(k) => CredentialView::ApiKey(k@),
            Credential::OAuthToken { access_token, base_url } => CredentialView::OAuthToken {
                access_token: access_token@,
                base_url: base_url@,
            },
        }
    }
}

/// The secret sent with each request.
pub open spec fn header_value(c: CredentialView) -> Seq<char> {
    match c {
        CredentialView::ApiKey(k) => k,
        CredentialView::OAuthToken { access_token, .. } => access_token,
    }
}

/// The API's base URL.
pub open spec fn base_url_of(c: CredentialView) -> Seq<char> {
    match c {
        CredentialView::ApiKey(_) => "https://api.anthropic.com"@,
        CredentialView::OAuthToken { base_url, .. } => base_url,
    }
}

impl Credential {
    /// The secret sent with each request.
    pub fn auth_header_value(&self) -> (r: String)
        ensures
            r@ == header_value(self@),
    {
        match self {
            Credential::ApiKey(key) => key.clone(),
            Credential::OAuthToken { access_token, .. } => access_token.clone(),
        }
    }

    /// The API's base URL.
    pub fn base_url(&self) -> (r: &str)
        ensures
            r@ == base_url_of(self@),
    {
        match self {
            Credential::ApiKey(_) => "https://api.anthropic.com",
            Credential::OAuthToken { base_url, .. } => base_url.as_str(),
        }
    }

    /// Whether this is an OAuth token.
    pub fn is_oauth(&self) -> (r: bool)
        ensures
            r == self@ is OAuthToken,
    {
        match self {
            Credential::OAuthToken { .. } => true,
            _ => false,
        }
    }

    /// A copy of the credential.
    pub fn copy(&self) -> (r: Credential)
        ensures
            r@ == self@,
    {
        match self {
            Credential::ApiKey(k) => Credential::ApiKey(k.clone()),
            Credential::OAuthToken { access_token, base_url } => Credential::OAuthToken {
                access_token: access_token.clone(),
                base_url: base_url.clone(),
            },
        }
    }
}

/// The credential that a Keychain lookup gives: the process must have run and
/// succeeded, its trimmed output must be JSON, and `claudeAiOauth.accessToken`
/// must be a string.
pub open spec fn keychain_credential(
    output: Result<(bool, Seq<char>, Seq<char>), Seq<char>>,
) -> Result<CredentialView, AppErrorView> {
    match output {
        Err(e) => Err(AppErrorView::Provider("failed to run `security`: "@ + e)),
        Ok((success, stdout, stderr)) => if !success {
            Err(AppErrorView::Provider("keychain lookup failed: "@ + stderr))
        } else {
            match json_parse(trim_seq(stdout)) {
                Err(e) => Err(AppErrorView::Provider("failed to parse keychain JSON: "@ + e)),
                Ok(v) => match jget(v, "claudeAiOauth"@) {
                    Some(o) => match jget_str(o, "accessToken"@) {
                        Some(t) => Ok(
                            CredentialView::OAuthToken { access_token: t, base_url: "https://api.agent.ai"@ },
                        ),
                        None => Err(AppErrorView::Provider("no accessToken in keychain data"@)),
                    },
                    None => Err(AppErrorView::Provider("no accessToken in keychain data"@)),
                },
            }
        },
    }
}

pub open spec fn output_view(o: Result<CommandOutput, String>) -> Result<
    (bool, Seq<char>, Seq<char>),
    Seq<char>,
> {
    match o {
        Ok(out) => Ok((out.success, out.stdout@, out.stderr@)),
        Err(e) => Err(e@),
    }
}

pub open spec fn cred_result_view(r: Result<Credential, AppError>) -> Result<
    CredentialView,
    AppErrorView,
> {
    match r {
        Ok(c) => Ok(c@),
        Err(e) => Err(e@),
    }
}

/// Reads the OAuth credential out of the Keychain lookup's outcome (`security
/// find-generic-password -s <service> -w`, or the error that kept it from
/// running).
pub fn read_keychain_credential(output: Result<CommandOutput, String>) -> (r: Result<
    Credential,
    AppError,
>)
    ensures
        cred_result_view(r) == keychain_credential(output_view(output)),
{
    let out = match output {
        Err(e) => return Err(AppError::Provider(concat("failed to run `security`: ", e.as_str()))),
        Ok(o) => o,
    };
    if !out.success {
        return Err(AppError::Provider(concat("keychain lookup failed: ", out.stderr.as_str())));
    }
    let raw = trim(out.stdout.as_str());
    let json = match parse_json(raw.as_str()) {
        Err(e) => return Err(
            AppError::Provider(concat("failed to parse keychain JSON: ", e.as_str())),
        ),
        Ok(v) => v,
    };
    let token = match json.get("claudeAiOauth") {
        Some(o) => match o.get_str("accessToken") {
            Some(t) => to_string(t),
            None => return Err(AppError::Provider(to_string("no accessToken in keychain data"))),
        },
        None => return Err(AppError::Provider(to_string("no accessToken in keychain data"))),
    };
    Ok(Credential::OAuthToken { access_token: token, base_url: to_string(OAUTH_BASE_URL) })
}

/// Credentials in priority order: the `ANTHROPIC_API_KEY` value, else the
/// Keychain's OAuth token, else an error that carries the Keychain's error.
pub open spec fn resolved(api_key: Option<Seq<char>>, keychain: Result<CredentialView, AppErrorView>) -> Result<
    CredentialView,
    AppErrorView,
> {
    match api_key {
        Some(k) => Ok(CredentialView::ApiKey(k)),
        None => match keychain {
            Ok(c) => Ok(c),
            Err(e) => Err(
                AppErrorView::Provider(
                    "no credentials found. Set ANTHROPIC_API_KEY or log in with Agent Code first. Keychain error: "@
                        + error_text(e),
                ),
            ),
        },
    }
}

/// Resolves the credential from the `ANTHROPIC_API_KEY` value, if set, and
/// otherwise from the Keychain lookup's result (only consulted without a key).
pub fn resolve_credential(api_key: Option<String>, keychain: Result<Credential, AppError>) -> (r:
    Result<Credential, AppError>)
    ensures
        cred_result_view(r) == resolved(
            match api_key {
                Some(k) => Some(k@),
                None => None,
            },
            cred_result_view(keychain),
        ),
{
    match api_key {
        Some(key) => Ok(Credential::ApiKey(key)),
        None => match keychain {
            Ok(c) => Ok(c),
            Err(e) => {
                let m = e.message();
                Err(
                    AppError::Provider(
                        concat(
                            "no credentials found. Set ANTHROPIC_API_KEY or log in with Agent Code first. Keychain error: ",
                            m.as_str(),
                        ),
                    ),
                )
            },
        },
    }
}

} // verus!
