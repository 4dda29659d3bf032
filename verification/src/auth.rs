//! Credentials of the second client: API keys, auth tokens, and the Agent Code
//! OAuth login kept in the macOS Keychain.
use vstd::prelude::*;

use crate::errors::{AppError, AppErrorView};
use crate::json::{jget, jget_str, jget_u64, json_parse, parse_json};
use crate::process::{debug_str, str_debug, CommandOutput};
use crate::text::{concat, dec, fmt_u64, push_str, to_string, trim, trim_seq};

verus! {

/// How requests are authenticated.
pub enum Credential {
    ApiKey { api_key: String, base_url: String },
    AuthToken { token: String, base_url: String },
    ClaudeCodeOAuth { access_token: String, expires_at: u64 },
}

pub enum CredentialView {
    ApiKey { api_key: Seq<char>, base_url: Seq<char> },
    AuthToken { token: Seq<char>, base_url: Seq<char> },
    ClaudeCodeOAuth { access_token: Seq<char>, expires_at: u64 },
}

impl View for Credential {
    type V = CredentialView;

    open spec fn view(&self) -> CredentialView {
        match self {
            Credential::ApiKey { api_key, base_url } => CredentialView::ApiKey {
                api_key: api_key@,
                base_url: base_url@,
            },
            Credential::AuthToken { token, base_url } => CredentialView::AuthToken {
                token: token@,
                base_url: base_url@,
            },
            Credential::ClaudeCodeOAuth { access_token, expires_at } => CredentialView::ClaudeCodeOAuth {
                access_token: access_token@,
                expires_at: *expires_at,
            },
        }
    }
}

/// The API's base URL.
pub open spec fn base_url_of(c: CredentialView) -> Seq<char> {
    match c {
        CredentialView::ApiKey { base_url, .. } => base_url,
        CredentialView::AuthToken { base_url, .. } => base_url,
        CredentialView::ClaudeCodeOAuth { .. } => "https://api.anthropic.com"@,
    }
}

/// Tokens (OAuth and auth tokens) are sent as bearer tokens.
pub open spec fn is_oauth_cred(c: CredentialView) -> bool {
    c is ClaudeCodeOAuth || c is AuthToken
}

/// The debug text of a credential, with the secret replaced.
pub open spec fn redacted_text(c: CredentialView) -> Seq<char> {
    match c {
        CredentialView::ApiKey { base_url, .. } => "ApiKey { api_key: \"[redacted]\", base_url: "@
            + str_debug(base_url) + " }"@,
        CredentialView::AuthToken { base_url, .. } => "AuthToken { token: \"[redacted]\", base_url: "@
            + str_debug(base_url) + " }"@,
        CredentialView::ClaudeCodeOAuth { expires_at, .. } =>
            "ClaudeCodeOAuth { access_token: \"[redacted]\", expires_at: "@ + dec(expires_at as nat)
            + " }"@,
    }
}

/// The credential with its secret (key or token) replaced by `secret`.
pub open spec fn with_secret(c: CredentialView, secret: Seq<char>) -> CredentialView {
    match c {
        CredentialView::ApiKey { base_url, .. } => CredentialView::ApiKey { api_key: secret, base_url },
        CredentialView::AuthToken { base_url, .. } => CredentialView::AuthToken { token: secret, base_url },
        CredentialView::ClaudeCodeOAuth { expires_at, .. } => CredentialView::ClaudeCodeOAuth {
            access_token: secret,
            expires_at,
        },
    }
}

/// The redacted debug text does not depend on the secret: two credentials that
/// differ in their secret alone have the same text.
pub proof fn redacted_ignores_secret(c: CredentialView, secret: Seq<char>)
    ensures
        redacted_text(with_secret(c, secret)) == redacted_text(c),
{
}

impl Credential {
    /// The API's base URL.
    pub fn base_url(&self) -> (r: &str)
        ensures
            r@ == base_url_of(self@),
    {
        match self {
            Credential::ApiKey { base_url, .. } => base_url.as_str(),
            Credential::AuthToken { base_url, .. } => base_url.as_str(),
            Credential::ClaudeCodeOAuth { .. } => "https://api.anthropic.com",
        }
    }

    /// Whether the credential is a bearer token.
    pub fn is_oauth(&self) -> (r: bool)
        ensures
            r == is_oauth_cred(self@),
    {
        match self {
            Credential::ClaudeCodeOAuth { .. } | Credential::AuthToken { .. } => true,
            _ => false,
        }
    }

    /// The debug text of the credential, with the secret written as `"[redacted]"`
    /// and the base URL in its debug form.
    pub fn redacted(&self) -> (r: String)
        ensures
            r@ == redacted_text(self@),
    {
        match self {
            Credential::ApiKey { base_url, .. } => {
                let mut r = to_string("ApiKey { api_key: \"[redacted]\", base_url: ");
                let d = debug_str(base_url.as_str());
                push_str(&mut r, d.as_str());
                push_str(&mut r, " }");
                r
            },
            Credential::AuthToken { base_url, .. } => {
                let mut r = to_string("AuthToken { token: \"[redacted]\", base_url: ");
                let d = debug_str(base_url.as_str());
                push_str(&mut r, d.as_str());
                push_str(&mut r, " }");
                r
            },
            Credential::ClaudeCodeOAuth { expires_at, .. } => {
                let mut r = to_string("ClaudeCodeOAuth { access_token: \"[redacted]\", expires_at: ");
                let d = fmt_u64(*expires_at);
                push_str(&mut r, d.as_str());
                push_str(&mut r, " }");
                r
            },
        }
    }

    /// A copy of the credential.
    pub fn copy(&self) -> (r: Credential)
        ensures
            r@ == self@,
    {
        match self {
            Credential::ApiKey { api_key, base_url } => Credential::ApiKey {
                api_key: api_key.clone(),
                base_url: base_url.clone(),
            },
            Credential::AuthToken { token, base_url } => Credential::AuthToken {
                token: token.clone(),
                base_url: base_url.clone(),
            },
            Credential::ClaudeCodeOAuth { access_token, expires_at } => Credential::ClaudeCodeOAuth {
                access_token: access_token.clone(),
                expires_at: *expires_at,
            },
        }
    }
}

pub open spec fn cred_result_view(r: Result<Credential, AppError>) -> Result<
    CredentialView,
    AppErrorView,
> {
    match r {
        Ok(c) => Ok(c@),
        Err(e) => Err(e@),
    }
}

pub open spec fn output_view(o: Result<CommandOutput, String>) -> Result<
    (bool, Seq<char>),
    Seq<char>,
> {
    match o {
        Ok(out) => Ok((out.success, out.stdout@)),
        Err(e) => Err(e@),
    }
}

/// The OAuth login that a Keychain lookup gives at time `now_ms` (milliseconds
/// since the epoch): the lookup must have succeeded, its trimmed output must be
/// JSON with a `claudeAiOauth` object holding a string `accessToken`; a positive
/// `expiresAt` that `now_ms` has passed means the token expired.
pub open spec fn keychain_oauth(output: Result<(bool, Seq<char>), Seq<char>>, now_ms: u64) -> Result<
    CredentialView,
    AppErrorView,
> {
    match output {
        Err(e) => Err(AppErrorView::Provider("failed to run `security`: "@ + e)),
        Ok((success, stdout)) => if !success {
            Err(AppErrorView::Provider("no Agent Code credentials in Keychain"@))
        } else {
            match json_parse(trim_seq(stdout)) {
                Err(e) => Err(AppErrorView::Provider("failed to parse Keychain JSON: "@ + e)),
                Ok(v) => match jget(v, "claudeAiOauth"@) {
                    None => Err(AppErrorView::Provider("no claudeAiOauth in Keychain data"@)),
                    Some(o) => match jget_str(o, "accessToken"@) {
                        None => Err(AppErrorView::Provider("no accessToken in OAuth data"@)),
                        Some(t) => {
                            let exp = match jget_u64(o, "expiresAt"@) {
                                Some(x) => x,
                                None => 0,
                            };
                            if exp > 0 && now_ms > exp {
                                Err(
                                    AppErrorView::Provider(
                                        "Agent Code OAuth token expired. Run `agent` to refresh your session."@,
                                    ),
                                )
                            } else {
                                Ok(CredentialView::ClaudeCodeOAuth { access_token: t, expires_at: exp })
                            }
                        },
                    },
                },
            }
        },
    }
}

/// Reads the Agent Code OAuth login out of the Keychain lookup's outcome at
/// time `now_ms`.
pub fn resolve_keychain_oauth(output: Result<CommandOutput, String>, now_ms: u64) -> (r: Result<
    Credential,
    AppError,
>)
    ensures
        cred_result_view(r) == keychain_oauth(output_view(output), now_ms),
{
    let out = match output {
        Err(e) => return Err(AppError::Provider(concat("failed to run `security`: ", e.as_str()))),
        Ok(o) => o,
    };
    if !out.success {
        return Err(AppError::Provider(to_string("no Agent Code credentials in Keychain")));
    }
    let json_str = trim(out.stdout.as_str());
    let parsed = match parse_json(json_str.as_str()) {
        Err(e) => return Err(
            AppError::Provider(concat("failed to parse Keychain JSON: ", e.as_str())),
        ),
        Ok(v) => v,
    };
    let oauth = match parsed.get("claudeAiOauth") {
        Some(o) => o,
        None => return Err(AppError::Provider(to_string("no claudeAiOauth in Keychain data"))),
    };
    let access_token = match oauth.get_str("accessToken") {
        Some(t) => to_string(t),
        None => return Err(AppError::Provider(to_string("no accessToken in OAuth data"))),
    };
    let expires_at = match oauth.get_u64("expiresAt") {
        Some(x) => x,
        None => 0,
    };
    if expires_at > 0 && now_ms > expires_at {
        return Err(
            AppError::Provider(
                to_string("Agent Code OAuth token expired. Run `agent` to refresh your session."),
            ),
        );
    }
    Ok(Credential::ClaudeCodeOAuth { access_token, expires_at })
}

/// Credentials in priority order: `ANTHROPIC_API_KEY`, then the Keychain's
/// OAuth login, then `OPENROUTER_API_KEY`.
pub open spec fn resolved(
    anthropic_key: Option<Seq<char>>,
    keychain: Result<CredentialView, AppErrorView>,
    openrouter_key: Option<Seq<char>>,
) -> Result<CredentialView, AppErrorView> {
    match anthropic_key {
        Some(k) => Ok(CredentialView::ApiKey { api_key: k, base_url: "https://api.anthropic.com"@ }),
        None => match keychain {
            Ok(c) => Ok(c),
            Err(_) => match openrouter_key {
                Some(k) => Ok(CredentialView::ApiKey { api_key: k, base_url: "https://openrouter.ai/api"@ }),
                None => Err(
                    AppErrorView::Provider(
                        "no credentials found. Set ANTHROPIC_API_KEY, OPENROUTER_API_KEY, or log in with `agent`"@,
                    ),
                ),
            },
        },
    }
}

/// The order in which credentials are tried: a given `ANTHROPIC_API_KEY` is
/// used against the Anthropic API whatever the Keychain and
/// `OPENROUTER_API_KEY` hold; without it the Keychain's login is used when
/// there is one; then `OPENROUTER_API_KEY` against OpenRouter; with none of
/// them the answer is a provider error saying that no credentials were found.
pub proof fn credential_priority(
    anthropic_key: Option<Seq<char>>,
    keychain: Result<CredentialView, AppErrorView>,
    openrouter_key: Option<Seq<char>>,
    other_keychain: Result<CredentialView, AppErrorView>,
    other_openrouter_key: Option<Seq<char>>,
)
    ensures
        anthropic_key matches Some(k) ==> resolved(anthropic_key, keychain, openrouter_key) == Ok::<
            CredentialView,
            AppErrorView,
        >(CredentialView::ApiKey { api_key: k, base_url: "https://api.anthropic.com"@ }),
        anthropic_key is Some ==> resolved(anthropic_key, keychain, openrouter_key) == resolved(
            anthropic_key,
            other_keychain,
            other_openrouter_key,
        ),
        anthropic_key is None && keychain is Ok ==> resolved(anthropic_key, keychain, openrouter_key)
            == keychain,
        anthropic_key is None && keychain is Ok ==> resolved(anthropic_key, keychain, openrouter_key)
            == resolved(anthropic_key, keychain, other_openrouter_key),
        anthropic_key is None && keychain is Err ==> (openrouter_key matches Some(k) ==> resolved(
            anthropic_key,
            keychain,
            openrouter_key,
        ) == Ok::<CredentialView, AppErrorView>(
            CredentialView::ApiKey { api_key: k, base_url: "https://openrouter.ai/api"@ },
        )),
        anthropic_key is None && keychain is Err && openrouter_key is None ==> (resolved(
            anthropic_key,
            keychain,
            openrouter_key,
        ) matches Err(AppErrorView::Provider(m)) && "no credentials found."@.is_prefix_of(m)),
{
    reveal_strlit("no credentials found.");
    reveal_strlit(
        "no credentials found. Set ANTHROPIC_API_KEY, OPENROUTER_API_KEY, or log in with `agent`",
    );
}

pub open spec fn opt_view(o: Option<String>) -> Option<Seq<char>> {
    match o {
        Some(s) => Some(s@),
        None => None,
    }
}

/// Resolves the credential from the `ANTHROPIC_API_KEY` value, the Keychain
/// lookup's result (consulted without that key) and the `OPENROUTER_API_KEY`
/// value (consulted when neither gave one).
pub fn resolve_credential(
    anthropic_key: Option<String>,
    keychain: Result<Credential, AppError>,
    openrouter_key: Option<String>,
) -> (r: Result<Credential, AppError>)
    ensures
        cred_result_view(r) == resolved(
            opt_view(anthropic_key),
            cred_result_view(keychain),
            opt_view(openrouter_key),
        ),
{
    if let Some(key) = anthropic_key {
        return Ok(Credential::ApiKey { api_key: key, base_url: to_string("https://api.anthropic.com") });
    }
    if let Ok(cred) = keychain {
        return Ok(cred);
    }
    if let Some(key) = openrouter_key {
        return Ok(Credential::ApiKey { api_key: key, base_url: to_string("https://openrouter.ai/api") });
    }
    Err(
        AppError::Provider(
            to_string(
                "no credentials found. Set ANTHROPIC_API_KEY, OPENROUTER_API_KEY, or log in with `agent`",
            ),
        ),
    )
}

} // verus!
