//! The second client's connection to the Messages API: the model it picks,
//! its thinking switch, and the requests it sends.
use vstd::prelude::*;

use crate::auth::{base_url_of, is_oauth_cred, Credential, CredentialView};
use crate::cc_provider::header_pairs;
use crate::conversation::{Conversation, ConversationView};
use crate::errors::{AppError, AppErrorView};
use crate::json::{json_seq_view, Json, JsonView};
use crate::request::{body_for, request_body};
use crate::text::{concat, str_eq, to_string};

verus! {

/// The model for API keys and tokens.
pub const DEFAULT_MODEL: &'static str = "anthropic/agent-sonnet-4-20250514";

/// The model for an OAuth login.
pub const OAUTH_DEFAULT_MODEL: &'static str = "agent-sonnet-4-6";

/// The model that plans in plan mode under `opusplan`.
pub const OPUS_MODEL: &'static str = "agent-opus-4-6";

/// The answer's size limit to start with, in tokens.
pub const MAX_TOKENS: u32 = 4096;

/// The beta features an OAuth request asks for.
pub const OAUTH_BETA_HEADER: &'static str =
    "oauth-2025-04-20,interleaved-thinking-2025-05-14,agent-code-20250219,prompt-caching-2024-07-31";

/// How the client introduces itself.
pub const USER_AGENT: &'static str = "agent-cli/2.1.87 (external, cli)";

/// Sends conversations to the Messages API.
pub struct AnthropicProvider {
    credential: Credential,
    model: String,
    thinking: bool,
    max_tokens: u32,
}

/// The model in use: the stored one, except that `opusplan` means the opus
/// model in plan mode and the default model otherwise.
pub open spec fn effective_model_of(stored: Seq<char>, plan_mode: bool, oauth: bool) -> Seq<char> {
    if stored == "opusplan"@ {
        if plan_mode {
            OPUS_MODEL@
        } else if oauth {
            OAUTH_DEFAULT_MODEL@
        } else {
            DEFAULT_MODEL@
        }
    } else {
        stored
    }
}

/// Where a request goes and the headers it carries.
pub struct RequestTarget {
    pub url: String,
    pub headers: Vec<(String, String)>,
}

/// The URL of a request for this credential.
pub open spec fn request_url_of(c: CredentialView) -> Seq<char> {
    if is_oauth_cred(c) {
        base_url_of(c) + "/v1/messages?beta=true"@
    } else {
        base_url_of(c) + "/v1/messages"@
    }
}

/// The headers of a request: a bearer token, the API version, and for OAuth
/// logins and tokens the beta features, browser access, the user agent, the
/// app and the content type; for API keys the key again, the content type and
/// prompt caching (with interleaved thinking when thinking is on).
pub open spec fn request_headers_of(c: CredentialView, thinking: bool) -> Seq<(Seq<char>, Seq<char>)> {
    match c {
        CredentialView::ApiKey { api_key, .. } => seq![
            ("Authorization"@, "Bearer "@ + api_key),
            ("x-api-key"@, api_key),
            ("anthropic-version"@, "2023-06-01"@),
            ("content-type"@, "application/json"@),
            (
                "anthropic-beta"@,
                if thinking {
                    "prompt-caching-2024-07-31,interleaved-thinking-2025-05-14"@
                } else {
                    "prompt-caching-2024-07-31"@
                },
            ),
        ],
        CredentialView::AuthToken { token, .. } => oauth_headers(token),
        CredentialView::ClaudeCodeOAuth { access_token, .. } => oauth_headers(access_token),
    }
}

pub open spec fn oauth_headers(token: Seq<char>) -> Seq<(Seq<char>, Seq<char>)> {
    seq![
        ("Authorization"@, "Bearer "@ + token),
        ("anthropic-version"@, "2023-06-01"@),
        ("anthropic-beta"@, OAUTH_BETA_HEADER@),
        ("anthropic-dangerous-direct-browser-access"@, "true"@),
        ("User-Agent"@, USER_AGENT@),
        ("x-app"@, "cli"@),
        ("content-type"@, "application/json"@),
    ]
}

fn pair(a: &str, b: &str) -> (r: (String, String))
    ensures
        r.0@ == a@,
        r.1@ == b@,
{
    (to_string(a), to_string(b))
}

fn oauth_header_list(token: &str) -> (r: Vec<(String, String)>)
    ensures
        header_pairs(r@) == oauth_headers(token@),
{
    let mut r: Vec<(String, String)> = Vec::new();
    r.push((to_string("Authorization"), concat("Bearer ", token)));
    r.push(pair("anthropic-version", "2023-06-01"));
    r.push(pair("anthropic-beta", OAUTH_BETA_HEADER));
    r.push(pair("anthropic-dangerous-direct-browser-access", "true"));
    r.push(pair("User-Agent", USER_AGENT));
    r.push(pair("x-app", "cli"));
    r.push(pair("content-type", "application/json"));
    assert(header_pairs(r@) =~= oauth_headers(token@));
    r
}

/// The usage endpoint's request: `<base>/api/oauth/usage` with the login's
/// bearer token.
pub open spec fn usage_headers(token: Seq<char>) -> Seq<(Seq<char>, Seq<char>)> {
    seq![
        ("Authorization"@, "Bearer "@ + token),
        ("anthropic-beta"@, "oauth-2025-04-20"@),
        ("anthropic-dangerous-direct-browser-access"@, "true"@),
        ("User-Agent"@, USER_AGENT@),
        ("Content-Type"@, "application/json"@),
    ]
}

impl AnthropicProvider {
    /// A provider for this credential: the OAuth default model for a login,
    /// the default model otherwise; thinking off; [`MAX_TOKENS`].
    pub fn new(credential: Credential) -> (r: AnthropicProvider)
        ensures
            r.credential_view() == credential@,
            r.stored_model() == if is_oauth_cred(credential@) {
                OAUTH_DEFAULT_MODEL@
            } else {
                DEFAULT_MODEL@
            },
            !r.thinking_view(),
            r.max_tokens_view() == MAX_TOKENS,
    {
        let model = if credential.is_oauth() {
            to_string(OAUTH_DEFAULT_MODEL)
        } else {
            to_string(DEFAULT_MODEL)
        };
        AnthropicProvider { credential, model, thinking: false, max_tokens: MAX_TOKENS }
    }

    pub closed spec fn credential_view(&self) -> CredentialView {
        self.credential@
    }

    pub closed spec fn stored_model(&self) -> Seq<char> {
        self.model@
    }

    pub closed spec fn thinking_view(&self) -> bool {
        self.thinking
    }

    pub closed spec fn max_tokens_view(&self) -> u32 {
        self.max_tokens
    }

    /// Stores the model to use.
    pub fn set_model(&mut self, model: &str)
        ensures
            final(self).stored_model() == model@,
            final(self).credential_view() == old(self).credential_view(),
            final(self).thinking_view() == old(self).thinking_view(),
            final(self).max_tokens_view() == old(self).max_tokens_view(),
    {
        self.model = to_string(model);
    }

    /// Sets the answer's size limit.
    pub fn set_max_tokens(&mut self, n: u32)
        ensures
            final(self).max_tokens_view() == n,
            final(self).stored_model() == old(self).stored_model(),
            final(self).credential_view() == old(self).credential_view(),
            final(self).thinking_view() == old(self).thinking_view(),
    {
        self.max_tokens = n;
    }

    pub fn max_tokens(&self) -> (r: u32)
        ensures
            r == self.max_tokens_view(),
    {
        self.max_tokens
    }

    /// The model in use, given whether plan mode is on.
    pub fn model_name(&self, plan_mode: bool) -> (r: String)
        ensures
            r@ == effective_model_of(self.stored_model(), plan_mode, is_oauth_cred(self.credential_view())),
    {
        self.effective_model(plan_mode)
    }

    fn effective_model(&self, plan_mode: bool) -> (r: String)
        ensures
            r@ == effective_model_of(self.model@, plan_mode, is_oauth_cred(self.credential@)),
    {
        proof {
            reveal_strlit("opusplan");
        }
        if str_eq(self.model.as_str(), "opusplan") {
            if plan_mode {
                to_string(OPUS_MODEL)
            } else if self.credential.is_oauth() {
                to_string(OAUTH_DEFAULT_MODEL)
            } else {
                to_string(DEFAULT_MODEL)
            }
        } else {
            self.model.clone()
        }
    }

    /// Turns thinking on or off and returns the new setting.
    pub fn toggle_thinking(&mut self) -> (r: bool)
        ensures
            r == !old(self).thinking_view(),
            final(self).thinking_view() == r,
            toggled(*old(self), *final(self)),
    {
        let next = !self.thinking;
        self.thinking = next;
        next
    }

    pub fn thinking_enabled(&self) -> (r: bool)
        ensures
            r == self.thinking_view(),
    {
        self.thinking
    }

    pub fn is_oauth(&self) -> (r: bool)
        ensures
            r == is_oauth_cred(self.credential_view()),
    {
        self.credential.is_oauth()
    }

    /// The body of a request for a conversation, given whether plan mode is on.
    pub fn request_body(&self, plan_mode: bool, conversation: &Conversation, tools: &Vec<Json>) -> (r: Json)
        ensures
            r@ == request_body(
                is_oauth_cred(self.credential_view()),
                effective_model_of(self.stored_model(), plan_mode, is_oauth_cred(self.credential_view())),
                conversation@,
                json_seq_view(tools@),
            ),
    {
        let model = self.effective_model(plan_mode);
        body_for(self.credential.is_oauth(), model.as_str(), conversation, tools)
    }

    /// Where a request goes and its headers.
    pub fn request_target(&self) -> (r: RequestTarget)
        ensures
            r.url@ == request_url_of(self.credential_view()),
            header_pairs(r.headers@) == request_headers_of(self.credential_view(), self.thinking_view()),
    {
        let base = self.credential.base_url();
        match &self.credential {
            Credential::ClaudeCodeOAuth { access_token, .. } => RequestTarget {
                url: concat(base, "/v1/messages?beta=true"),
                headers: oauth_header_list(access_token.as_str()),
            },
            Credential::AuthToken { token, .. } => RequestTarget {
                url: concat(base, "/v1/messages?beta=true"),
                headers: oauth_header_list(token.as_str()),
            },
            Credential::ApiKey { api_key, .. } => {
                let mut h: Vec<(String, String)> = Vec::new();
                h.push((to_string("Authorization"), concat("Bearer ", api_key.as_str())));
                h.push((to_string("x-api-key"), api_key.clone()));
                h.push(pair("anthropic-version", "2023-06-01"));
                h.push(pair("content-type", "application/json"));
                let beta = if self.thinking {
                    "prompt-caching-2024-07-31,interleaved-thinking-2025-05-14"
                } else {
                    "prompt-caching-2024-07-31"
                };
                h.push(pair("anthropic-beta", beta));
                assert(header_pairs(h@) =~= request_headers_of(self.credential@, self.thinking));
                RequestTarget { url: concat(base, "/v1/messages"), headers: h }
            },
        }
    }

    /// The usage endpoint's request, for an OAuth login only.
    pub fn usage_target(&self) -> (r: Result<RequestTarget, AppError>)
        ensures
            match self.credential_view() {
                CredentialView::ClaudeCodeOAuth { access_token, .. } => r matches Ok(t)
                    && t.url@ == base_url_of(self.credential_view()) + "/api/oauth/usage"@
                    && header_pairs(t.headers@) == usage_headers(access_token),
                _ => r matches Err(e) && e@ == AppErrorView::Provider(
                    "/usage is only available for Agent AI subscribers (OAuth login)"@,
                ),
            },
    {
        match &self.credential {
            Credential::ClaudeCodeOAuth { access_token, .. } => {
                let mut h: Vec<(String, String)> = Vec::new();
                h.push((to_string("Authorization"), concat("Bearer ", access_token.as_str())));
                h.push(pair("anthropic-beta", "oauth-2025-04-20"));
                h.push(pair("anthropic-dangerous-direct-browser-access", "true"));
                h.push(pair("User-Agent", USER_AGENT));
                h.push(pair("Content-Type", "application/json"));
                assert(header_pairs(h@) =~= usage_headers(access_token@));
                Ok(RequestTarget { url: concat(self.credential.base_url(), "/api/oauth/usage"), headers: h })
            },
            _ => Err(
                AppError::Provider(
                    to_string("/usage is only available for Agent AI subscribers (OAuth login)"),
                ),
            ),
        }
    }
}

/// `b` is `a` with thinking switched.
pub open spec fn toggled(a: AnthropicProvider, b: AnthropicProvider) -> bool {
    &&& b.thinking_view() == !a.thinking_view()
    &&& b.stored_model() == a.stored_model()
    &&& b.credential_view() == a.credential_view()
    &&& b.max_tokens_view() == a.max_tokens_view()
}

/// Two providers with the same settings.
pub open spec fn same_settings(a: AnthropicProvider, b: AnthropicProvider) -> bool {
    &&& b.thinking_view() == a.thinking_view()
    &&& b.stored_model() == a.stored_model()
    &&& b.credential_view() == a.credential_view()
    &&& b.max_tokens_view() == a.max_tokens_view()
}

/// Switching thinking twice leaves every setting as it was.
pub proof fn toggle_twice(a: AnthropicProvider, b: AnthropicProvider, c: AnthropicProvider)
    requires
        toggled(a, b),
        toggled(b, c),
    ensures
        same_settings(a, c),
{
}

/// Storing a model other than `opusplan` makes it the model in use, whatever
/// the mode.
pub proof fn set_model_then_name(model: Seq<char>, plan_mode: bool, oauth: bool)
    requires
        model != "opusplan"@,
    ensures
        effective_model_of(model, plan_mode, oauth) == model,
{
}

/// An error of the usage endpoint: `<what>: <reason>`.
pub fn usage_failure(what: &str, reason: &str) -> (e: AppError)
    ensures
        e@ == AppErrorView::Provider(what@ + ": "@ + reason@),
{
    let a = concat(what, ": ");
    AppError::Provider(concat(a.as_str(), reason))
}

} // verus!
