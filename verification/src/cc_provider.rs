//! The first client's connection to the Messages API: the request it sends
//! and the errors it reports.
use vstd::prelude::*;

use crate::cc_auth::{base_url_of, header_value, Credential, CredentialView};
use crate::conversation::{Conversation, ConversationView};
use crate::errors::{AppError, AppErrorView};
use crate::json::{json_members_view, json_seq_view, Json, JsonView};
use crate::request::{body_head, push_body_head, push_tools, system_members, tools_member};
use crate::text::{concat, to_string, views};

verus! {

/// The model used when none is configured.
pub const DEFAULT_MODEL: &'static str = "agent-sonnet-4-20250514";

/// The largest answer asked for, in tokens.
pub const MAX_TOKENS: u64 = 8192;

/// Sends conversations to the Messages API.
pub struct AnthropicProvider {
    credential: Credential,
    model: String,
}

/// The request body: model, token limit, messages, streaming, the system
/// prompt when there is one, the tools when there are any.
pub open spec fn cc_request_body(model: Seq<char>, conv: ConversationView, tools: Seq<JsonView>) -> JsonView {
    JsonView::Object(
        body_head(model, MAX_TOKENS, conv.messages) + system_members(false, conv.system)
            + tools_member(tools),
    )
}

/// The base URL: the configured one, else the credential's.
pub open spec fn cc_base_url(env_base: Option<Seq<char>>, c: CredentialView) -> Seq<char> {
    match env_base {
        Some(b) => b,
        None => base_url_of(c),
    }
}

/// The headers of a request: the API version, the content type, and the
/// secret (as a bearer token for OAuth, as `x-api-key` otherwise).
pub open spec fn cc_headers(c: CredentialView) -> Seq<(Seq<char>, Seq<char>)> {
    seq![
        ("anthropic-version"@, "2023-06-01"@),
        ("content-type"@, "application/json"@),
        if c is OAuthToken {
            ("Authorization"@, "Bearer "@ + header_value(c))
        } else {
            ("x-api-key"@, header_value(c))
        },
    ]
}

pub open spec fn header_pairs(v: Seq<(String, String)>) -> Seq<(Seq<char>, Seq<char>)> {
    v.map_values(|p: (String, String)| (p.0@, p.1@))
}

impl AnthropicProvider {
    /// A provider for this credential, using the configured model (the
    /// `ANTHROPIC_MODEL` setting) or [`DEFAULT_MODEL`].
    pub fn new(credential: Credential, configured_model: Option<String>) -> (r: AnthropicProvider)
        ensures
            r.credential_view() == credential@,
            r.model_view() == match configured_model {
                Some(m) => m@,
                None => DEFAULT_MODEL@,
            },
    {
        let model = match configured_model {
            Some(m) => m,
            None => to_string(DEFAULT_MODEL),
        };
        AnthropicProvider { credential, model }
    }

    pub closed spec fn credential_view(&self) -> CredentialView {
        self.credential@
    }

    pub closed spec fn model_view(&self) -> Seq<char> {
        self.model@
    }

    /// The model requests are sent to.
    pub fn model(&self) -> (r: &str)
        ensures
            r@ == self.model_view(),
    {
        self.model.as_str()
    }

    /// The request body for a conversation and the tools' definitions.
    pub fn build_request_body(&self, conversation: &Conversation, tools: &Vec<Json>) -> (r: Json)
        ensures
            r@ == cc_request_body(self.model_view(), conversation@, json_seq_view(tools@)),
    {
        let mut m: Vec<(String, Json)> = Vec::new();
        assert(json_members_view(m@) =~= Seq::empty());
        push_body_head(&mut m, self.model.as_str(), MAX_TOKENS, &conversation.messages);
        let ghost head = json_members_view(m@);
        match &conversation.system {
            Some(s) => crate::json::push_member(&mut m, "system", Json::string(s.as_str())),
            None => {},
        }
        assert(json_members_view(m@) =~= head + system_members(false, conversation@.system));
        push_tools(&mut m, tools);
        assert(json_members_view(m@) =~= body_head(self.model@, MAX_TOKENS, conversation@.messages)
            + system_members(false, conversation@.system) + tools_member(json_seq_view(tools@)));
        Json::Object(m)
    }

    /// Where requests go: `<base>/v1/messages`, the base being the configured
    /// one (the `ANTHROPIC_BASE_URL` setting) or the credential's.
    pub fn request_url(&self, configured_base: Option<&str>) -> (r: String)
        ensures
            r@ == cc_base_url(crate::paths::opt_str_view(configured_base), self.credential_view())
                + "/v1/messages"@,
    {
        let base = match configured_base {
            Some(b) => b,
            None => self.credential.base_url(),
        };
        concat(base, "/v1/messages")
    }

    /// The headers of a request.
    pub fn request_headers(&self) -> (r: Vec<(String, String)>)
        ensures
            header_pairs(r@) == cc_headers(self.credential_view()),
    {
        let mut r: Vec<(String, String)> = Vec::new();
        r.push((to_string("anthropic-version"), to_string("2023-06-01")));
        r.push((to_string("content-type"), to_string("application/json")));
        let v = self.credential.auth_header_value();
        if self.credential.is_oauth() {
            r.push((to_string("Authorization"), concat("Bearer ", v.as_str())));
        } else {
            r.push((to_string("x-api-key"), v));
        }
        assert(header_pairs(r@) =~= cc_headers(self.credential@));
        r
    }
}

/// The error when a request cannot be sent.
pub fn request_failure(reason: &str) -> (e: AppError)
    ensures
        e@ == AppErrorView::Provider("request failed: "@ + reason@),
{
    AppError::Provider(concat("request failed: ", reason))
}

/// The error when the API answers with a failure status.
pub fn api_failure(status: &str, body: &str) -> (e: AppError)
    ensures
        e@ == AppErrorView::Provider("API returned "@ + status@ + ": "@ + body@),
{
    let a = concat("API returned ", status);
    let b = concat(a.as_str(), ": ");
    AppError::Provider(concat(b.as_str(), body))
}

} // verus!
