//! Settings: their layers, how they combine, and the model and shell they pick.
use vstd::prelude::*;

use crate::json::{
    json_members_view, json_parse, json_pretty_text, json_to_string_pretty, parse_json, set_member,
    upsert, Json, JsonView,
};
use crate::paths::{home_or_dot, home_or_current, join_path, opt_str_view, path_join};
use crate::strmap::StrMap;
use crate::text::{str_eq, to_string, views};

verus! {

/// Which tools are allowed or denied without asking.
pub struct PermissionSettings {
    pub allow: Vec<String>,
    pub deny: Vec<String>,
}

/// A shell command run around tool use; `matcher`, when set and non-empty,
/// restricts it to tools whose name contains it.
pub struct HookEntry {
    pub matcher: Option<String>,
    pub command: String,
}

/// The hooks of each kind.
pub struct HooksConfig {
    pub pre_tool_use: Vec<HookEntry>,
    pub post_tool_use: Vec<HookEntry>,
    pub stop: Vec<HookEntry>,
    pub session_start: Vec<HookEntry>,
}

/// One layer of settings (global or project).
pub struct Settings {
    pub permissions: PermissionSettings,
    pub model: Option<String>,
    pub env: StrMap,
    pub hooks: HooksConfig,
    pub max_turns: Option<u32>,
    pub max_tokens: Option<u32>,
}

pub struct HookEntryView {
    pub matcher: Option<Seq<char>>,
    pub command: Seq<char>,
}

#[verifier::ext_equal]
pub struct HooksView {
    pub pre_tool_use: Seq<HookEntryView>,
    pub post_tool_use: Seq<HookEntryView>,
    pub stop: Seq<HookEntryView>,
    pub session_start: Seq<HookEntryView>,
}

#[verifier::ext_equal]
pub struct SettingsView {
    pub allow: Seq<Seq<char>>,
    pub deny: Seq<Seq<char>>,
    pub model: Option<Seq<char>>,
    pub env: Map<Seq<char>, Seq<char>>,
    pub hooks: HooksView,
    pub max_turns: Option<u32>,
    pub max_tokens: Option<u32>,
}

impl View for HookEntry {
    type V = HookEntryView;

    open spec fn view(&self) -> HookEntryView {
        HookEntryView {
            matcher: match self.matcher {
                Some(m) => Some(m@),
                None => None,
            },
            command: self.command@,
        }
    }
}

pub open spec fn entries_view(v: Seq<HookEntry>) -> Seq<HookEntryView> {
    v.map_values(|e: HookEntry| e@)
}

impl View for HooksConfig {
    type V = HooksView;

    open spec fn view(&self) -> HooksView {
        HooksView {
            pre_tool_use: entries_view(self.pre_tool_use@),
            post_tool_use: entries_view(self.post_tool_use@),
            stop: entries_view(self.stop@),
            session_start: entries_view(self.session_start@),
        }
    }
}

impl View for Settings {
    type V = SettingsView;

    open spec fn view(&self) -> SettingsView {
        SettingsView {
            allow: views(self.permissions.allow@),
            deny: views(self.permissions.deny@),
            model: match self.model {
                Some(m) => Some(m@),
                None => None,
            },
            env: self.env@,
            hooks: self.hooks@,
            max_turns: self.max_turns,
            max_tokens: self.max_tokens,
        }
    }
}

/// Settings with nothing in them.
pub open spec fn empty_settings() -> SettingsView {
    SettingsView {
        allow: Seq::empty(),
        deny: Seq::empty(),
        model: None,
        env: Map::empty(),
        hooks: HooksView {
            pre_tool_use: Seq::empty(),
            post_tool_use: Seq::empty(),
            stop: Seq::empty(),
            session_start: Seq::empty(),
        },
        max_turns: None,
        max_tokens: None,
    }
}

impl Default for PermissionSettings {
    fn default() -> (p: PermissionSettings)
        ensures
            views(p.allow@) == Seq::<Seq<char>>::empty(),
            views(p.deny@) == Seq::<Seq<char>>::empty(),
    {
        let p = PermissionSettings { allow: Vec::new(), deny: Vec::new() };
        assert(views(p.allow@) =~= Seq::<Seq<char>>::empty());
        assert(views(p.deny@) =~= Seq::<Seq<char>>::empty());
        p
    }
}

impl Default for HooksConfig {
    fn default() -> (h: HooksConfig)
        ensures
            h@ == empty_settings().hooks,
    {
        let h = HooksConfig {
            pre_tool_use: Vec::new(),
            post_tool_use: Vec::new(),
            stop: Vec::new(),
            session_start: Vec::new(),
        };
        assert(h@ =~= empty_settings().hooks);
        h
    }
}

impl Default for Settings {
    fn default() -> (s: Settings)
        ensures
            s@ == empty_settings(),
    {
        let s = Settings {
            permissions: PermissionSettings::default(),
            model: None,
            env: StrMap::new(),
            hooks: HooksConfig::default(),
            max_turns: None,
            max_tokens: None,
        };
        assert(s@ =~= empty_settings());
        s
    }
}

/// `a.or(b)` on optional values.
pub open spec fn or_else<T>(a: Option<T>, b: Option<T>) -> Option<T> {
    match a {
        Some(x) => Some(x),
        None => b,
    }
}

/// Two layers combined: lists are concatenated (global first), the project's
/// environment overrides the global one key by key, and the project's scalar
/// settings win when they are set.
pub open spec fn merged(g: SettingsView, p: SettingsView) -> SettingsView {
    SettingsView {
        allow: g.allow + p.allow,
        deny: g.deny + p.deny,
        model: or_else(p.model, g.model),
        env: g.env.union_prefer_right(p.env),
        hooks: HooksView {
            pre_tool_use: g.hooks.pre_tool_use + p.hooks.pre_tool_use,
            post_tool_use: g.hooks.post_tool_use + p.hooks.post_tool_use,
            stop: g.hooks.stop + p.hooks.stop,
            session_start: g.hooks.session_start + p.hooks.session_start,
        },
        max_turns: or_else(p.max_turns, g.max_turns),
        max_tokens: or_else(p.max_tokens, g.max_tokens),
    }
}

/// Concatenates two lists of strings.
fn concat_strings(mut a: Vec<String>, mut b: Vec<String>) -> (r: Vec<String>)
    ensures
        views(r@) == views(a@) + views(b@),
{
    let ghost a0 = a@;
    let ghost b0 = b@;
    a.append(&mut b);
    assert(views(a@) =~= views(a0) + views(b0));
    a
}

/// Concatenates two lists of hooks.
fn concat_entries(mut a: Vec<HookEntry>, mut b: Vec<HookEntry>) -> (r: Vec<HookEntry>)
    ensures
        entries_view(r@) == entries_view(a@) + entries_view(b@),
{
    let ghost a0 = a@;
    let ghost b0 = b@;
    a.append(&mut b);
    assert(entries_view(a@) =~= entries_view(a0) + entries_view(b0));
    a
}

/// Combines the global and the project settings.
pub fn merge(global: Settings, project: Settings) -> (r: Settings)
    ensures
        r@ == merged(global@, project@),
        project@.model is Some ==> r@.model == project@.model,
        project@.model is None ==> r@.model == global@.model,
        project@.max_turns is Some ==> r@.max_turns == project@.max_turns,
        project@.max_turns is None ==> r@.max_turns == global@.max_turns,
        project@.max_tokens is Some ==> r@.max_tokens == project@.max_tokens,
        project@.max_tokens is None ==> r@.max_tokens == global@.max_tokens,
{
    let Settings {
        permissions: gp,
        model: gm,
        env: genv,
        hooks: gh,
        max_turns: gt,
        max_tokens: gk,
    } = global;
    let Settings {
        permissions: pp,
        model: pm,
        env: penv,
        hooks: ph,
        max_turns: pt,
        max_tokens: pk,
    } = project;
    let allow = concat_strings(gp.allow, pp.allow);
    let deny = concat_strings(gp.deny, pp.deny);
    let pre_tool_use = concat_entries(gh.pre_tool_use, ph.pre_tool_use);
    let post_tool_use = concat_entries(gh.post_tool_use, ph.post_tool_use);
    let stop = concat_entries(gh.stop, ph.stop);
    let session_start = concat_entries(gh.session_start, ph.session_start);
    let mut env = genv.copy();
    env.extend(&penv);
    let model = match pm {
        Some(m) => Some(m),
        None => gm,
    };
    let max_turns = match pt {
        Some(m) => Some(m),
        None => gt,
    };
    let max_tokens = match pk {
        Some(m) => Some(m),
        None => gk,
    };
    let r = Settings {
        permissions: PermissionSettings { allow, deny },
        model,
        env,
        hooks: HooksConfig { pre_tool_use, post_tool_use, stop, session_start },
        max_turns,
        max_tokens,
    };
    assert(r@ =~= merged(global@, project@));
    r
}

/// What the project layer does to the global one: a scalar setting (model, turn
/// limit, token limit) set in the project is the merged value, and only one the
/// project leaves unset shows the global value; an environment variable the
/// project sets has the project's value, any other keeps the global one; the
/// allow and deny lists hold the global entries first, then the project's.
pub proof fn project_layer_wins(g: SettingsView, p: SettingsView, k: Seq<char>)
    ensures
        p.model is Some ==> merged(g, p).model == p.model,
        p.model is None ==> merged(g, p).model == g.model,
        p.max_turns is Some ==> merged(g, p).max_turns == p.max_turns,
        p.max_turns is None ==> merged(g, p).max_turns == g.max_turns,
        p.max_tokens is Some ==> merged(g, p).max_tokens == p.max_tokens,
        p.max_tokens is None ==> merged(g, p).max_tokens == g.max_tokens,
        p.env.dom().contains(k) ==> merged(g, p).env.dom().contains(k) && merged(g, p).env[k] == p.env[k],
        !p.env.dom().contains(k) ==> (merged(g, p).env.dom().contains(k) == g.env.dom().contains(k)),
        !p.env.dom().contains(k) && g.env.dom().contains(k) ==> merged(g, p).env[k] == g.env[k],
        merged(g, p).allow.len() == g.allow.len() + p.allow.len(),
        merged(g, p).allow.take(g.allow.len() as int) == g.allow,
        merged(g, p).allow.skip(g.allow.len() as int) == p.allow,
        merged(g, p).deny.len() == g.deny.len() + p.deny.len(),
        merged(g, p).deny.take(g.deny.len() as int) == g.deny,
        merged(g, p).deny.skip(g.deny.len() as int) == p.deny,
        merged(g, p).hooks.pre_tool_use.take(g.hooks.pre_tool_use.len() as int) == g.hooks.pre_tool_use,
        merged(g, p).hooks.pre_tool_use.skip(g.hooks.pre_tool_use.len() as int) == p.hooks.pre_tool_use,
        merged(g, p).hooks.post_tool_use.take(g.hooks.post_tool_use.len() as int) == g.hooks.post_tool_use,
        merged(g, p).hooks.post_tool_use.skip(g.hooks.post_tool_use.len() as int) == p.hooks.post_tool_use,
        merged(g, p).hooks.stop.take(g.hooks.stop.len() as int) == g.hooks.stop,
        merged(g, p).hooks.stop.skip(g.hooks.stop.len() as int) == p.hooks.stop,
        merged(g, p).hooks.session_start.take(g.hooks.session_start.len() as int) == g.hooks.session_start,
        merged(g, p).hooks.session_start.skip(g.hooks.session_start.len() as int) == p.hooks.session_start,
{
    let m = merged(g, p);
    assert(m.hooks.pre_tool_use.take(g.hooks.pre_tool_use.len() as int) =~= g.hooks.pre_tool_use);
    assert(m.hooks.pre_tool_use.skip(g.hooks.pre_tool_use.len() as int) =~= p.hooks.pre_tool_use);
    assert(m.hooks.post_tool_use.take(g.hooks.post_tool_use.len() as int) =~= g.hooks.post_tool_use);
    assert(m.hooks.post_tool_use.skip(g.hooks.post_tool_use.len() as int) =~= p.hooks.post_tool_use);
    assert(m.hooks.stop.take(g.hooks.stop.len() as int) =~= g.hooks.stop);
    assert(m.hooks.stop.skip(g.hooks.stop.len() as int) =~= p.hooks.stop);
    assert(m.hooks.session_start.take(g.hooks.session_start.len() as int) =~= g.hooks.session_start);
    assert(m.hooks.session_start.skip(g.hooks.session_start.len() as int) =~= p.hooks.session_start);
    assert(merged(g, p).allow.take(g.allow.len() as int) =~= g.allow);
    assert(merged(g, p).allow.skip(g.allow.len() as int) =~= p.allow);
    assert(merged(g, p).deny.take(g.deny.len() as int) =~= g.deny);
    assert(merged(g, p).deny.skip(g.deny.len() as int) =~= p.deny);
}

/// Combining with empty settings on either side changes nothing.
pub proof fn merge_identity(s: SettingsView)
    ensures
        merged(s, empty_settings()) == s,
        merged(empty_settings(), s) == s,
{
    assert(merged(s, empty_settings()) =~= s);
    assert(merged(empty_settings(), s) =~= s);
}

/// Combining layers is associative: three layers give the same settings
/// however they are grouped.
pub proof fn merge_associative(a: SettingsView, b: SettingsView, c: SettingsView)
    ensures
        merged(merged(a, b), c) == merged(a, merged(b, c)),
{
    assert(merged(merged(a, b), c).allow =~= merged(a, merged(b, c)).allow);
    assert(merged(merged(a, b), c).deny =~= merged(a, merged(b, c)).deny);
    assert(merged(merged(a, b), c).env =~= merged(a, merged(b, c)).env);
    assert(merged(merged(a, b), c).hooks.pre_tool_use =~= merged(a, merged(b, c)).hooks.pre_tool_use);
    assert(merged(merged(a, b), c).hooks.post_tool_use =~= merged(a, merged(b, c)).hooks.post_tool_use);
    assert(merged(merged(a, b), c).hooks.stop =~= merged(a, merged(b, c)).hooks.stop);
    assert(merged(merged(a, b), c).hooks.session_start =~= merged(a, merged(b, c)).hooks.session_start);
    assert(merged(merged(a, b), c) =~= merged(a, merged(b, c)));
}

// ---------------------------------------------------------------------------
// Models and platform
// ---------------------------------------------------------------------------

/// The model id for a tier name: `sonnet`, `opus` and `haiku` read their
/// override from the environment map or fall back to the default id; any other
/// name is a model id already.
pub open spec fn model_for_tier(tier: Seq<char>, env: Map<Seq<char>, Seq<char>>) -> Seq<char> {
    if tier == "sonnet"@ {
        if env.contains_key("ANTHROPIC_DEFAULT_SONNET_MODEL"@) {
            env["ANTHROPIC_DEFAULT_SONNET_MODEL"@]
        } else {
            "agent-sonnet-4-6"@
        }
    } else if tier == "opus"@ {
        if env.contains_key("ANTHROPIC_DEFAULT_OPUS_MODEL"@) {
            env["ANTHROPIC_DEFAULT_OPUS_MODEL"@]
        } else {
            "agent-opus-4-6"@
        }
    } else if tier == "haiku"@ {
        if env.contains_key("ANTHROPIC_DEFAULT_HAIKU_MODEL"@) {
            env["ANTHROPIC_DEFAULT_HAIKU_MODEL"@]
        } else {
            "agent-haiku-4-5-20251001"@
        }
    } else {
        tier
    }
}

/// The value of `key` in `env`, or `default`.
fn env_or(env: &StrMap, key: &str, default: &str) -> (r: String)
    ensures
        r@ == if env@.contains_key(key@) {
            env@[key@]
        } else {
            default@
        },
{
    match env.get(key) {
        Some(v) => v.clone(),
        None => to_string(default),
    }
}

/// Resolves a model tier name (`sonnet`, `opus`, `haiku`) to a model id.
pub fn resolve_model_tier(tier: &str, env: &StrMap) -> (r: String)
    ensures
        r@ == model_for_tier(tier@, env@),
{
    if str_eq(tier, "sonnet") {
        env_or(env, "ANTHROPIC_DEFAULT_SONNET_MODEL", "agent-sonnet-4-6")
    } else if str_eq(tier, "opus") {
        env_or(env, "ANTHROPIC_DEFAULT_OPUS_MODEL", "agent-opus-4-6")
    } else if str_eq(tier, "haiku") {
        env_or(env, "ANTHROPIC_DEFAULT_HAIKU_MODEL", "agent-haiku-4-5-20251001")
    } else {
        to_string(tier)
    }
}

/// The default model: the `sonnet` tier.
pub fn default_model(env: &StrMap) -> (r: String)
    ensures
        r@ == model_for_tier("sonnet"@, env@),
{
    resolve_model_tier("sonnet", env)
}

/// The program and flag that run a command string through the system shell.
pub fn shell_command(windows: bool) -> (r: (&'static str, &'static str))
    ensures
        windows ==> r.0@ == "cmd.exe"@ && r.1@ == "/C"@,
        !windows ==> r.0@ == "sh"@ && r.1@ == "-c"@,
{
    if windows {
        ("cmd.exe", "/C")
    } else {
        ("sh", "-c")
    }
}

/// `<home>/.agent/settings.json`.
pub open spec fn global_settings_of(home: Option<Seq<char>>) -> Seq<char> {
    path_join(path_join(home_or_dot(home), ".agent"@), "settings.json"@)
}

/// The global settings file, given the home directory if it is known.
pub fn global_settings_path(home: Option<&str>) -> (r: String)
    ensures
        r@ == global_settings_of(opt_str_view(home)),
{
    let h = home_or_current(home);
    let a = join_path(h.as_str(), ".agent");
    join_path(a.as_str(), "settings.json")
}

/// The project settings file, given the working directory if it is known.
pub fn project_settings_path(cwd: Option<&str>) -> (r: String)
    ensures
        r@ == global_settings_of(opt_str_view(cwd)),
{
    global_settings_path(cwd)
}

/// The settings value with the model set: the existing file's JSON (an empty
/// object when there is no file or it is not JSON) with its `model` member set
/// when it is an object, and left alone otherwise.
pub open spec fn with_model(existing: Option<Seq<char>>, model: Seq<char>) -> JsonView {
    let base = match existing {
        Some(t) => match json_parse(t) {
            Ok(v) => v,
            Err(_) => JsonView::Object(Seq::empty()),
        },
        None => JsonView::Object(Seq::empty()),
    };
    match base {
        JsonView::Object(m) => JsonView::Object(upsert(m, "model"@, JsonView::Str(model))),
        other => other,
    }
}

/// The text of the global settings file after `/model`: the existing text
/// (`None` when the file cannot be read) with the model replaced, every other
/// member kept.
pub fn settings_with_model(existing: Option<&str>, model: &str) -> (r: String)
    ensures
        r@ == json_pretty_text(with_model(opt_str_view(existing), model@)),
{
    let base = match existing {
        Some(t) => match parse_json(t) {
            Ok(v) => v,
            Err(_) => Json::Object(Vec::new()),
        },
        None => Json::Object(Vec::new()),
    };
    proof {
        assert(json_members_view(Seq::<(String, Json)>::empty()) =~= Seq::empty());
    }
    let updated = match base {
        Json::Object(mut m) => {
            set_member(&mut m, "model", Json::string(model));
            Json::Object(m)
        },
        other => other,
    };
    json_to_string_pretty(&updated)
}

/// Saving a model changes only the model: every other member of a settings
/// object keeps its value, and the model member holds the new model.
pub proof fn save_model_keeps_other_fields(existing: Option<Seq<char>>, model: Seq<char>, key: Seq<char>)
    requires
        with_model(existing, model) is Object,
    ensures
        crate::json::jget(with_model(existing, model), key) == if key == "model"@ {
            Some(JsonView::Str(model))
        } else {
            match existing {
                Some(t) => match json_parse(t) {
                    Ok(v) => crate::json::jget(v, key),
                    Err(_) => None,
                },
                None => None,
            }
        },
{
    let base = match existing {
        Some(t) => match json_parse(t) {
            Ok(v) => v,
            Err(_) => JsonView::Object(Seq::empty()),
        },
        None => JsonView::Object(Seq::empty()),
    };
    match base {
        JsonView::Object(m) => {
            crate::json::upsert_lookup(m, "model"@, JsonView::Str(model), key);
            if m.len() == 0 {
                assert(crate::json::lookup(m, key) is None);
            }
        },
        _ => {},
    }
}

} // verus!
