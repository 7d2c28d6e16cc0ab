//! The records the gateway keeps about servers, profiles and settings, and
//! the definition a server is launched from.

use vstd::prelude::*;
use crate::env::{env_wf, EnvView};
use crate::json::{decode_env, decode_string_list, env_of, string_list_of};

verus! {

/// A stored server. `args`, `env` and `secrets` hold JSON text: a list of
/// strings, an object of strings, and the list of secret key names (the
/// secret values live in the vault only).
#[derive(Debug, Clone)]
pub struct Server {
    pub id: String,
    pub name: String,
    pub description: Option<String>,
    pub command: String,
    pub args: String,
    pub env: String,
    pub secrets: String,
    pub enabled: bool,
    pub category: String,
    pub source: String,
    pub marketplace_id: Option<String>,
    pub icon_url: Option<String>,
    pub documentation_url: Option<String>,
    pub created_at: String,
    pub updated_at: String,
}

/// A named selection of servers meant to run together.
#[derive(Debug, Clone)]
pub struct Profile {
    pub id: String,
    pub name: String,
    pub created_at: String,
    pub updated_at: String,
}

/// User preferences.
#[derive(Debug, Clone)]
pub struct AppSettings {
    pub theme: String,
    pub auto_export: bool,
}

/// A new server as the user describes it. Names listed in `secrets` are
/// taken out of `env` and kept in the vault.
#[derive(Debug, Clone)]
pub struct CreateServerInput {
    pub name: String,
    pub description: Option<String>,
    pub command: String,
    pub args: Option<Vec<String>>,
    pub env: Option<Vec<(String, String)>>,
    pub secrets: Option<Vec<String>>,
    pub category: Option<String>,
    pub marketplace_id: Option<String>,
}

/// Changes to a stored server; absent fields stay as they are.
#[derive(Debug, Clone)]
pub struct UpdateServerInput {
    pub id: String,
    pub name: Option<String>,
    pub description: Option<String>,
    pub command: Option<String>,
    pub args: Option<Vec<String>>,
    pub env: Option<Vec<(String, String)>>,
    pub secrets: Option<Vec<String>>,
    pub enabled: Option<bool>,
    pub category: Option<String>,
}

/// Whether a newer release is published.
#[derive(Debug, Clone)]
pub struct UpdateResponse {
    pub update_available: bool,
    pub remote_version: String,
    pub url: String,
}

/// A server taking part in a tool conflict.
#[derive(Debug, Clone)]
pub struct ConflictingServer {
    pub id: String,
    pub name: String,
}

/// Servers that would expose the same tools.
#[derive(Debug, Clone)]
pub struct ToolConflict {
    pub tool_name: String,
    pub servers: Vec<ConflictingServer>,
}

/// What a server is launched from.
#[derive(Debug, Clone)]
pub struct ServerDefinition {
    pub id: String,
    pub name: String,
    pub command: String,
    pub args: Vec<String>,
    pub env: Vec<(String, String)>,
    pub secrets: Vec<String>,
    pub enabled: bool,
    pub profile_id: String,
}

/// The list a JSON text holds, or the empty list when it holds none.
pub open spec fn list_or_empty(s: Seq<char>) -> Seq<Seq<char>> {
    match string_list_of(s) {
        Some(v) => v,
        None => Seq::empty(),
    }
}

/// The environment a JSON text holds, or the empty one when it holds none.
pub open spec fn env_or_empty(s: Seq<char>) -> EnvView {
    match env_of(s) {
        Some(v) => v,
        None => Seq::empty(),
    }
}

fn list_from(text: &str) -> (r: Vec<String>)
    ensures
        r.deep_view() == list_or_empty(text@),
{
    match decode_string_list(text) {
        Some(v) => v,
        None => {
            let v: Vec<String> = Vec::new();
            assert(v.deep_view() =~= Seq::<Seq<char>>::empty());
            v
        },
    }
}

impl Server {
    /// The definition this record launches, in profile `profile_id`. Text
    /// that does not decode counts as empty.
    pub fn definition(&self, profile_id: &str) -> (r: ServerDefinition)
        ensures
            r.id@ == self.id@,
            r.name@ == self.name@,
            r.command@ == self.command@,
            r.args.deep_view() == list_or_empty(self.args@),
            r.env.deep_view() == env_or_empty(self.env@),
            env_wf(r.env.deep_view()),
            r.secrets.deep_view() == list_or_empty(self.secrets@),
            r.enabled == self.enabled,
            r.profile_id@ == profile_id@,
    {
        let env = match decode_env(self.env.as_str()) {
            Some(v) => v,
            None => {
                let v: Vec<(String, String)> = Vec::new();
                assert(v.deep_view() =~= Seq::<(Seq<char>, Seq<char>)>::empty());
                v
            },
        };
        ServerDefinition {
            id: self.id.clone(),
            name: self.name.clone(),
            command: self.command.clone(),
            args: list_from(self.args.as_str()),
            env,
            secrets: list_from(self.secrets.as_str()),
            enabled: self.enabled,
            profile_id: String::from_str(profile_id),
        }
    }
}

/// The ids of the enabled definitions of `profile`, in order.
pub open spec fn enabled_in(defs: Seq<ServerDefinition>, profile: Seq<char>) -> Seq<Seq<char>>
    decreases defs.len(),
{
    if defs.len() == 0 {
        Seq::empty()
    } else {
        let prior = enabled_in(defs.drop_last(), profile);
        if defs.last().enabled && defs.last().profile_id@ == profile {
            prior.push(defs.last().id@)
        } else {
            prior
        }
    }
}

/// The servers that should run when `profile` is active: its enabled ones.
pub fn desired_ids(defs: &Vec<ServerDefinition>, profile: &str) -> (r: Vec<String>)
    ensures
        r.deep_view() == enabled_in(defs@, profile@),
{
    let mut out: Vec<String> = Vec::new();
    let mut i: usize = 0;
    while i < defs.len()
        invariant
            i <= defs@.len(),
            out.deep_view() == enabled_in(defs@.subrange(0, i as int), profile@),
        decreases defs@.len() - i,
    {
        let ghost pre = defs@.subrange(0, i as int);
        assert(defs@.subrange(0, i + 1).drop_last() =~= pre);
        if defs[i].enabled && crate::text::same_text(defs[i].profile_id.as_str(), profile) {
            let ghost before = out.deep_view();
            out.push(defs[i].id.clone());
            assert(out.deep_view() =~= before.push(defs@[i as int].id@));
        }
        i = i + 1;
    }
    assert(defs@.subrange(0, defs@.len() as int) =~= defs@);
    out
}

} // verus!
