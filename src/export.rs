//! The configuration files that point desktop clients at the gateway, as
//! compact JSON text.

use vstd::prelude::*;
use crate::json::{encode_env, encode_string_list, json_env, json_quoted, json_string_list, quote};
use crate::models::ServerDefinition;
use crate::text::joined;

verus! {

/// The gateway's entry for one server: its args, command, environment when
/// it has one, id and name.
pub open spec fn relay_entry(def: ServerDefinition) -> Seq<char> {
    let env_part = if def.env@.len() == 0 {
        Seq::empty()
    } else {
        ",\"env\":"@ + json_env(def.env.deep_view())
    };
    "{\"args\":"@ + json_string_list(def.args.deep_view()) + ",\"command\":"@ + json_quoted(def.command@)
        + env_part + ",\"id\":"@ + json_quoted(def.id@) + ",\"name\":"@ + json_quoted(def.name@) + "}"@
}

/// The gateway's list of servers.
pub open spec fn relay_config(defs: Seq<ServerDefinition>) -> Seq<char> {
    "{\"servers\":["@ + joined(Seq::new(defs.len(), |i: int| relay_entry(defs[i])), ","@) + "]}"@
}

/// The client entry that launches the gateway script `script` with its
/// server list at `config_path`.
pub open spec fn gateway_entry(script: Seq<char>, config_path: Seq<char>) -> Seq<char> {
    "{\"args\":["@ + json_quoted(script) + "],\"command\":\"node\",\"env\":{\"RELAY_CONFIG_PATH\":"@
        + json_quoted(config_path) + "}}"@
}

/// The gateway's entry for one server.
pub fn relay_entry_text(def: &ServerDefinition) -> (r: String)
    ensures
        r@ == relay_entry(*def),
{
    let mut out = String::from_str("{\"args\":");
    out.append(encode_string_list(&def.args).as_str());
    out.append(",\"command\":");
    out.append(quote(def.command.as_str()).as_str());
    if def.env.len() > 0 {
        out.append(",\"env\":");
        out.append(encode_env(&def.env).as_str());
    }
    out.append(",\"id\":");
    out.append(quote(def.id.as_str()).as_str());
    out.append(",\"name\":");
    out.append(quote(def.name.as_str()).as_str());
    out.append("}");
    out
}

/// The gateway's list of servers.
pub fn relay_config_text(defs: &Vec<ServerDefinition>) -> (r: String)
    ensures
        r@ == relay_config(defs@),
{
    let ghost entries = Seq::new(defs@.len(), |i: int| relay_entry(defs@[i]));
    let mut body = String::new();
    let mut i: usize = 0;
    while i < defs.len()
        invariant
            i <= defs@.len(),
            entries == Seq::new(defs@.len(), |i: int| relay_entry(defs@[i])),
            body@ == joined(entries.subrange(0, i as int), ","@),
        decreases defs@.len() - i,
    {
        let ghost next = entries.subrange(0, i + 1);
        assert(next.drop_last() =~= entries.subrange(0, i as int));
        if i > 0 {
            body.append(",");
        }
        body.append(relay_entry_text(&defs[i]).as_str());
        proof {
            if i == 0 {
                assert(body@ =~= next[0]);
            }
        }
        i = i + 1;
    }
    assert(entries.subrange(0, defs@.len() as int) =~= entries);
    String::from_str("{\"servers\":[").concat(body.as_str()).concat("]}")
}

/// The client entry that launches the gateway.
pub fn gateway_entry_text(script: &str, config_path: &str) -> (r: String)
    ensures
        r@ == gateway_entry(script@, config_path@),
{
    String::from_str("{\"args\":[")
        .concat(quote(script).as_str())
        .concat("],\"command\":\"node\",\"env\":{\"RELAY_CONFIG_PATH\":")
        .concat(quote(config_path).as_str())
        .concat("}}")
}

/// A client configuration holding only the gateway entry `gateway`.
pub fn client_config_text(gateway: &str) -> (r: String)
    ensures
        r@ == "{\"mcpServers\":{\"Relay Gateway\":"@ + gateway@ + "}}"@,
{
    String::from_str("{\"mcpServers\":{\"Relay Gateway\":").concat(gateway).concat("}}")
}

} // verus!
