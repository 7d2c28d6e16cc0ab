//! Turning what the user enters into stored server records: secrets are
//! taken out of the environment and kept apart, defaults are filled in.

use vstd::prelude::*;
use crate::env::{env_get, env_wf, env_without, take_var, EnvView};
use crate::json::{encode_env, encode_string_list, json_env, json_string_list};
use crate::models::{CreateServerInput, Server, UpdateServerInput};
use crate::secrets::SecretManager;

verus! {

/// `env` with each of `keys` that it sets moved out, in order: what is left,
/// and the (name, value) pairs moved.
pub open spec fn separated(env: EnvView, keys: Seq<Seq<char>>) -> (EnvView, EnvView)
    decreases keys.len(),
{
    if keys.len() == 0 {
        (env, Seq::empty())
    } else {
        let (rest, moved) = separated(env, keys.drop_last());
        let k = keys.last();
        match env_get(rest, k) {
            Some(v) => (env_without(rest, k), moved.push((k, v))),
            None => (rest, moved),
        }
    }
}

/// Moves each of `keys` that `env` sets out of it: the environment left and
/// the secrets moved, as (name, value) pairs.
pub fn separate_secrets(env: Vec<(String, String)>, keys: &Vec<String>) -> (r: (
    Vec<(String, String)>,
    Vec<(String, String)>,
))
    requires
        env_wf(env.deep_view()),
    ensures
        env_wf(r.0.deep_view()),
        (r.0.deep_view(), r.1.deep_view()) == separated(env.deep_view(), keys.deep_view()),
{
    let mut rest = env;
    let mut moved: Vec<(String, String)> = Vec::new();
    let ghost start = rest.deep_view();
    let mut i: usize = 0;
    while i < keys.len()
        invariant
            i <= keys@.len(),
            env_wf(rest.deep_view()),
            (rest.deep_view(), moved.deep_view()) == separated(start, keys.deep_view().subrange(0, i as int)),
        decreases keys@.len() - i,
    {
        assert(keys.deep_view().subrange(0, i + 1).drop_last() =~= keys.deep_view().subrange(0, i as int));
        assert(keys.deep_view().subrange(0, i + 1).last() == keys@[i as int]@);
        let ghost before = moved.deep_view();
        let ghost prior_rest = rest.deep_view();
        match take_var(&mut rest, keys[i].as_str()) {
            Some(v) => {
                let ghost vv = v@;
                moved.push((keys[i].clone(), v));
                assert(moved.deep_view() =~= before.push((keys@[i as int]@, vv)));
                assert(env_get(prior_rest, keys@[i as int]@) == Some(vv));
                assert(separated(start, keys.deep_view().subrange(0, i + 1)) == (
                    env_without(prior_rest, keys@[i as int]@),
                    before.push((keys@[i as int]@, vv)),
                ));
            },
            None => {
                assert(separated(start, keys.deep_view().subrange(0, i + 1)) == (prior_rest, before));
            },
        }
        i = i + 1;
    }
    assert(keys.deep_view().subrange(0, keys@.len() as int) =~= keys.deep_view());
    (rest, moved)
}

/// The names of a list of pairs.
pub open spec fn pair_names(pairs: EnvView) -> Seq<Seq<char>> {
    Seq::new(pairs.len(), |i: int| pairs[i].0)
}

/// Stores each secret in the vault under `server_id`, stopping at the first
/// failure. On success, the names stored, in order.
pub fn store_secrets(server_id: &str, secrets: &Vec<(String, String)>) -> (r: Result<Vec<String>, String>)
    ensures
        r matches Ok(names) ==> names.deep_view() == pair_names(secrets.deep_view()),
        secrets@.len() == 0 ==> (r matches Ok(names) && names@.len() == 0),
        r matches Err(m) ==> crate::secrets::vault_failure(m@, "Failed to set secret in keyring: "@),
{
    let mut names: Vec<String> = Vec::new();
    let mut i: usize = 0;
    while i < secrets.len()
        invariant
            i <= secrets@.len(),
            names.deep_view() == pair_names(secrets.deep_view()).subrange(0, i as int),
        decreases secrets@.len() - i,
    {
        SecretManager::set_secret(server_id, secrets[i].0.as_str(), secrets[i].1.as_str())?;
        let ghost before = names.deep_view();
        names.push(secrets[i].0.clone());
        assert(names.deep_view() =~= before.push(secrets@[i as int].0@));
        assert(pair_names(secrets.deep_view())[i as int] == secrets@[i as int].0@);
        assert(names.deep_view() =~= pair_names(secrets.deep_view()).subrange(0, i + 1));
        i = i + 1;
    }
    assert(pair_names(secrets.deep_view()).subrange(0, secrets@.len() as int) =~= pair_names(
        secrets.deep_view(),
    ));
    Ok(names)
}

fn strings_or_empty(v: Option<Vec<String>>) -> (r: Vec<String>)
    ensures
        v matches Some(x) ==> r == x,
        v is None ==> r@.len() == 0,
{
    match v {
        Some(x) => x,
        None => Vec::new(),
    }
}

/// Refuses a server from the catalog when the profile holds one from the
/// same catalog entry already (`already_installed`).
pub fn check_catalog_duplicate(input: &CreateServerInput, already_installed: bool) -> (r: Result<(), String>)
    ensures
        r is Err <==> input.marketplace_id is Some && already_installed,
        r matches Err(m) ==> m@ == "Server '"@ + input.name@ + "' is already installed from the catalog"@,
{
    if input.marketplace_id.is_some() && already_installed {
        Err(String::from_str("Server '").concat(input.name.as_str()).concat("' is already installed from the catalog"))
    } else {
        Ok(())
    }
}

/// A new stored server `id` from `input`, created at `now` and disabled,
/// with the secrets it names moved out of its environment. The secrets are
/// handed back to be stored in the vault.
pub fn new_server(id: &str, input: CreateServerInput, now: &str) -> (r: (Server, Vec<(String, String)>))
    requires
        input.env matches Some(e) ==> env_wf(e.deep_view()),
    ensures
        r.0.id@ == id@,
        r.0.name@ == input.name@,
        r.0.command@ == input.command@,
        r.0.description == input.description,
        !r.0.enabled,
        r.0.category@ == (match input.category {
            Some(c) => c@,
            None => "other"@,
        }),
        r.0.source@ == (if input.marketplace_id is Some {
            "marketplace"@
        } else {
            "local"@
        }),
        r.0.marketplace_id == input.marketplace_id,
        r.0.created_at@ == now@ && r.0.updated_at@ == now@,
        ({
            let env = match input.env {
                Some(e) => e.deep_view(),
                None => Seq::empty(),
            };
            let keys = match input.secrets {
                Some(k) => k.deep_view(),
                None => Seq::empty(),
            };
            let (rest, moved) = separated(env, keys);
            &&& r.0.env@ == json_env(rest)
            &&& r.1.deep_view() == moved
            &&& r.0.secrets@ == json_string_list(pair_names(moved))
        }),
        r.0.args@ == json_string_list(
            match input.args {
                Some(a) => a.deep_view(),
                None => Seq::empty(),
            },
        ),
{
    let args = strings_or_empty(input.args);
    let env = match input.env {
        Some(e) => e,
        None => {
            let e: Vec<(String, String)> = Vec::new();
            assert(e.deep_view() =~= Seq::<(Seq<char>, Seq<char>)>::empty());
            e
        },
    };
    let keys = strings_or_empty(input.secrets);
    assert(input.secrets is None ==> keys.deep_view() =~= Seq::<Seq<char>>::empty());
    assert(input.args is None ==> args.deep_view() =~= Seq::<Seq<char>>::empty());
    let (rest, moved) = separate_secrets(env, &keys);
    let names = names_of(&moved);
    let source = if input.marketplace_id.is_some() {
        String::from_str("marketplace")
    } else {
        String::from_str("local")
    };
    let category = match input.category {
        Some(c) => c,
        None => String::from_str("other"),
    };
    let server = Server {
        id: String::from_str(id),
        name: input.name,
        description: input.description,
        command: input.command,
        args: encode_string_list(&args),
        env: encode_env(&rest),
        secrets: encode_string_list(&names),
        enabled: false,
        category,
        source,
        marketplace_id: input.marketplace_id,
        icon_url: None,
        documentation_url: None,
        created_at: String::from_str(now),
        updated_at: String::from_str(now),
    };
    (server, moved)
}

/// A new stored server from `input`, with a fresh id and the current time;
/// the secrets it names are handed back to be stored in the vault under
/// the new id.
pub fn prepare_new_server(input: CreateServerInput) -> (r: (Server, Vec<(String, String)>))
    requires
        input.env matches Some(e) ==> env_wf(e.deep_view()),
    ensures
        r.0.id@.len() == 36,
        r.0.name@ == input.name@,
        r.0.command@ == input.command@,
        !r.0.enabled,
        r.0.created_at@ == r.0.updated_at@,
        ({
            let env = match input.env {
                Some(e) => e.deep_view(),
                None => Seq::empty(),
            };
            let keys = match input.secrets {
                Some(k) => k.deep_view(),
                None => Seq::empty(),
            };
            let (rest, moved) = separated(env, keys);
            &&& r.0.env@ == json_env(rest)
            &&& r.1.deep_view() == moved
            &&& r.0.secrets@ == json_string_list(pair_names(moved))
        }),
{
    let id = crate::clock::fresh_id();
    let now = crate::clock::now_rfc3339();
    new_server(id.as_str(), input, now.as_str())
}

/// The names of the moved secrets.
fn names_of(moved: &Vec<(String, String)>) -> (r: Vec<String>)
    ensures
        r.deep_view() == pair_names(moved.deep_view()),
{
    let mut names: Vec<String> = Vec::new();
    let mut i: usize = 0;
    while i < moved.len()
        invariant
            i <= moved@.len(),
            names.deep_view() == pair_names(moved.deep_view()).subrange(0, i as int),
        decreases moved@.len() - i,
    {
        let ghost before = names.deep_view();
        names.push(moved[i].0.clone());
        assert(names.deep_view() =~= before.push(moved@[i as int].0@));
        assert(pair_names(moved.deep_view())[i as int] == moved@[i as int].0@);
        assert(names.deep_view() =~= pair_names(moved.deep_view()).subrange(0, i + 1));
        i = i + 1;
    }
    assert(pair_names(moved.deep_view()).subrange(0, moved@.len() as int) =~= pair_names(moved.deep_view()));
    names
}

/// `server` with the changes of `input` made at `now`. A new environment
/// has the secrets named in `input.secrets` moved out and handed back to be
/// stored; without a new environment the stored one and its secret names
/// stay as they are.
pub fn apply_update(server: Server, input: UpdateServerInput, now: &str) -> (r: (Server, Vec<(String, String)>))
    requires
        input.env matches Some(e) ==> env_wf(e.deep_view()),
    ensures
        r.0.id == server.id,
        r.0.name == (match input.name {
            Some(n) => n,
            None => server.name,
        }),
        r.0.description == (match input.description {
            Some(d) => Some(d),
            None => server.description,
        }),
        r.0.command == (match input.command {
            Some(c) => c,
            None => server.command,
        }),
        input.args matches Some(a) ==> r.0.args@ == json_string_list(a.deep_view()),
        input.args is None ==> r.0.args == server.args,
        input.env is None ==> r.0.env == server.env && r.0.secrets == server.secrets && r.1@.len() == 0,
        input.env matches Some(e) ==> ({
            let keys = match input.secrets {
                Some(k) => k.deep_view(),
                None => Seq::empty(),
            };
            let (rest, moved) = separated(e.deep_view(), keys);
            &&& r.0.env@ == json_env(rest)
            &&& r.1.deep_view() == moved
            &&& r.0.secrets@ == json_string_list(pair_names(moved))
        }),
        r.0.enabled == (match input.enabled {
            Some(b) => b,
            None => server.enabled,
        }),
        r.0.category == (match input.category {
            Some(c) => c,
            None => server.category,
        }),
        r.0.source == server.source,
        r.0.marketplace_id == server.marketplace_id,
        r.0.created_at == server.created_at,
        r.0.updated_at@ == now@,
{
    let mut s = server;
    if let Some(name) = input.name {
        s.name = name;
    }
    if let Some(d) = input.description {
        s.description = Some(d);
    }
    if let Some(c) = input.command {
        s.command = c;
    }
    if let Some(a) = input.args {
        s.args = encode_string_list(&a);
    }
    let mut moved: Vec<(String, String)> = Vec::new();
    if let Some(e) = input.env {
        let keys = strings_or_empty(input.secrets);
        assert(input.secrets is None ==> keys.deep_view() =~= Seq::<Seq<char>>::empty());
        let (rest, m) = separate_secrets(e, &keys);
        s.env = encode_env(&rest);
        s.secrets = encode_string_list(&names_of(&m));
        moved = m;
    }
    if let Some(b) = input.enabled {
        s.enabled = b;
    }
    if let Some(c) = input.category {
        s.category = c;
    }
    s.updated_at = String::from_str(now);
    (s, moved)
}

} // verus!
