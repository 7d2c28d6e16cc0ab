//! The secret vault (the platform credential store, scoped by server id and
//! key name) and the injection of secrets into a spawn environment.

use vstd::prelude::*;
use crate::env::{env_get, env_set, env_wf, lemma_env_set, set_var, EnvView};

verus! {

#[verifier::external_type_specification]
#[verifier::external_body]
pub struct ExEntry(keyring::Entry);

/// Relies on keyring::Entry::new: the credential entry of `user` under
/// `service`, or the store's reason for refusing it.
#[verifier::external_body]
fn open_entry(service: &str, user: &str) -> (r: Result<keyring::Entry, String>) {
    keyring::Entry::new(service, user).map_err(|e| e.to_string())
}

/// Relies on keyring::Entry::set_password: stores `password` in the entry.
#[verifier::external_body]
fn store_password(entry: &keyring::Entry, password: &str) -> (r: Result<(), String>) {
    entry.set_password(password).map_err(|e| e.to_string())
}

/// Relies on keyring::Entry::get_password: the stored password, or why there
/// is none.
#[verifier::external_body]
fn load_password(entry: &keyring::Entry) -> (r: Result<String, String>) {
    entry.get_password().map_err(|e| e.to_string())
}

/// Relies on keyring::Entry::delete_credential: removes the stored password.
#[verifier::external_body]
fn remove_credential(entry: &keyring::Entry) -> (r: Result<(), String>) {
    entry.delete_credential().map_err(|e| e.to_string())
}

/// Whether `m` begins with `prefix`.
pub open spec fn begins_with(m: Seq<char>, prefix: Seq<char>) -> bool {
    m.len() >= prefix.len() && m.subrange(0, prefix.len() as int) == prefix
}

/// Whether `m` reports a failure to open the credential entry, or else a
/// failure of the operation described by `op`.
pub open spec fn vault_failure(m: Seq<char>, op: Seq<char>) -> bool {
    begins_with(m, "Failed to create keyring entry: "@) || begins_with(m, op)
}

/// The credential store's service name for the secrets of `server_id`.
pub open spec fn service_of(server_id: Seq<char>) -> Seq<char> {
    "relay.mcp.server."@ + server_id
}

/// Access to the secrets of servers, each stored under the server's service
/// name and the key's name.
pub struct SecretManager;

impl SecretManager {
    /// The service name under which the secrets of `server_id` are stored.
    pub fn service_name(server_id: &str) -> (r: String)
        ensures
            r@ == service_of(server_id@),
    {
        String::from_str("relay.mcp.server.").concat(server_id)
    }

    fn entry(server_id: &str, key: &str) -> (r: Result<keyring::Entry, String>)
        ensures
            r matches Err(m) ==> begins_with(m@, "Failed to create keyring entry: "@),
    {
        let service = Self::service_name(server_id);
        match open_entry(service.as_str(), key) {
            Ok(entry) => Ok(entry),
            Err(e) => {
                let m = String::from_str("Failed to create keyring entry: ").concat(e.as_str());
                assert(m@.subrange(0, "Failed to create keyring entry: "@.len() as int) =~= "Failed to create keyring entry: "@);
                Err(m)
            },
        }
    }

    /// Stores `value` as the secret `key` of `server_id`.
    pub fn set_secret(server_id: &str, key: &str, value: &str) -> (r: Result<(), String>)
        ensures
            r matches Err(m) ==> vault_failure(m@, "Failed to set secret in keyring: "@),
    {
        let entry = Self::entry(server_id, key)?;
        match store_password(&entry, value) {
            Ok(()) => Ok(()),
            Err(e) => {
                let m = String::from_str("Failed to set secret in keyring: ").concat(e.as_str());
                assert(m@.subrange(0, "Failed to set secret in keyring: "@.len() as int) =~= "Failed to set secret in keyring: "@);
                Err(m)
            },
        }
    }

    /// The secret `key` of `server_id`, or why it cannot be had.
    pub fn get_secret(server_id: &str, key: &str) -> (r: Result<String, String>)
        ensures
            r matches Err(m) ==> vault_failure(m@, "Failed to get secret from keyring: "@),
    {
        let entry = Self::entry(server_id, key)?;
        match load_password(&entry) {
            Ok(v) => Ok(v),
            Err(e) => {
                let m = String::from_str("Failed to get secret from keyring: ").concat(e.as_str());
                assert(m@.subrange(0, "Failed to get secret from keyring: "@.len() as int) =~= "Failed to get secret from keyring: "@);
                Err(m)
            },
        }
    }

    /// Removes the secret `key` of `server_id`.
    pub fn delete_secret(server_id: &str, key: &str) -> (r: Result<(), String>)
        ensures
            r matches Err(m) ==> vault_failure(m@, "Failed to delete secret from keyring: "@),
    {
        let entry = Self::entry(server_id, key)?;
        match remove_credential(&entry) {
            Ok(()) => Ok(()),
            Err(e) => {
                let m = String::from_str("Failed to delete secret from keyring: ").concat(e.as_str());
                assert(m@.subrange(0, "Failed to delete secret from keyring: "@.len() as int) =~= "Failed to delete secret from keyring: "@);
                Err(m)
            },
        }
    }

    /// Removes every secret in `secret_keys` of `server_id`. A key that cannot
    /// be removed is passed over; the call as a whole always succeeds.
    pub fn delete_all_server_secrets(server_id: &str, secret_keys: Vec<String>) -> (r: Result<(), String>)
        ensures
            r is Ok,
    {
        let mut i: usize = 0;
        while i < secret_keys.len()
            invariant
                i <= secret_keys@.len(),
            decreases secret_keys@.len() - i,
        {
            let _ = Self::delete_secret(server_id, secret_keys[i].as_str());
            i = i + 1;
        }
        Ok(())
    }
}

/// `env` after merging each secret that was found, in order; a secret that
/// was not found leaves the environment as it is.
pub open spec fn with_secrets(env: EnvView, found: Seq<(Seq<char>, Option<Seq<char>>)>) -> EnvView
    decreases found.len(),
{
    if found.len() == 0 {
        env
    } else {
        let prior = with_secrets(env, found.drop_last());
        match found.last().1 {
            Some(v) => env_set(prior, found.last().0, v),
            None => prior,
        }
    }
}

/// The view of a list of vault lookups.
pub open spec fn lookups_view(found: Seq<(String, Option<String>)>) -> Seq<(Seq<char>, Option<Seq<char>>)> {
    Seq::new(
        found.len(),
        |i: int|
            (
                found[i].0@,
                match found[i].1 {
                    Some(v) => Some(v@),
                    None => None,
                },
            ),
    )
}

proof fn lemma_with_secrets_wf(env: EnvView, found: Seq<(Seq<char>, Option<Seq<char>>)>)
    requires
        env_wf(env),
    ensures
        env_wf(with_secrets(env, found)),
    decreases found.len(),
{
    if found.len() > 0 {
        lemma_with_secrets_wf(env, found.drop_last());
        if let Some(v) = found.last().1 {
            lemma_env_set(with_secrets(env, found.drop_last()), found.last().0, v);
        }
    }
}

/// Merges the results of vault lookups into `env`: each key that was found
/// is set to its value, each key that was not found is left out.
pub fn merge_secrets(env: Vec<(String, String)>, found: Vec<(String, Option<String>)>) -> (r: Vec<(String, String)>)
    requires
        env_wf(env.deep_view()),
    ensures
        env_wf(r.deep_view()),
        r.deep_view() == with_secrets(env.deep_view(), lookups_view(found@)),
{
    let mut out = env;
    let mut i: usize = 0;
    while i < found.len()
        invariant
            i <= found@.len(),
            env_wf(out.deep_view()),
            out.deep_view() == with_secrets(env.deep_view(), lookups_view(found@).subrange(0, i as int)),
        decreases found@.len() - i,
    {
        let ghost done = lookups_view(found@).subrange(0, i as int);
        let ghost next = lookups_view(found@).subrange(0, i + 1);
        assert(next.drop_last() == done);
        let key = found[i].0.clone();
        match &found[i].1 {
            Some(v) => {
                set_var(&mut out, key, v.clone());
            },
            None => {},
        }
        i = i + 1;
    }
    assert(lookups_view(found@).subrange(0, found@.len() as int) == lookups_view(found@));
    out
}

/// The names of `keys` that `env` does not set, in order.
pub open spec fn unset_keys(env: EnvView, keys: Seq<Seq<char>>) -> Seq<Seq<char>>
    decreases keys.len(),
{
    if keys.len() == 0 {
        Seq::empty()
    } else if env_get(env, keys.last()) is Some {
        unset_keys(env, keys.drop_last())
    } else {
        unset_keys(env, keys.drop_last()).push(keys.last())
    }
}

/// The names of `keys` that `env` does not set already: the secrets a
/// connection test still looks up, values given by the user taking
/// precedence over the vault.
pub fn unset_secret_keys(env: &Vec<(String, String)>, keys: &Vec<String>) -> (r: Vec<String>)
    requires
        env_wf(env.deep_view()),
    ensures
        r.deep_view() == unset_keys(env.deep_view(), keys.deep_view()),
{
    let mut out: Vec<String> = Vec::new();
    let mut i: usize = 0;
    while i < keys.len()
        invariant
            i <= keys@.len(),
            env_wf(env.deep_view()),
            out.deep_view() == unset_keys(env.deep_view(), keys.deep_view().subrange(0, i as int)),
        decreases keys@.len() - i,
    {
        let ghost next = keys.deep_view().subrange(0, i + 1);
        assert(next.drop_last() =~= keys.deep_view().subrange(0, i as int));
        assert(next.last() == keys@[i as int]@);
        proof {
            crate::env::lemma_env_get(env.deep_view(), keys@[i as int]@);
        }
        if !crate::env::has_var(env, keys[i].as_str()) {
            proof {
                assert forall|k: int| 0 <= k < env.deep_view().len() implies env.deep_view()[k].0 != keys@[i as int]@ by {
                    assert(env.deep_view()[k].0 == env@[k].0@);
                }
            }
            let ghost before = out.deep_view();
            out.push(keys[i].clone());
            assert(out.deep_view() =~= before.push(keys@[i as int]@));
        } else {
            proof {
                let k = choose|k: int| 0 <= k < env@.len() && env@[k].0@ == keys@[i as int]@;
                assert(env.deep_view()[k].0 == keys@[i as int]@);
            }
        }
        i = i + 1;
    }
    assert(keys.deep_view().subrange(0, keys@.len() as int) =~= keys.deep_view());
    out
}

/// The environment a server is spawned with: `env` plus each of its
/// `secret_keys` that the vault holds. Keys the vault does not hold are
/// left out, and the spawn goes ahead without them.
pub fn resolve_env(server_id: &str, secret_keys: &Vec<String>, env: Vec<(String, String)>) -> (r: Vec<
    (String, String),
>)
    requires
        env_wf(env.deep_view()),
    ensures
        env_wf(r.deep_view()),
        exists|found: Seq<(String, Option<String>)>|
            {
                &&& found.len() == secret_keys@.len()
                &&& forall|i: int| 0 <= i < found.len() ==> #[trigger] found[i].0@ == secret_keys@[i]@
                &&& r.deep_view() == with_secrets(env.deep_view(), lookups_view(found))
            },
{
    let mut found: Vec<(String, Option<String>)> = Vec::new();
    let mut i: usize = 0;
    while i < secret_keys.len()
        invariant
            i <= secret_keys@.len(),
            found@.len() == i,
            forall|k: int| 0 <= k < i ==> #[trigger] found@[k].0@ == secret_keys@[k]@,
        decreases secret_keys@.len() - i,
    {
        let key = secret_keys[i].clone();
        let value = match SecretManager::get_secret(server_id, key.as_str()) {
            Ok(v) => Some(v),
            Err(_) => None,
        };
        found.push((key, value));
        i = i + 1;
    }
    merge_secrets(env, found)
}

/// Injecting one secret key: when the vault holds it, the environment
/// carries the key with the vault's value; when it does not, the
/// environment is exactly the one given, so a key it lacked stays absent.
pub proof fn lemma_secret_injection(env: EnvView, key: Seq<char>, value: Option<Seq<char>>)
    requires
        env_wf(env),
    ensures
        value matches Some(v) ==> env_get(with_secrets(env, seq![(key, value)]), key) == Some(v),
        value is None ==> with_secrets(env, seq![(key, value)]) == env,
{
    let found = seq![(key, value)];
    assert(found.drop_last() =~= Seq::<(Seq<char>, Option<Seq<char>>)>::empty());
    assert(with_secrets(env, found.drop_last()) == env);
    assert(found.last() == (key, value));
    if let Some(v) = value {
        lemma_env_set(env, key, v);
    }
}

} // verus!
