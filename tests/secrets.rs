use relay::env::{has_var, set_var};
use relay::secrets::{merge_secrets, resolve_env, SecretManager};

#[test]
fn present_secret_is_injected() {
    let base = vec![("PATH".to_string(), "/bin".to_string())];
    let env = merge_secrets(base, vec![("API_KEY".to_string(), Some("vault-value".to_string()))]);
    assert_eq!(
        env,
        vec![("PATH".to_string(), "/bin".to_string()), ("API_KEY".to_string(), "vault-value".to_string())]
    );
}

#[test]
fn absent_secret_is_left_out() {
    let base = vec![("PATH".to_string(), "/bin".to_string())];
    let env = merge_secrets(base.clone(), vec![("API_KEY".to_string(), None)]);
    assert_eq!(env, base);
    assert!(!has_var(&env, "API_KEY"));
}

#[test]
fn secret_overrides_plain_value() {
    let base = vec![("API_KEY".to_string(), "plain".to_string())];
    let env = merge_secrets(base, vec![("API_KEY".to_string(), Some("secret".to_string()))]);
    assert_eq!(env, vec![("API_KEY".to_string(), "secret".to_string())]);
}

#[test]
fn unresolvable_secrets_do_not_stop_a_spawn() {
    let base = vec![("A".to_string(), "1".to_string())];
    let env = resolve_env("relay-test-server-without-secrets", &vec!["NO_SUCH_KEY".to_string()], base);
    assert!(has_var(&env, "A"));
    assert!(!has_var(&env, "NO_SUCH_KEY"));
}

#[test]
fn service_names_are_scoped_by_server() {
    assert_eq!(SecretManager::service_name("abc"), "relay.mcp.server.abc");
}

#[test]
fn deleting_all_secrets_always_succeeds() {
    assert_eq!(
        SecretManager::delete_all_server_secrets("relay-test-server", vec!["A".to_string(), "B".to_string()]),
        Ok(())
    );
}

#[test]
fn set_var_replaces_in_place() {
    let mut env = vec![("A".to_string(), "1".to_string()), ("B".to_string(), "2".to_string())];
    set_var(&mut env, "A".to_string(), "3".to_string());
    set_var(&mut env, "C".to_string(), "4".to_string());
    assert_eq!(
        env,
        vec![("A".to_string(), "3".to_string()), ("B".to_string(), "2".to_string()), ("C".to_string(), "4".to_string())]
    );
}

#[test]
fn user_values_take_precedence_over_vault() {
    let env = vec![("A".to_string(), "1".to_string())];
    let pending = relay::secrets::unset_secret_keys(&env, &vec!["A".to_string(), "B".to_string()]);
    assert_eq!(pending, vec!["B".to_string()]);
}
