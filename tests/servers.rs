use relay::models::{CreateServerInput, Server, UpdateServerInput};
use relay::servers::{apply_update, new_server, separate_secrets};

#[test]
fn secrets_leave_the_environment() {
    let env = vec![
        ("A".to_string(), "1".to_string()),
        ("TOKEN".to_string(), "abc".to_string()),
        ("B".to_string(), "2".to_string()),
    ];
    let (rest, moved) = separate_secrets(env, &vec!["TOKEN".to_string(), "MISSING".to_string()]);
    assert_eq!(rest, vec![("A".to_string(), "1".to_string()), ("B".to_string(), "2".to_string())]);
    assert_eq!(moved, vec![("TOKEN".to_string(), "abc".to_string())]);
}

#[test]
fn new_server_record() {
    let input = CreateServerInput {
        name: "Demo".to_string(),
        description: Some("d".to_string()),
        command: "python3".to_string(),
        args: Some(vec!["-m".to_string(), "demo_server".to_string()]),
        env: Some(vec![("TOKEN".to_string(), "abc".to_string()), ("LEVEL".to_string(), "1".to_string())]),
        secrets: Some(vec!["TOKEN".to_string()]),
        category: None,
        marketplace_id: None,
    };
    let (server, moved) = new_server("id-1", input, "2024-01-01T00:00:00+00:00");
    assert_eq!(server.id, "id-1");
    assert_eq!(server.args, "[\"-m\",\"demo_server\"]");
    assert_eq!(server.env, "{\"LEVEL\":\"1\"}");
    assert_eq!(server.secrets, "[\"TOKEN\"]");
    assert_eq!(server.category, "other");
    assert_eq!(server.source, "local");
    assert!(!server.enabled);
    assert_eq!(moved, vec![("TOKEN".to_string(), "abc".to_string())]);
}

#[test]
fn catalog_server_record() {
    let input = CreateServerInput {
        name: "X".to_string(),
        description: None,
        command: "npx".to_string(),
        args: None,
        env: None,
        secrets: None,
        category: Some("search".to_string()),
        marketplace_id: Some("docker-x".to_string()),
    };
    let (server, moved) = new_server("id-2", input, "now");
    assert_eq!(server.args, "[]");
    assert_eq!(server.env, "{}");
    assert_eq!(server.secrets, "[]");
    assert_eq!(server.source, "marketplace");
    assert_eq!(server.category, "search");
    assert!(moved.is_empty());
}

fn stored() -> Server {
    Server {
        id: "s".to_string(),
        name: "Old".to_string(),
        description: None,
        command: "node".to_string(),
        args: "[]".to_string(),
        env: "{\"A\":\"1\"}".to_string(),
        secrets: "[\"K\"]".to_string(),
        enabled: false,
        category: "other".to_string(),
        source: "local".to_string(),
        marketplace_id: None,
        icon_url: None,
        documentation_url: None,
        created_at: "c".to_string(),
        updated_at: "u".to_string(),
    }
}

#[test]
fn update_keeps_what_is_not_given() {
    let input = UpdateServerInput {
        id: "s".to_string(),
        name: Some("New".to_string()),
        description: None,
        command: None,
        args: None,
        env: None,
        secrets: None,
        enabled: Some(true),
        category: None,
    };
    let (server, moved) = apply_update(stored(), input, "later");
    assert_eq!(server.name, "New");
    assert_eq!(server.command, "node");
    assert_eq!(server.env, "{\"A\":\"1\"}");
    assert_eq!(server.secrets, "[\"K\"]");
    assert!(server.enabled);
    assert_eq!(server.updated_at, "later");
    assert_eq!(server.created_at, "c");
    assert!(moved.is_empty());
}

#[test]
fn update_with_new_environment_moves_secrets() {
    let input = UpdateServerInput {
        id: "s".to_string(),
        name: None,
        description: Some("desc".to_string()),
        command: None,
        args: Some(vec!["x".to_string()]),
        env: Some(vec![("K".to_string(), "v".to_string()), ("B".to_string(), "2".to_string())]),
        secrets: Some(vec!["K".to_string()]),
        enabled: None,
        category: Some("cloud".to_string()),
    };
    let (server, moved) = apply_update(stored(), input, "later");
    assert_eq!(server.description, Some("desc".to_string()));
    assert_eq!(server.args, "[\"x\"]");
    assert_eq!(server.env, "{\"B\":\"2\"}");
    assert_eq!(server.secrets, "[\"K\"]");
    assert_eq!(server.category, "cloud");
    assert_eq!(moved, vec![("K".to_string(), "v".to_string())]);
}

#[test]
fn prepared_server_gets_fresh_id() {
    let input = CreateServerInput {
        name: "N".to_string(),
        description: None,
        command: "node".to_string(),
        args: None,
        env: Some(vec![("S".to_string(), "v".to_string())]),
        secrets: Some(vec!["S".to_string()]),
        category: None,
        marketplace_id: None,
    };
    let (server, moved) = relay::servers::prepare_new_server(input);
    assert_eq!(server.id.len(), 36);
    assert_eq!(server.created_at, server.updated_at);
    assert_eq!(server.env, "{}");
    assert_eq!(moved, vec![("S".to_string(), "v".to_string())]);
}

#[test]
fn catalog_duplicates_are_refused() {
    let input = CreateServerInput {
        name: "Time".to_string(),
        description: None,
        command: "docker".to_string(),
        args: None,
        env: None,
        secrets: None,
        category: None,
        marketplace_id: Some("docker-time".to_string()),
    };
    assert_eq!(
        relay::servers::check_catalog_duplicate(&input, true),
        Err("Server 'Time' is already installed from the catalog".to_string())
    );
    assert_eq!(relay::servers::check_catalog_duplicate(&input, false), Ok(()));
    assert_eq!(relay::servers::store_secrets("relay-test", &vec![]), Ok(vec![]));
}
