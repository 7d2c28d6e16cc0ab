use relay::conflicts::{find_tool_conflicts, tool_key_text};
use relay::models::Server;

fn server(id: &str, command: &str, args: &str, marketplace_id: Option<&str>) -> Server {
    Server {
        id: id.to_string(),
        name: format!("name-{}", id),
        description: None,
        command: command.to_string(),
        args: args.to_string(),
        env: "{}".to_string(),
        secrets: "[]".to_string(),
        enabled: true,
        category: "other".to_string(),
        source: "local".to_string(),
        marketplace_id: marketplace_id.map(|m| m.to_string()),
        icon_url: None,
        documentation_url: None,
        created_at: "t".to_string(),
        updated_at: "t".to_string(),
    }
}

#[test]
fn duplicates_are_grouped() {
    let servers = vec![
        server("a", "npx", "[\"x\"]", None),
        server("b", "docker", "[]", Some("docker-time")),
        server("c", "npx", "[\"x\"]", None),
        server("d", "uv", "[]", Some("docker-time")),
        server("e", "npx", "[\"y\"]", None),
    ];
    let conflicts = find_tool_conflicts(&servers);
    assert_eq!(conflicts.len(), 2);
    assert_eq!(conflicts[0].tool_name, "npx:[\"x\"]");
    let ids: Vec<&str> = conflicts[0].servers.iter().map(|s| s.id.as_str()).collect();
    assert_eq!(ids, vec!["a", "c"]);
    assert_eq!(conflicts[1].tool_name, "docker-time");
    assert_eq!(conflicts[1].servers[1].name, "name-d");
}

#[test]
fn no_conflicts_without_duplicates() {
    let servers = vec![server("a", "npx", "[]", None), server("b", "node", "[]", None)];
    assert!(find_tool_conflicts(&servers).is_empty());
    assert_eq!(tool_key_text(&servers[1]), "node:[]");
}
