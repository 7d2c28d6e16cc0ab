use relay::export::{client_config_text, gateway_entry_text, relay_config_text, relay_entry_text};
use relay::models::ServerDefinition;

fn def(id: &str, env: Vec<(String, String)>) -> ServerDefinition {
    ServerDefinition {
        id: id.to_string(),
        name: format!("Name {}", id),
        command: "npx".to_string(),
        args: vec!["-y".to_string(), "pkg".to_string()],
        env,
        secrets: vec![],
        enabled: true,
        profile_id: "default".to_string(),
    }
}

#[test]
fn relay_entries() {
    assert_eq!(
        relay_entry_text(&def("a", vec![])),
        "{\"args\":[\"-y\",\"pkg\"],\"command\":\"npx\",\"id\":\"a\",\"name\":\"Name a\"}"
    );
    assert_eq!(
        relay_entry_text(&def("b", vec![("K".to_string(), "v".to_string())])),
        "{\"args\":[\"-y\",\"pkg\"],\"command\":\"npx\",\"env\":{\"K\":\"v\"},\"id\":\"b\",\"name\":\"Name b\"}"
    );
}

#[test]
fn relay_config_lists_servers() {
    assert_eq!(relay_config_text(&vec![]), "{\"servers\":[]}");
    let text = relay_config_text(&vec![def("a", vec![]), def("b", vec![])]);
    let parsed: serde_json::Value = serde_json::from_str(&text).unwrap();
    assert_eq!(parsed["servers"].as_array().unwrap().len(), 2);
    assert_eq!(parsed["servers"][1]["id"], "b");
}

#[test]
fn gateway_entries() {
    let g = gateway_entry_text("/opt/gw.js", "/data/relay.json");
    assert_eq!(g, "{\"args\":[\"/opt/gw.js\"],\"command\":\"node\",\"env\":{\"RELAY_CONFIG_PATH\":\"/data/relay.json\"}}");
    assert_eq!(client_config_text("{}"), "{\"mcpServers\":{\"Relay Gateway\":{}}}");
}
