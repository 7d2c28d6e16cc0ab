use relay::env::has_var;
use relay::models::{desired_ids, Server, ServerDefinition};
use relay::registry::ProcessTable;
use relay::secrets::merge_secrets;

fn def(id: &str, enabled: bool, profile: &str) -> ServerDefinition {
    ServerDefinition {
        id: id.to_string(),
        name: id.to_string(),
        command: "python3".to_string(),
        args: vec![],
        env: vec![],
        secrets: vec![],
        enabled,
        profile_id: profile.to_string(),
    }
}

#[test]
fn second_process_for_a_running_id_is_refused() {
    let mut table: ProcessTable<u32> = ProcessTable::new();
    assert_eq!(table.adopt("a".to_string(), 1), None);
    assert_eq!(table.adopt("a".to_string(), 2), Some(2));
    assert_eq!(table.len(), 1);
    assert_eq!(table.stop("a"), Some(1));
}

#[test]
fn concurrent_reconcile_passes_keep_one_process() {
    let mut table: ProcessTable<u32> = ProcessTable::new();
    let desired = vec!["a".to_string(), "b".to_string()];
    let plan1 = table.plan_reconcile(&desired);
    let plan2 = table.plan_reconcile(&desired);
    assert_eq!(plan1, desired);
    assert_eq!(plan2, desired);
    let extra1 = table.finish_reconcile(vec![("a".to_string(), Some(1)), ("b".to_string(), Some(2))]);
    let extra2 = table.finish_reconcile(vec![("a".to_string(), Some(3)), ("b".to_string(), Some(4))]);
    assert!(extra1.is_empty());
    assert_eq!(extra2, vec![3, 4]);
    assert_eq!(table.running_ids(), vec!["a".to_string(), "b".to_string()]);
}

#[test]
fn stop_twice_is_no_error() {
    let mut table: ProcessTable<u32> = ProcessTable::new();
    table.adopt("a".to_string(), 7);
    assert_eq!(table.stop("a"), Some(7));
    assert_eq!(table.stop("a"), None);
    assert!(!table.is_running("a"));
    assert_eq!(table.len(), 0);
}

#[test]
fn switch_profile_drains_then_starts_desired() {
    let mut table: ProcessTable<u32> = ProcessTable::new();
    table.adopt("old1".to_string(), 1);
    table.adopt("old2".to_string(), 2);
    let defs = vec![def("x", true, "work"), def("y", false, "work"), def("z", true, "work"), def("old1", true, "home")];
    let drained = table.drain();
    assert_eq!(drained.len(), 2);
    assert_eq!(table.len(), 0);
    let desired = desired_ids(&defs, "work");
    assert_eq!(desired, vec!["x".to_string(), "z".to_string()]);
    let plan = table.plan_reconcile(&desired);
    assert_eq!(plan, desired);
    table.finish_reconcile(vec![("x".to_string(), Some(10)), ("z".to_string(), None)]);
    assert_eq!(table.running_ids(), vec!["x".to_string()]);
    assert!(!table.is_running("old1"));
    assert!(!table.is_running("old2"));
}

#[test]
fn plan_skips_running_and_repeated_ids() {
    let mut table: ProcessTable<u32> = ProcessTable::new();
    table.adopt("a".to_string(), 1);
    let desired = vec!["a".to_string(), "b".to_string(), "b".to_string(), "c".to_string()];
    assert_eq!(table.plan_reconcile(&desired), vec!["b".to_string(), "c".to_string()]);
}

#[test]
fn restart_respawns_only_enabled() {
    let mut table: ProcessTable<u32> = ProcessTable::new();
    table.adopt("a".to_string(), 1);
    assert_eq!(table.restart("a", false), (Some(1), false));
    table.adopt("a".to_string(), 2);
    assert_eq!(table.restart("a", true), (Some(2), true));
    assert_eq!(table.restart("a", true), (None, true));
}

#[test]
fn end_to_end_definition_to_stop() {
    let server = Server {
        id: "demo".to_string(),
        name: "Demo".to_string(),
        description: None,
        command: "python3".to_string(),
        args: "[\"-m\",\"demo_server\"]".to_string(),
        env: "{}".to_string(),
        secrets: "[\"TOKEN\"]".to_string(),
        enabled: true,
        category: "other".to_string(),
        source: "local".to_string(),
        marketplace_id: None,
        icon_url: None,
        documentation_url: None,
        created_at: "t".to_string(),
        updated_at: "t".to_string(),
    };
    let d = server.definition("default");
    assert_eq!(d.args, vec!["-m".to_string(), "demo_server".to_string()]);
    assert_eq!(d.secrets, vec!["TOKEN".to_string()]);
    let env = merge_secrets(d.env.clone(), vec![("TOKEN".to_string(), Some("abc".to_string()))]);
    assert_eq!(env, vec![("TOKEN".to_string(), "abc".to_string())]);
    let mut table: ProcessTable<u32> = ProcessTable::new();
    let desired = desired_ids(&vec![d], "default");
    let plan = table.plan_reconcile(&desired);
    assert_eq!(plan, vec!["demo".to_string()]);
    table.finish_reconcile(vec![("demo".to_string(), Some(42))]);
    assert!(table.is_running("demo"));
    assert_eq!(table.stop("demo"), Some(42));
    assert!(!table.is_running("demo"));
    assert!(has_var(&env, "TOKEN"));
}

#[test]
fn undecodable_fields_count_as_empty() {
    let server = Server {
        id: "s".to_string(),
        name: "S".to_string(),
        description: None,
        command: "node".to_string(),
        args: "not json".to_string(),
        env: "{\"B\":\"2\",\"A\":\"1\"}".to_string(),
        secrets: "".to_string(),
        enabled: false,
        category: "other".to_string(),
        source: "local".to_string(),
        marketplace_id: None,
        icon_url: None,
        documentation_url: None,
        created_at: "t".to_string(),
        updated_at: "t".to_string(),
    };
    let d = server.definition("p");
    assert!(d.args.is_empty());
    assert!(d.secrets.is_empty());
    assert_eq!(d.env, vec![("A".to_string(), "1".to_string()), ("B".to_string(), "2".to_string())]);
    assert_eq!(d.profile_id, "p");
}

#[test]
fn other_entries_keep_their_process() {
    let mut table: ProcessTable<u32> = ProcessTable::new();
    table.adopt("a".to_string(), 1);
    table.adopt("b".to_string(), 2);
    table.adopt("c".to_string(), 3);
    assert_eq!(table.stop("b"), Some(2));
    assert_eq!(table.entries, vec![("a".to_string(), 1), ("c".to_string(), 3)]);
    assert_eq!(table.restart("x", true), (None, true));
    assert_eq!(table.entries, vec![("a".to_string(), 1), ("c".to_string(), 3)]);
}
