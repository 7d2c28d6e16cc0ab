use relay::catalog::{
    docker_catalog_url, docker_entry, filter_by_query, format_name, infer_category, key_of,
    merge_catalogs, registry_entry, registry_url, sort_by_popularity, MarketplaceServer,
};

fn entry(name: &str, pulls: Option<u64>) -> MarketplaceServer {
    let mut e = registry_entry(Some(format!("io.example/{}", name)), Some(name.to_string()), None, None);
    e.pull_count = pulls;
    e
}

#[test]
fn display_names() {
    assert_eq!(format_name("brave-search"), "Brave Search");
    assert_eq!(format_name("github"), "Github");
    assert_eq!(format_name("a--b"), "A  B");
    assert_eq!(format_name(""), "");
    assert_eq!(format_name("ßtraße"), "SStraße");
}

#[test]
fn categories() {
    assert_eq!(infer_category("postgres", ""), "database");
    assert_eq!(infer_category("x", "Reads your Google Drive"), "filesystem");
    assert_eq!(infer_category("GitHub", "issues"), "development");
    assert_eq!(infer_category("notion", ""), "communication");
    assert_eq!(infer_category("brave", ""), "search");
    assert_eq!(infer_category("aws-docs", ""), "cloud");
    assert_eq!(infer_category("playwright", ""), "automation");
    assert_eq!(infer_category("time", "clock"), "other");
}

#[test]
fn container_entries() {
    assert!(docker_entry("docker", None, None, None).is_none());
    assert!(docker_entry("inspector", None, None, None).is_none());
    let e = docker_entry("brave-search", None, Some(5), Some(1)).unwrap();
    assert_eq!(e.id, "docker-brave-search");
    assert_eq!(e.name, "Brave Search");
    assert_eq!(e.description, "MCP server for brave-search");
    assert_eq!(e.args, vec!["run", "-i", "--rm", "mcp/brave-search"]);
    assert_eq!(e.package_name, "mcp/brave-search");
    assert_eq!(e.source_url, "https://hub.docker.com/r/mcp/brave-search");
    assert_eq!(e.category, "search");
    assert_eq!(e.pull_count, Some(5));
}

#[test]
fn registry_entries() {
    let e = registry_entry(Some("io.github/acme/fs-tools".to_string()), None, Some("Files".to_string()), None);
    assert_eq!(e.id, "registry-io.github/acme/fs-tools");
    assert_eq!(e.package_name, "fs-tools");
    assert_eq!(e.name, "Fs Tools");
    assert_eq!(e.args, vec!["-y", "fs-tools"]);
    assert_eq!(e.command, "npx");
    assert_eq!(e.category, "filesystem");
    let bare = registry_entry(None, Some("T".to_string()), None, Some("https://x".to_string()));
    assert_eq!(bare.id, "registry-");
    assert_eq!(bare.name, "T");
    assert_eq!(bare.source_url, "https://x");
}

#[test]
fn merge_dedupes_and_orders_by_popularity() {
    let docker = vec![
        docker_entry("low", None, Some(1), None).unwrap(),
        docker_entry("high", None, Some(100), None).unwrap(),
    ];
    let registry = vec![entry("High", None), entry("fresh one", Some(50)), entry("Fresh One", None)];
    let merged = merge_catalogs(docker, registry);
    let names: Vec<&str> = merged.iter().map(|m| m.name.as_str()).collect();
    assert_eq!(names, vec!["High", "fresh one", "Low"]);
}

#[test]
fn sort_is_stable() {
    let v = vec![entry("a", None), entry("b", Some(3)), entry("c", Some(0)), entry("d", Some(3))];
    let sorted = sort_by_popularity(v);
    let names: Vec<&str> = sorted.iter().map(|m| m.name.as_str()).collect();
    assert_eq!(names, vec!["b", "d", "a", "c"]);
}

#[test]
fn keys_and_queries() {
    assert_eq!(key_of("Brave Search"), "brave-search");
    let v = vec![docker_entry("brave-search", None, None, None).unwrap(), docker_entry("time", None, None, None).unwrap()];
    assert_eq!(filter_by_query(v.clone(), "").len(), 2);
    let hits = filter_by_query(v.clone(), "BRAVE");
    assert_eq!(hits.len(), 1);
    assert_eq!(hits[0].id, "docker-brave-search");
    assert_eq!(filter_by_query(v, "mcp/time").len(), 1);
}

#[test]
fn catalog_urls() {
    assert_eq!(docker_catalog_url(), "https://hub.docker.com/v2/repositories/mcp/?page_size=100");
    assert_eq!(registry_url(""), "https://registry.modelcontextprotocol.io/v0.1/servers?limit=100");
    assert_eq!(
        registry_url("file system/é"),
        "https://registry.modelcontextprotocol.io/v0.1/servers?limit=100&search=file%20system%2F%C3%A9"
    );
}
