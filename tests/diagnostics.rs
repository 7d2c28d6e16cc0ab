use relay::diagnostics::{
    check_command_present, check_prerequisites, dependency_issue, derive_hints, extract_binary,
    handshake_result, install_hint_for, is_probably_path, required_binaries, spawn_failure_result,
    InitializeReply, Platform,
};

#[test]
fn binary_is_first_word_without_quotes() {
    assert_eq!(extract_binary("  npx -y pkg"), "npx");
    assert_eq!(extract_binary("\"C:/Program Files/node.exe\" x"), "C:/Program");
    assert_eq!(extract_binary("'python3'"), "python3");
    assert_eq!(extract_binary("\"'uv'\""), "uv");
    assert_eq!(extract_binary("   "), "");
    assert_eq!(extract_binary(""), "");
}

#[test]
fn path_like_binaries() {
    assert!(is_probably_path("/usr/bin/node"));
    assert!(is_probably_path("C:\\tools\\x"));
    assert!(is_probably_path("server.exe"));
    assert!(is_probably_path("run.cmd"));
    assert!(!is_probably_path("node"));
    assert!(!is_probably_path(".exe.bak"));
}

#[test]
fn install_hints() {
    assert_eq!(
        install_hint_for("npx", Platform::Linux),
        "Linux: install Node.js LTS and ensure `node`/`npm` are on PATH."
    );
    assert_eq!(
        install_hint_for("uv", Platform::MacOs),
        "macOS: install Python 3 and ensure `python` is on PATH. For `uv`, see docs.astral.sh/uv."
    );
    assert_eq!(
        install_hint_for("docker", Platform::Windows),
        "Windows: install Docker Desktop (or Docker Engine) and ensure `docker` is on PATH."
    );
    assert_eq!(
        install_hint_for("deno", Platform::Linux),
        "Linux: install `deno` and make sure it is available on PATH."
    );
}

#[test]
fn hints_from_messages() {
    assert_eq!(
        derive_hints("spawn ENOENT", &vec![]),
        vec!["Verify the command exists on PATH and is spelled correctly.".to_string()]
    );
    assert_eq!(
        derive_hints("boom", &vec!["Error: Cannot find module 'x'".to_string(), "Permission".to_string(), "denied".to_string()]),
        vec![
            "Check executable permissions and run the command manually once in your shell.".to_string(),
            "Install missing Node dependencies (`npm install` / `pnpm install`) in the server project.".to_string(),
        ]
    );
    assert_eq!(
        derive_hints("x", &vec!["ModuleNotFoundError: No module named 'mcp'".to_string()]),
        vec!["Install required Python packages in the active environment.".to_string()]
    );
    assert_eq!(
        derive_hints("nothing known", &vec![]),
        vec!["Open server logs after enabling for additional runtime details.".to_string()]
    );
}

#[test]
fn required_runtimes() {
    let r = required_binaries("npx", &vec!["-y".to_string(), "server".to_string()]);
    assert_eq!(r, vec!["node".to_string(), "npx".to_string()]);
    let r = required_binaries("uv", &vec!["run".to_string(), "main.py".to_string(), "--Docker".to_string()]);
    assert_eq!(r, vec!["docker".to_string(), "python".to_string(), "uv".to_string()]);
    let r = required_binaries("Zed", &vec!["x.py".to_string()]);
    assert_eq!(r, vec!["Zed".to_string(), "python".to_string()]);
    let r = required_binaries("node", &vec![]);
    assert_eq!(r, vec!["node".to_string()]);
    assert!(required_binaries("  ", &vec![]).is_empty());
}

#[test]
fn dependency_issue_names_its_requirer() {
    let own = dependency_issue("npx", "npx", Platform::Linux);
    assert_eq!(own.required_by, "server command");
    let runtime = dependency_issue("node", "npx", Platform::Linux);
    assert_eq!(runtime.required_by, "command/runtime requirements");
    assert_eq!(runtime.install_hint, "Linux: install Node.js LTS and ensure `node`/`npm` are on PATH.");
}

#[test]
fn verdicts() {
    let empty = check_command_present("  ").unwrap();
    assert!(!empty.success);
    assert_eq!(empty.message, "Command is required");
    assert!(check_command_present("npx").is_none());

    assert!(check_prerequisites(vec![]).is_none());
    let missing = check_prerequisites(vec![dependency_issue("node", "npx", Platform::Linux)]).unwrap();
    assert_eq!(missing.message, "Missing prerequisites detected");
    assert_eq!(missing.hints, vec!["Linux: install Node.js LTS and ensure `node`/`npm` are on PATH.".to_string()]);

    let spawn = spawn_failure_result("No such file or directory (os error 2)");
    assert_eq!(spawn.message, "Failed to spawn server process: No such file or directory (os error 2)");
    assert_eq!(spawn.hints, vec!["Open server logs after enabling for additional runtime details.".to_string()]);

    let ok = handshake_result(InitializeReply::Accepted, Some(0), vec!["log".to_string()]);
    assert!(ok.success);
    assert_eq!(ok.exit_code, Some(0));
    assert_eq!(ok.stderr_preview, vec!["log".to_string()]);

    let rejected = handshake_result(InitializeReply::Rejected("{\"code\":-32600}".to_string()), None, vec![]);
    assert!(!rejected.success);
    assert_eq!(rejected.message, "Server returned MCP initialize error: {\"code\":-32600}");

    let failed = handshake_result(
        InitializeReply::Failed("Server closed the stream during initialization".to_string()),
        Some(1),
        vec!["sh: foo: not found".to_string()],
    );
    assert_eq!(failed.hints, vec!["Verify the command exists on PATH and is spelled correctly.".to_string()]);
}
