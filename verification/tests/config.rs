use helix_dadbod::config::{
    default_log_level, default_postgres_port, default_ssh_port, Connection, SqlConfig, SshTunnel,
};
use helix_dadbod::ffi::{SteelWorkspaceInfo, WorkspacePaths};
use helix_dadbod::workspace::Workspace;

fn one_connection(name: &str, tunnel: Option<SshTunnel>) -> Connection {
    Connection {
        name: name.to_string(),
        db_type: "postgres".to_string(),
        host: "localhost".to_string(),
        port: default_postgres_port(),
        database: "mydb".to_string(),
        username: "user".to_string(),
        password: None,
        ssh_tunnel: tunnel,
    }
}

#[test]
fn test_defaults() {
    assert_eq!(default_log_level(), "info");
    assert_eq!(default_postgres_port(), 5432);
    assert_eq!(default_ssh_port(), 22);
}

#[test]
fn test_get_connection_finds_by_name() {
    let config = SqlConfig {
        connections: vec![one_connection("a", None), one_connection("b", None)],
        log_level: default_log_level(),
        skip_host_key_verification: false,
    };
    assert_eq!(config.get_connection("b").unwrap().name, "b");
    assert!(config.get_connection("c").is_none());
    assert_eq!(config.list_connections(), vec!["a", "b"]);
}

#[test]
fn test_needs_tunnel() {
    let with = one_connection(
        "t",
        Some(SshTunnel::Explicit {
            host: "jump.example.com".to_string(),
            port: default_ssh_port(),
            user: "sshuser".to_string(),
            key_path: None,
        }),
    );
    let without = one_connection("d", None);
    assert!(with.needs_tunnel());
    assert!(!without.needs_tunnel());

    let by_ref = one_connection(
        "r",
        Some(SshTunnel::ConfigRef { ssh_config: "production-server".to_string() }),
    );
    assert!(by_ref.needs_tunnel());
}

#[test]
fn test_workspace_paths() {
    let ws = Workspace::for_connection("test_connection_create");
    assert_eq!(ws.path, "/tmp/helix-dadbod");
    assert_eq!(ws.sql_file, "/tmp/helix-dadbod/test_connection_create.sql");
    assert_eq!(ws.dbout_file, "/tmp/helix-dadbod/results.dbout");
}

#[test]
fn test_workspace_paths_carry_over() {
    let ws = Workspace::for_connection("x");
    let wp = WorkspacePaths::of_workspace(&ws);
    assert_eq!(wp.path, ws.path);
    assert_eq!(wp.sql_file, ws.sql_file);
    assert_eq!(wp.dbout_file, ws.dbout_file);
    let info = SteelWorkspaceInfo::of_paths(wp);
    assert_eq!(info.path(), "/tmp/helix-dadbod");
    assert_eq!(info.sql_file(), "/tmp/helix-dadbod/x.sql");
    assert_eq!(info.dbout_file(), "/tmp/helix-dadbod/results.dbout");
}
