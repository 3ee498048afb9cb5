use helix_dadbod::config::{Connection, SqlConfig, SshTunnel};
use helix_dadbod::connection::{ConnectDecision, ConnectionManager, PreparedQuery};
use helix_dadbod::tunnel::TunnelStep;

fn analytics_config() -> SqlConfig {
    SqlConfig {
        connections: vec![
            Connection {
                name: "analytics".to_string(),
                db_type: "postgres".to_string(),
                host: "db.internal".to_string(),
                port: 5432,
                database: "metrics".to_string(),
                username: "svc".to_string(),
                password: None,
                ssh_tunnel: Some(SshTunnel::Explicit {
                    host: "jump.example.com".to_string(),
                    port: 22,
                    user: "svc".to_string(),
                    key_path: None,
                }),
            },
            Connection {
                name: "local".to_string(),
                db_type: "postgres".to_string(),
                host: "localhost".to_string(),
                port: 5432,
                database: "dev".to_string(),
                username: "dev".to_string(),
                password: Some("secret".to_string()),
                ssh_tunnel: None,
            },
            Connection {
                name: "exotic".to_string(),
                db_type: "mysql".to_string(),
                host: "localhost".to_string(),
                port: 3306,
                database: "d".to_string(),
                username: "u".to_string(),
                password: None,
                ssh_tunnel: None,
            },
        ],
        log_level: "error".to_string(),
        skip_host_key_verification: false,
    }
}

#[test]
fn test_connect_decisions() {
    let mgr = ConnectionManager::new(analytics_config());
    assert!(matches!(mgr.connect_decision("analytics"), ConnectDecision::Dial));
    assert!(matches!(mgr.connect_decision("nope"), ConnectDecision::Unknown));
    assert!(matches!(mgr.connect_decision("exotic"), ConnectDecision::Unsupported));
}

#[test]
fn test_end_to_end_tunnel_connect_is_idempotent() {
    // Connection "analytics" with an explicit tunnel to jump.example.com:22
    // as svc, remote target db.internal:5432.  The first connect allocates
    // port 7001 and dials through it; a second request returns port 7001
    // with no new tunnel asked for.
    let mut mgr = ConnectionManager::new(analytics_config());
    assert!(matches!(mgr.connect_decision("analytics"), ConnectDecision::Dial));

    let os_free = vec![true; 20];
    let step = mgr.tunnel_manager.get_or_create_tunnel_step("analytics", &os_free).unwrap();
    assert_eq!(step, TunnelStep::Dial(7001));
    mgr.tunnel_manager.install_tunnel("analytics", 7001, "db.internal", 5432, 1);

    let (session, ws) = mgr.register_connection("analytics", true, Some(7001));
    assert_eq!(session, 0);
    assert_eq!(ws.sql_file, "/tmp/helix-dadbod/analytics.sql");

    // Second get_or_create: the cached session is reused, nothing dials.
    match mgr.connect_decision("analytics") {
        ConnectDecision::UseCached(info) => {
            assert_eq!(info.name, "analytics");
            assert!(info.uses_tunnel);
            assert_eq!(info.local_port, Some(7001));
            assert_eq!(info.workspace.sql_file, "/tmp/helix-dadbod/analytics.sql");
        }
        other => panic!("expected the cached session, got {:?}", other),
    }
    let step2 = mgr.tunnel_manager.get_or_create_tunnel_step("analytics", &os_free).unwrap();
    assert_eq!(step2, TunnelStep::Existing(7001));

    // Teardown closes the tunnel with the session.
    let (entry, tunnel) = mgr.close_connection("analytics").unwrap();
    assert_eq!(entry.session, 0);
    assert_eq!(tunnel.unwrap().local_port, 7001);
    assert!(matches!(mgr.connect_decision("analytics"), ConnectDecision::Dial));
}

#[test]
fn test_close_unknown_is_a_no_op() {
    let mut mgr = ConnectionManager::new(analytics_config());
    // Closing a name that was never connected succeeds as a no-op.
    assert!(mgr.close_connection("unknown").is_none());
    assert!(mgr.close_connection("analytics").is_none());
}

#[test]
fn test_register_assigns_fresh_sessions() {
    let mut mgr = ConnectionManager::new(analytics_config());
    let (s1, _) = mgr.register_connection("local", false, None);
    let (s2, _) = mgr.register_connection("analytics", true, Some(7001));
    assert_ne!(s1, s2);
    let info = mgr.get_connection_info("local").unwrap();
    assert!(!info.uses_tunnel);
    assert_eq!(info.local_port, None);
    assert!(mgr.get_connection_info("nope").is_none());
}

#[test]
fn test_close_all_drains_everything() {
    let mut mgr = ConnectionManager::new(analytics_config());
    mgr.register_connection("local", false, None);
    mgr.tunnel_manager.get_or_create_tunnel_step("analytics", &vec![true; 20]).unwrap();
    mgr.tunnel_manager.install_tunnel("analytics", 7001, "db.internal", 5432, 7);
    mgr.register_connection("analytics", true, Some(7001));
    let (entries, tunnels) = mgr.close_all();
    assert_eq!(entries.len(), 2);
    assert_eq!(tunnels.len(), 1);
    assert!(mgr.get_connection_info("local").is_none());
    assert!(mgr.get_connection_info("analytics").is_none());
}

#[test]
fn test_list_connections() {
    let mgr = ConnectionManager::new(analytics_config());
    assert_eq!(mgr.list_connections(), vec!["analytics", "local", "exotic"]);
}

#[test]
fn test_prepare_query_empty_input() {
    assert_eq!(ConnectionManager::prepare_query("   \n  "), PreparedQuery::Empty);
    assert_eq!(ConnectionManager::prepare_query(""), PreparedQuery::Empty);
}

#[test]
fn test_prepare_query_meta_behind_comments() {
    // A shorthand is recognised even behind leading comments.
    match ConnectionManager::prepare_query("-- describe it\n\\d users") {
        PreparedQuery::Meta(sql) => {
            assert!(sql.contains("'users'::regclass"));
        }
        other => panic!("expected generated SQL, got {:?}", other),
    }
}

#[test]
fn test_prepare_query_plain_sql_passes_through_unchanged() {
    // Literal SQL keeps its comments; only the trimmed text is run.
    match ConnectionManager::prepare_query("  -- note\nSELECT 1;  ") {
        PreparedQuery::Plain(sql) => {
            assert_eq!(sql, "-- note\nSELECT 1;");
        }
        other => panic!("expected pass-through SQL, got {:?}", other),
    }
}

#[test]
fn test_postgres_conn_string() {
    let with_pw = ConnectionManager::postgres_conn_string(
        "localhost",
        5432,
        "dev",
        "devdb",
        Some("secret"),
    );
    assert_eq!(with_pw, "host=localhost port=5432 user=dev dbname=devdb password=secret");
    let without = ConnectionManager::postgres_conn_string("db.internal", 7001, "svc", "metrics", None);
    assert_eq!(without, "host=db.internal port=7001 user=svc dbname=metrics");
}

#[test]
fn test_success_payload_carries_the_sql() {
    let payload = ConnectionManager::success_payload(
        "2024-01-02 03:04:05",
        "0.042",
        3,
        "rendered table",
        "SELECT * FROM users;",
    );
    assert_eq!(
        payload,
        "-- Executed at: 2024-01-02 03:04:05\n-- Execution time: 0.042s\n-- Rows returned: 3\n\nrendered table\n\n-- Generated SQL:\nSELECT * FROM users;\n"
    );
}

#[test]
fn test_failure_payload_carries_the_sql() {
    let payload = ConnectionManager::failure_payload(
        "2024-01-02 03:04:05",
        "1.500",
        "relation \"users\" does not exist",
        "SELECT * FROM users;",
    );
    assert_eq!(
        payload,
        "-- Executed at: 2024-01-02 03:04:05\n-- Execution time: 1.500s\n\nERROR: relation \"users\" does not exist\n\n-- Generated SQL:\nSELECT * FROM users;\n"
    );
}

#[test]
fn test_test_connection_sql() {
    assert_eq!(ConnectionManager::test_connection_sql(), "SELECT version()");
}

#[test]
fn test_tunnel_step_owes_a_grant_when_the_range_has_room() {
    // The fresh-name path must grant the first free port, not refuse.
    let mut mgr = ConnectionManager::new(analytics_config());
    let mut os_free = vec![true; 20];
    os_free[0] = false;
    let step = mgr.tunnel_manager.get_or_create_tunnel_step("analytics", &os_free).unwrap();
    assert_eq!(step, TunnelStep::Dial(7002));
    // The reservation survives a failed dial only until the caller
    // releases it; the same name then asks for the same reserved port.
    let step2 = mgr.tunnel_manager.get_or_create_tunnel_step("analytics", &os_free).unwrap();
    assert_eq!(step2, TunnelStep::Dial(7002));
    // Releasing the reservation (as a failed dial must) frees the port.
    mgr.tunnel_manager.port_allocator.deallocate(7002);
    let step3 = mgr.tunnel_manager.get_or_create_tunnel_step("reporting", &vec![true; 20]).unwrap();
    assert_eq!(step3, TunnelStep::Dial(7001));
}

#[test]
fn test_empty_query_message_names_the_file() {
    let msg = ConnectionManager::empty_query_message("/tmp/helix-dadbod/analytics.sql");
    assert_eq!(
        msg,
        "-- Error: No SQL query found\n-- Write your SQL query to: /tmp/helix-dadbod/analytics.sql\n"
    );
}
