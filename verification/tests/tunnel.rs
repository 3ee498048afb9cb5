use helix_dadbod::config::SshTunnel;
use helix_dadbod::errors::DadbodError;
use helix_dadbod::ssh_config::SshHostConfig;
use helix_dadbod::tunnel::{
    find_default_ssh_key, resolve_tunnel_target, PortAllocator, TunnelManager, TunnelStep,
};

fn all_free() -> Vec<bool> {
    vec![true; 20]
}

#[test]
fn test_allocate_is_idempotent_per_name() {
    let mut a = PortAllocator::new();
    let p1 = a.allocate("one", &all_free()).unwrap();
    let p1_again = a.allocate("one", &all_free()).unwrap();
    assert_eq!(p1, 7001);
    assert_eq!(p1, p1_again);
}

#[test]
fn test_port_exclusivity_for_distinct_names() {
    let mut a = PortAllocator::new();
    let p1 = a.allocate("one", &all_free()).unwrap();
    let p2 = a.allocate("two", &all_free()).unwrap();
    let p3 = a.allocate("three", &all_free()).unwrap();
    assert_ne!(p1, p2);
    assert_ne!(p1, p3);
    assert_ne!(p2, p3);
    assert_eq!((p1, p2, p3), (7001, 7002, 7003));
}

#[test]
fn test_port_reuse_after_deallocate() {
    let mut a = PortAllocator::new();
    let p1 = a.allocate("one", &all_free()).unwrap();
    a.deallocate(p1);
    let p2 = a.allocate("two", &all_free()).unwrap();
    // The freed port may be reused by a different name.
    assert_eq!(p1, p2);
}

#[test]
fn test_allocate_skips_externally_bound_port() {
    // A port the OS bind probe refused (as a pre-bound listener would)
    // must be skipped.
    let mut os_free = all_free();
    os_free[0] = false;
    let mut a = PortAllocator::new();
    let p = a.allocate("one", &os_free).unwrap();
    assert_eq!(p, 7002);
}

#[test]
fn test_allocate_exhaustion() {
    let mut a = PortAllocator::new();
    for i in 0..20 {
        let name = format!("conn{}", i);
        a.allocate(&name, &all_free()).unwrap();
    }
    let r = a.allocate("one-too-many", &all_free());
    assert_eq!(r, Err(DadbodError::ResourceExhausted));
}

#[test]
fn test_tunnel_manager_steps() {
    let mut m = TunnelManager::new(false);
    assert_eq!(m.get_tunnel_port("analytics"), None);

    let step = m.get_or_create_tunnel_step("analytics", &all_free()).unwrap();
    assert_eq!(step, TunnelStep::Dial(7001));

    m.install_tunnel("analytics", 7001, "db.internal", 5432, 1);
    assert_eq!(m.get_tunnel_port("analytics"), Some(7001));

    // A second request reuses the tunnel: no new dial is asked for.
    let step2 = m.get_or_create_tunnel_step("analytics", &all_free()).unwrap();
    assert_eq!(step2, TunnelStep::Existing(7001));

    // A second name gets a distinct port.
    let step3 = m.get_or_create_tunnel_step("reporting", &all_free()).unwrap();
    assert_eq!(step3, TunnelStep::Dial(7002));

    // Teardown hands the task handle back and releases the port.
    let closed = m.close_tunnel("analytics").unwrap();
    assert_eq!(closed.local_port, 7001);
    assert_eq!(closed.task, 1);
    assert_eq!(m.get_tunnel_port("analytics"), None);

    // Closing an absent tunnel is a no-op.
    assert!(m.close_tunnel("analytics").is_none());
}

#[test]
fn test_close_all_returns_every_tunnel() {
    let mut m = TunnelManager::new(false);
    m.get_or_create_tunnel_step("a", &all_free()).unwrap();
    m.install_tunnel("a", 7001, "db1", 5432, 10);
    m.get_or_create_tunnel_step("b", &all_free()).unwrap();
    m.install_tunnel("b", 7002, "db2", 5432, 11);
    let closed = m.close_all();
    assert_eq!(closed.len(), 2);
    assert_eq!(closed[0].task, 10);
    assert_eq!(closed[1].task, 11);
    assert_eq!(m.get_tunnel_port("a"), None);
    assert_eq!(m.get_tunnel_port("b"), None);
}

#[test]
fn test_find_default_ssh_key() {
    let rsa = find_default_ssh_key("/home/u", true, true).unwrap();
    assert!(rsa.ends_with("id_rsa"));
    assert_eq!(rsa, "/home/u/.ssh/id_rsa");

    let ed = find_default_ssh_key("/home/u", false, true).unwrap();
    assert!(ed.ends_with("id_ed25519"));

    let none = find_default_ssh_key("/home/u", false, false);
    assert!(none.is_err());
}

#[test]
fn test_resolve_explicit_target() {
    let spec = SshTunnel::Explicit {
        host: "jump.example.com".to_string(),
        port: 22,
        user: "svc".to_string(),
        key_path: None,
    };
    let t = resolve_tunnel_target(&spec, None, None).unwrap();
    assert_eq!(t.hostname, "jump.example.com");
    assert_eq!(t.port, 22);
    assert_eq!(t.user, "svc");
    assert!(t.key_path.is_none());
}

#[test]
fn test_resolve_config_ref_target() {
    let spec = SshTunnel::ConfigRef { ssh_config: "prod".to_string() };
    // The reference without a parsed entry is a configuration error.
    assert!(resolve_tunnel_target(&spec, None, None).is_err());

    let parsed = SshHostConfig {
        hostname: "prod.internal".to_string(),
        port: 2222,
        user: None,
        identity_file: Some("/home/u/.ssh/prod".to_string()),
    };
    // No user anywhere: a configuration error.
    assert!(resolve_tunnel_target(&spec, Some(&parsed), None).is_err());
    // The environment user fills in.
    let t = resolve_tunnel_target(&spec, Some(&parsed), Some("envuser")).unwrap();
    assert_eq!(t.hostname, "prod.internal");
    assert_eq!(t.port, 2222);
    assert_eq!(t.user, "envuser");
    assert_eq!(t.key_path.unwrap(), "/home/u/.ssh/prod");
}
