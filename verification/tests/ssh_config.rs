use helix_dadbod::ssh_config::{expand_tilde, parse_host_from_config};

#[test]
fn test_parse_host_from_config() {
    let config = r#"
# Comment line
Host example
    HostName example.com
    Port 2222
    User testuser
    IdentityFile ~/.ssh/example_key

Host another
    HostName another.com
    User anotheruser
"#;

    let result = parse_host_from_config(config, "example").unwrap();
    assert_eq!(result.hostname, "example.com");
    assert_eq!(result.port, 2222);
    assert_eq!(result.user.unwrap(), "testuser");
    assert!(result.identity_file.is_some());
}

#[test]
fn test_parse_host_defaults() {
    let config = r#"
Host minimal
    HostName minimal.com
"#;

    let result = parse_host_from_config(config, "minimal").unwrap();
    assert_eq!(result.hostname, "minimal.com");
    assert_eq!(result.port, 22); // Default port
    assert!(result.user.is_none());
    assert!(result.identity_file.is_none());
}

#[test]
fn test_parse_host_not_found() {
    let config = r#"
Host example
    HostName example.com
"#;

    let result = parse_host_from_config(config, "nonexistent");
    assert!(result.is_err());
}

#[test]
fn test_expand_tilde() {
    let expanded = expand_tilde("~/test/path", Some("/home/someone"));
    assert!(!expanded.starts_with("~/"));
    assert_eq!(expanded, "/home/someone/test/path");

    let no_tilde = expand_tilde("/absolute/path", Some("/home/someone"));
    assert_eq!(no_tilde, "/absolute/path");

    let no_home = expand_tilde("~/test/path", None);
    assert_eq!(no_home, "~/test/path");
}

#[test]
fn test_parse_multiple_hosts() {
    let config = r#"
Host first
    HostName first.com
    Port 1111

Host second
    HostName second.com
    Port 2222

Host third
    HostName third.com
    Port 3333
"#;

    let result = parse_host_from_config(config, "second").unwrap();
    assert_eq!(result.hostname, "second.com");
    assert_eq!(result.port, 2222);
}

#[test]
fn test_parse_bad_port_falls_back_to_default() {
    let config = "Host p\n    HostName p.com\n    Port notanumber\n";
    let result = parse_host_from_config(config, "p").unwrap();
    assert_eq!(result.port, 22);
}

#[test]
fn test_repeated_keyword_last_wins() {
    let config = "Host r\n    HostName first.com\n    HostName second.com\n";
    let result = parse_host_from_config(config, "r").unwrap();
    assert_eq!(result.hostname, "second.com");
}

#[test]
fn test_missing_hostname_is_config_error() {
    let config = "Host nohost\n    User u\n";
    assert!(parse_host_from_config(config, "nohost").is_err());
}
