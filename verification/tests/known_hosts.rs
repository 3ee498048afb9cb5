use helix_dadbod::known_hosts::{
    check_hashed_host, check_plaintext_host, pattern_match, verify_host_key,
};

// A well-formed ed25519 public key (the RFC 8032 test key), in the SSH wire
// encoding that both the trust store's base64 column and a presented key's
// canonical bytes use.
const KEY_B64: &str = "AAAAC3NzaC1lZDI1NTE5AAAAINdamAGCsQq31Uv+08lkBzoO4XLz2qYjJa8CGmj3B1Ea";

fn key_wire() -> Vec<u8> {
    let mut wire: Vec<u8> = Vec::new();
    wire.extend_from_slice(&11u32.to_be_bytes());
    wire.extend_from_slice(b"ssh-ed25519");
    wire.extend_from_slice(&32u32.to_be_bytes());
    let key_hex = "d75a980182b10ab7d54bfed3c964073a0ee172f3daa62325af021a68f707511a";
    let mut bytes = Vec::new();
    let hex_chars: Vec<char> = key_hex.chars().collect();
    for pair in hex_chars.chunks(2) {
        let hi = pair[0].to_digit(16).unwrap() as u8;
        let lo = pair[1].to_digit(16).unwrap() as u8;
        bytes.push(hi * 16 + lo);
    }
    wire.extend_from_slice(&bytes);
    wire
}

#[test]
fn test_pattern_match() {
    assert!(pattern_match("example.com", "example.com"));
    assert!(pattern_match("example.com", "*.com"));
    assert!(pattern_match("example.com", "example.*"));
    assert!(pattern_match("example.com", "*"));
    assert!(pattern_match("example.com", "ex?mple.com"));

    assert!(!pattern_match("example.com", "example.org"));
    assert!(!pattern_match("example.com", "*.org"));
}

#[test]
fn test_check_plaintext_host() {
    assert!(check_plaintext_host("example.com", "example.com"));
    assert!(check_plaintext_host("example.com", "example.com,other.com"));
    assert!(check_plaintext_host("example.com", "*.com"));

    assert!(!check_plaintext_host("example.com", "other.com"));
    assert!(!check_plaintext_host("example.com", "example.org"));
}

#[test]
fn test_non_standard_port_format() {
    // Non-standard ports use bracket notation.
    assert!(check_plaintext_host("[example.com]:2222", "[example.com]:2222"));
    assert!(!check_plaintext_host("[example.com]:2222", "example.com"));
    assert!(!check_plaintext_host("example.com", "[example.com]:2222"));
}

#[test]
fn test_glob_star_matches_subdomain_not_bare_domain() {
    assert!(pattern_match("db.example.com", "*.example.com"));
    assert!(!pattern_match("example.com", "*.example.com"));
    assert!(pattern_match("anything.at.all", "*"));
    assert!(pattern_match("example.com", "ex?mple.com"));
    assert!(!pattern_match("exmple.com", "ex?mple.com"));
    assert!(!pattern_match("exaample.com", "ex?mple.com"));
}

#[test]
fn test_plaintext_key_match_exact_bytes() {
    let contents = format!("example.com ssh-ed25519 {}\n", KEY_B64);
    let wire = key_wire();
    assert!(verify_host_key(&contents, "example.com", 22, &wire));

    // One flipped byte in the presented key is a miss.
    let mut bad = wire.clone();
    bad[20] ^= 1;
    assert!(!verify_host_key(&contents, "example.com", 22, &bad));
}

#[test]
fn test_verify_scans_past_non_matching_lines() {
    let contents = format!(
        "# comment line\n\nshort line\nother.com ssh-ed25519 {}\nexample.com ssh-ed25519 AAAA!notbase64\nexample.com ssh-ed25519 {}\n",
        KEY_B64, KEY_B64
    );
    let wire = key_wire();
    assert!(verify_host_key(&contents, "example.com", 22, &wire));
    assert!(!verify_host_key(&contents, "elsewhere.com", 22, &wire));
    assert!(!verify_host_key("", "example.com", 22, &wire));
}

// Fixture: salt bytes 1..=20; the expected hashes are the HMAC-SHA1 of the
// host string under that salt, base64 encoded.
const SALT_B64: &str = "AQIDBAUGBwgJCgsMDQ4PEBESExQ=";
const HASH_EXAMPLE_COM: &str = "qvtG0DaqrsqPDhV2Ni+wmYohchA=";
const HASH_BRACKET_2222: &str = "uVLj+YL3GsbtNOcCoC7AMM/WVh0=";

#[test]
fn test_hashed_host_match() {
    let entry = format!("|1|{}|{}", SALT_B64, HASH_EXAMPLE_COM);
    assert!(check_hashed_host("example.com", &entry));
    // One changed hostname character misses.
    assert!(!check_hashed_host("exbmple.com", &entry));
    // Malformed hashed entries are misses, not errors.
    assert!(!check_hashed_host("example.com", "|1|only-two-parts"));
    assert!(!check_hashed_host("example.com", "|2|x|y"));
}

#[test]
fn test_hashed_entry_verifies_end_to_end() {
    let contents = format!("|1|{}|{} ssh-ed25519 {}\n", SALT_B64, HASH_EXAMPLE_COM, KEY_B64);
    let wire = key_wire();
    assert!(verify_host_key(&contents, "example.com", 22, &wire));
    assert!(!verify_host_key(&contents, "exbmple.com", 22, &wire));
}

#[test]
fn test_hashed_entry_with_non_default_port() {
    let contents = format!("|1|{}|{} ssh-ed25519 {}\n", SALT_B64, HASH_BRACKET_2222, KEY_B64);
    let wire = key_wire();
    // The lookup string for a non-default port is `[host]:port`.
    assert!(verify_host_key(&contents, "example.com", 2222, &wire));
    assert!(!verify_host_key(&contents, "example.com", 22, &wire));
}
