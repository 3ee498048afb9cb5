//! Host-identity verification against a known-hosts trust store.
//!
//! A trust store is line-oriented text; each useful line holds a host
//! pattern, a key type and base64 key material.  The host pattern is either
//! a comma-separated list of plain globs, or a hashed entry
//! `|1|salt-base64|hash-base64` whose hash is the HMAC-SHA1 of the looked-up
//! host string under the decoded salt.  Verification succeeds exactly when
//! some line matches both the host and the presented key's canonical wire
//! encoding.

use vstd::prelude::*;
use vstd::string::*;
use vstd::utf8::encode_utf8;

use crate::text::{
    bytes_eq, chars_eq, chars_eq_str, chars_of, dec_str, push_all, split_char_spec, split_chars,
    split_ws_spec, split_ws, starts_with_str, string_of, subvec, trim_chars, trim_spec,
    u16_to_chars, views_of,
};

verus! {

/// Glob matching as the trust store uses it: `*` matches any run of
/// characters, the empty run included, and `?` matches exactly one.
pub open spec fn glob_match_spec(p: Seq<char>, h: Seq<char>) -> bool
    decreases p.len(), h.len(),
{
    if p.len() == 0 {
        h.len() == 0
    } else if p[0] == '*' {
        glob_match_spec(p.drop_first(), h) || (h.len() > 0 && glob_match_spec(p, h.drop_first()))
    } else if p[0] == '?' {
        h.len() > 0 && glob_match_spec(p.drop_first(), h.drop_first())
    } else {
        h.len() > 0 && h[0] == p[0] && glob_match_spec(p.drop_first(), h.drop_first())
    }
}

fn glob_at(p: &Vec<char>, h: &Vec<char>, pi: usize, hi: usize) -> (r: bool)
    requires
        pi <= p@.len(),
        hi <= h@.len(),
    ensures
        r == glob_match_spec(p@.skip(pi as int), h@.skip(hi as int)),
    decreases p@.len() - pi, h@.len() - hi,
{
    proof {
        if pi < p@.len() {
            assert(p@.skip(pi as int).drop_first() =~= p@.skip(pi as int + 1));
        }
        if hi < h@.len() {
            assert(h@.skip(hi as int).drop_first() =~= h@.skip(hi as int + 1));
        }
        assert(p@.skip(pi as int).len() == p@.len() - pi);
        assert(h@.skip(hi as int).len() == h@.len() - hi);
    }
    if pi == p.len() {
        hi == h.len()
    } else if p[pi] == '*' {
        if glob_at(p, h, pi + 1, hi) {
            true
        } else if hi < h.len() {
            glob_at(p, h, pi, hi + 1)
        } else {
            false
        }
    } else if p[pi] == '?' {
        hi < h.len() && glob_at(p, h, pi + 1, hi + 1)
    } else {
        hi < h.len() && h[hi] == p[pi] && glob_at(p, h, pi + 1, hi + 1)
    }
}

/// Law: the bare glob `*` matches every host string, the empty one
/// included.
pub proof fn lemma_glob_star_matches_all(h: Seq<char>)
    ensures
        glob_match_spec(seq!['*'], h),
    decreases h.len(),
{
    let p = seq!['*'];
    assert(p.drop_first() =~= Seq::<char>::empty());
    if h.len() == 0 {
        assert(glob_match_spec(p.drop_first(), h));
    } else {
        lemma_glob_star_matches_all(h.drop_first());
    }
}

/// Whether the glob `pattern` matches the whole of `hostname`.
pub fn pattern_match(hostname: &str, pattern: &str) -> (r: bool)
    ensures
        r == glob_match_spec(pattern@, hostname@),
{
    let h = chars_of(hostname);
    let p = chars_of(pattern);
    pattern_match_chars(&h, &p)
}

fn pattern_match_chars(hostname: &Vec<char>, pattern: &Vec<char>) -> (r: bool)
    ensures
        r == glob_match_spec(pattern@, hostname@),
{
    proof {
        assert(pattern@.skip(0) =~= pattern@);
        assert(hostname@.skip(0) =~= hostname@);
    }
    glob_at(pattern, hostname, 0, 0)
}

/// A glob prefixed with `*` matches whatever its tail matched: the star
/// stands for the empty run.
proof fn lemma_glob_star_intro(p: Seq<char>, h: Seq<char>)
    requires
        glob_match_spec(p, h),
    ensures
        glob_match_spec(seq!['*'] + p, h),
{
    let q = seq!['*'] + p;
    assert(q[0] == '*');
    assert(q.drop_first() =~= p);
}

/// Every pattern matches itself, wildcards standing for themselves, so
/// the literal-equality test in plain host matching is a fast path, not
/// an extra rule.
pub proof fn lemma_glob_reflexive(p: Seq<char>)
    ensures
        glob_match_spec(p, p),
    decreases p.len(),
{
    if p.len() > 0 {
        lemma_glob_reflexive(p.drop_first());
        if p[0] == '*' {
            lemma_glob_star_intro(p.drop_first(), p.drop_first());
            assert(seq!['*'] + p.drop_first() =~= p);
            assert(glob_match_spec(p, p.drop_first()));
        }
    }
}

/// Whether one comma-separated piece of a plain host field matches: either
/// literally, or as a glob.
pub open spec fn host_piece_match(piece: Seq<char>, hostname: Seq<char>) -> bool {
    piece == hostname || glob_match_spec(piece, hostname)
}

/// Whether a plain (non-hashed) host field matches `hostname`: some
/// comma-separated piece of it does.
pub open spec fn plaintext_host_match(pattern: Seq<char>, hostname: Seq<char>) -> bool {
    exists|i: int|
        0 <= i < split_char_spec(pattern, ',').len() && host_piece_match(
            split_char_spec(pattern, ',')[i],
            hostname,
        )
}

/// Whether the comma-separated plain host `pattern` matches `hostname`.
pub fn check_plaintext_host(hostname: &str, pattern: &str) -> (r: bool)
    ensures
        r == plaintext_host_match(pattern@, hostname@),
{
    let h = chars_of(hostname);
    let p = chars_of(pattern);
    check_plaintext_host_chars(&h, &p)
}

fn check_plaintext_host_chars(hostname: &Vec<char>, pattern: &Vec<char>) -> (r: bool)
    ensures
        r == plaintext_host_match(pattern@, hostname@),
{
    let pieces = split_chars(pattern, ',');
    let ghost piece_views = split_char_spec(pattern@, ',');
    let mut i: usize = 0;
    while i < pieces.len()
        invariant
            i <= pieces@.len(),
            views_of(pieces@) == piece_views,
            piece_views == split_char_spec(pattern@, ','),
            forall|j: int| 0 <= j < i ==> !host_piece_match(piece_views[j], hostname@),
        decreases pieces.len() - i,
    {
        proof {
            assert(piece_views[i as int] == pieces@[i as int]@);
        }
        if chars_eq(&pieces[i], hostname) {
            return true;
        }
        if pattern_match_chars(hostname, &pieces[i]) {
            return true;
        }
        i = i + 1;
    }
    proof {
        assert(forall|j: int|
            0 <= j < piece_views.len() ==> !host_piece_match(piece_views[j], hostname@));
    }
    false
}

/// What the base64 STANDARD alphabet decodes a text to, if it decodes at
/// all; a function of the text alone.
pub uninterp spec fn base64_decoding(s: Seq<char>) -> Option<Seq<u8>>;

/// Relies on base64's `engine::general_purpose::STANDARD.decode`: the
/// decoded bytes of a standard-alphabet base64 text, or a failure, both
/// functions of the text alone.
#[verifier::external_body]
fn base64_decode(s: &str) -> (r: Option<Vec<u8>>)
    ensures
        r is Some <==> base64_decoding(s@) is Some,
        r matches Some(v) ==> Some(v@) == base64_decoding(s@),
{
    base64::Engine::decode(&base64::engine::general_purpose::STANDARD, s).ok()
}

/// The base64 STANDARD (padded) rendering of a byte sequence.
pub uninterp spec fn base64_encoding(b: Seq<u8>) -> Seq<char>;

/// Relies on base64's `engine::general_purpose::STANDARD.encode`: the
/// padded standard-alphabet rendering, a function of the bytes alone.
#[verifier::external_body]
fn base64_encode(b: &Vec<u8>) -> (r: String)
    ensures
        r@ == base64_encoding(b@),
{
    base64::Engine::encode(&base64::engine::general_purpose::STANDARD, b.as_slice())
}

/// The HMAC-SHA1 digest of `msg` under `key`; a function of the two alone.
pub uninterp spec fn hmac_sha1(key: Seq<u8>, msg: Seq<u8>) -> Seq<u8>;

/// Relies on hmac::Hmac over sha1::Sha1: the HMAC-SHA1 digest, a function
/// of key and message alone.  `new_from_slice` accepts every key length
/// for an HMAC, so the construction cannot fail.
#[verifier::external_body]
fn hmac_sha1_digest(key: &Vec<u8>, msg: &Vec<u8>) -> (r: Vec<u8>)
    ensures
        r@ == hmac_sha1(key@, msg@),
{
    let mut mac = <hmac::Hmac<sha1::Sha1> as hmac::Mac>::new_from_slice(key.as_slice()).expect(
        "HMAC accepts any key length",
    );
    hmac::Mac::update(&mut mac, msg.as_slice());
    hmac::Mac::finalize(mac).into_bytes().to_vec()
}

/// The canonical SSH wire encoding of the public key a blob parses to, or
/// nothing when the blob is not a well-formed public key; a function of the
/// blob alone.
pub uninterp spec fn ssh_key_canonical(blob: Seq<u8>) -> Option<Seq<u8>>;

/// Relies on russh_keys::key::parse_public_key and
/// russh_keys::PublicKeyBase64::public_key_bytes: a blob either fails to
/// parse, or parses to a key whose canonical wire encoding both are
/// functions of the blob alone.
#[verifier::external_body]
fn entry_key_canonical(blob: &Vec<u8>) -> (r: Option<Vec<u8>>)
    ensures
        r is Some <==> ssh_key_canonical(blob@) is Some,
        r matches Some(v) ==> Some(v@) == ssh_key_canonical(blob@),
{
    match russh_keys::key::parse_public_key(blob.as_slice(), None) {
        Ok(k) => Some(russh_keys::PublicKeyBase64::public_key_bytes(&k)),
        Err(_) => None,
    }
}

/// Whether a hashed host entry `|1|salt-base64|hash-base64` matches
/// `hostname`: the salt decodes, and the HMAC-SHA1 of `hostname` under it
/// re-encodes to exactly the stored hash.
pub open spec fn hashed_host_match(entry: Seq<char>, hostname: Seq<char>) -> bool {
    let parts = split_char_spec(entry, '|');
    &&& parts.len() == 4
    &&& parts[0].len() == 0
    &&& parts[1] == seq!['1']
    &&& base64_decoding(parts[2]) matches Some(salt) && base64_encoding(
        hmac_sha1(salt, encode_utf8(hostname)),
    ) == parts[3]
}

/// Whether the hashed entry matches the host string.  A malformed entry or
/// an undecodable salt is a miss, never an error.
pub fn check_hashed_host(hostname: &str, hashed_entry: &str) -> (r: bool)
    ensures
        r == hashed_host_match(hashed_entry@, hostname@),
{
    let h = chars_of(hostname);
    let e = chars_of(hashed_entry);
    check_hashed_host_chars(&h, &e)
}

fn check_hashed_host_chars(hostname: &Vec<char>, entry: &Vec<char>) -> (r: bool)
    ensures
        r == hashed_host_match(entry@, hostname@),
{
    let parts = split_chars(entry, '|');
    let ghost part_views = split_char_spec(entry@, '|');
    proof {
        assert(views_of(parts@).len() == parts@.len());
    }
    if parts.len() != 4 {
        return false;
    }
    proof {
        assert(part_views[0] == parts@[0]@);
        assert(part_views[1] == parts@[1]@);
        assert(part_views[2] == parts@[2]@);
        assert(part_views[3] == parts@[3]@);
    }
    if parts[0].len() != 0 {
        return false;
    }
    proof {
        reveal_strlit("1");
        assert("1"@ =~= seq!['1']);
    }
    if !chars_eq_str(&parts[1], "1") {
        return false;
    }
    let salt_b64 = string_of(&parts[2]);
    let salt = match base64_decode(salt_b64.as_str()) {
        Some(s) => s,
        None => {
            return false;
        },
    };
    let host_string = string_of(hostname);
    let host_bytes = host_string.as_str().as_bytes_vec();
    let digest = hmac_sha1_digest(&salt, &host_bytes);
    let digest_b64 = base64_encode(&digest);
    let digest_chars = chars_of(digest_b64.as_str());
    chars_eq(&digest_chars, &parts[3])
}

/// The marker that opens a hashed host field.
pub open spec fn hashed_marker() -> Seq<char> {
    seq!['|', '1', '|']
}

/// Whether a host field matches the looked-up host string: hashed fields by
/// their digest, all others as comma-separated plain globs.
pub open spec fn host_field_match(field: Seq<char>, lookup: Seq<char>) -> bool {
    if field.len() >= 3 && field.subrange(0, 3) == hashed_marker() {
        hashed_host_match(field, lookup)
    } else {
        plaintext_host_match(field, lookup)
    }
}

/// Whether a key-material field names exactly the presented key: the field
/// decodes from base64, parses as a public key, and that key's canonical
/// wire encoding equals the presented one byte for byte.
pub open spec fn entry_key_match(key_field: Seq<char>, presented: Seq<u8>) -> bool {
    base64_decoding(key_field) matches Some(blob) && ssh_key_canonical(blob) == Some(presented)
}

/// Whether one trust-store line certifies the presented key for the
/// looked-up host string: the line is neither blank nor a comment, has at
/// least the three fields, and matches on both host and key.
pub open spec fn known_hosts_line_matches(
    line: Seq<char>,
    lookup: Seq<char>,
    presented: Seq<u8>,
) -> bool {
    let t = trim_spec(line);
    let fields = split_ws_spec(t);
    &&& t.len() > 0
    &&& t[0] != '#'
    &&& fields.len() >= 3
    &&& host_field_match(fields[0], lookup)
    &&& entry_key_match(fields[2], presented)
}

/// The host string that is looked up in the store: the bare hostname for
/// the protocol-default port 22, else `[hostname]:port`.
pub open spec fn lookup_pattern_spec(hostname: Seq<char>, port: u16) -> Seq<char> {
    if port == 22 {
        hostname
    } else {
        seq!['['] + hostname + seq![']', ':'] + dec_str(port as nat)
    }
}

/// The host string looked up in the store for `hostname` and `port`.
pub fn lookup_pattern(hostname: &Vec<char>, port: u16) -> (r: Vec<char>)
    ensures
        r@ == lookup_pattern_spec(hostname@, port),
{
    if port == 22 {
        let r = subvec(hostname, 0, hostname.len());
        proof {
            assert(hostname@.subrange(0, hostname@.len() as int) =~= hostname@);
        }
        r
    } else {
        let mut r: Vec<char> = Vec::new();
        r.push('[');
        push_all(&mut r, hostname);
        r.push(']');
        r.push(':');
        let digits = u16_to_chars(port);
        push_all(&mut r, &digits);
        proof {
            assert(r@ =~= lookup_pattern_spec(hostname@, port));
        }
        r
    }
}

fn line_matches_exec(line: &Vec<char>, lookup: &Vec<char>, presented: &Vec<u8>) -> (r: bool)
    ensures
        r == known_hosts_line_matches(line@, lookup@, presented@),
{
    let t = trim_chars(line);
    if t.len() == 0 {
        return false;
    }
    if t[0] == '#' {
        return false;
    }
    let fields = split_ws(&t);
    let ghost field_views = split_ws_spec(t@);
    if fields.len() < 3 {
        proof {
            assert(views_of(fields@).len() == fields@.len());
        }
        return false;
    }
    proof {
        assert(field_views[0] == fields@[0]@);
        assert(field_views[2] == fields@[2]@);
        reveal_strlit("|1|");
        assert("|1|"@ =~= hashed_marker());
    }
    let host_ok = if starts_with_str(&fields[0], "|1|") {
        check_hashed_host_chars(lookup, &fields[0])
    } else {
        check_plaintext_host_chars(lookup, &fields[0])
    };
    if !host_ok {
        return false;
    }
    let key_b64 = string_of(&fields[2]);
    let blob = match base64_decode(key_b64.as_str()) {
        Some(b) => b,
        None => {
            return false;
        },
    };
    let canonical = match entry_key_canonical(&blob) {
        Some(c) => c,
        None => {
            return false;
        },
    };
    bytes_eq(&canonical, presented)
}

/// Whether the trust store `contents` certifies `presented_key` (the
/// canonical SSH wire encoding of the server's key) for `hostname:port`.
pub open spec fn verify_host_key_spec(
    contents: Seq<char>,
    hostname: Seq<char>,
    port: u16,
    presented: Seq<u8>,
) -> bool {
    exists|i: int|
        0 <= i < split_char_spec(contents, '\n').len() && known_hosts_line_matches(
            split_char_spec(contents, '\n')[i],
            lookup_pattern_spec(hostname, port),
            presented,
        )
}

/// Scans the trust store for a line that matches both the looked-up host
/// string and the presented key.  Fails closed: a missing, malformed or
/// mismatched entry is never a match.
pub fn verify_host_key(
    contents: &str,
    hostname: &str,
    port: u16,
    presented_key: &Vec<u8>,
) -> (r: bool)
    ensures
        r == verify_host_key_spec(contents@, hostname@, port, presented_key@),
{
    let cs = chars_of(contents);
    let h = chars_of(hostname);
    let lookup = lookup_pattern(&h, port);
    let lines = split_chars(&cs, '\n');
    let ghost line_views = split_char_spec(contents@, '\n');
    let mut i: usize = 0;
    while i < lines.len()
        invariant
            i <= lines@.len(),
            views_of(lines@) == line_views,
            line_views == split_char_spec(contents@, '\n'),
            lookup@ == lookup_pattern_spec(hostname@, port),
            forall|j: int|
                0 <= j < i ==> !known_hosts_line_matches(
                    line_views[j],
                    lookup_pattern_spec(hostname@, port),
                    presented_key@,
                ),
        decreases lines.len() - i,
    {
        proof {
            assert(line_views[i as int] == lines@[i as int]@);
        }
        if line_matches_exec(&lines[i], &lookup, presented_key) {
            return true;
        }
        i = i + 1;
    }
    false
}

} // verus!
