//! SSH client-configuration parsing.
//!
//! Extracts the connection details of one aliased host from configuration
//! text of the usual `Host` / keyword-value shape.  The caller reads the
//! file and knows the home directory; this module only parses.

use vstd::prelude::*;
use vstd::string::*;

use crate::errors::DadbodError;
use crate::text::{
    chars_of, chars_eq_str, find_space_from, parse_u16_chars,
    push_all, push_str_chars, split_char_spec, split_chars, string_of, string_opt_view, subvec,
    trim_chars, trim_spec, u16_parse_spec, views_of,
};

verus! {

/// The connection details of one configured host.
#[derive(Debug, Clone)]
pub struct SshHostConfig {
    pub hostname: String,
    pub port: u16,
    pub user: Option<String>,
    /// As written in the configuration; a leading `~` is expanded by the
    /// caller, which knows the home directory.
    pub identity_file: Option<String>,
}

/// The mathematical shape of a parsed host configuration.
pub struct SshHostConfigView {
    pub hostname: Seq<char>,
    pub port: u16,
    pub user: Option<Seq<char>>,
    pub identity_file: Option<Seq<char>>,
}

impl View for SshHostConfig {
    type V = SshHostConfigView;

    open spec fn view(&self) -> SshHostConfigView {
        SshHostConfigView {
            hostname: self.hostname@,
            port: self.port,
            user: string_opt_view(&self.user),
            identity_file: string_opt_view(&self.identity_file),
        }
    }
}

/// The keyword and value of a configuration line: the first word and the
/// trimmed rest.  Blank lines, comments and single-word lines carry none.
pub open spec fn config_line_kv(line: Seq<char>) -> Option<(Seq<char>, Seq<char>)> {
    let t = trim_spec(line);
    if t.len() == 0 || t[0] == '#' {
        None
    } else {
        let k = find_space_from(t, 0);
        if k >= t.len() {
            None
        } else {
            Some((t.subrange(0, k), trim_spec(t.subrange(k + 1, t.len() as int))))
        }
    }
}

/// Whether the line declares a host block.
pub open spec fn is_host_decl(line: Seq<char>) -> bool {
    config_line_kv(line) matches Some(kv) && kv.0 == "Host"@
}

/// Whether the line declares the host block of `target`.
pub open spec fn is_host_decl_for(line: Seq<char>, target: Seq<char>) -> bool {
    config_line_kv(line) matches Some(kv) && kv.0 == "Host"@ && kv.1 == target
}

/// The first line at or after `i` that declares the block of `target`, or
/// the number of lines when there is none.
pub open spec fn host_block_start(lines: Seq<Seq<char>>, target: Seq<char>, i: int) -> int
    decreases lines.len() - i,
{
    if i < 0 || i >= lines.len() {
        lines.len() as int
    } else if is_host_decl_for(lines[i], target) {
        i
    } else {
        host_block_start(lines, target, i + 1)
    }
}

/// The first line at or after `i` that declares any host block.
pub open spec fn next_host_decl(lines: Seq<Seq<char>>, i: int) -> int
    decreases lines.len() - i,
{
    if i < 0 || i >= lines.len() {
        lines.len() as int
    } else if is_host_decl(lines[i]) {
        i
    } else {
        next_host_decl(lines, i + 1)
    }
}

/// The value of the last line in `[lo, hi)` that sets `key`; a repeated
/// keyword overwrites an earlier one, as a map insert would.
pub open spec fn block_lookup(
    lines: Seq<Seq<char>>,
    key: Seq<char>,
    lo: int,
    hi: int,
) -> Option<Seq<char>>
    decreases hi - lo,
{
    if hi <= lo || hi > lines.len() || lo < 0 {
        None
    } else if config_line_kv(lines[hi - 1]) matches Some(kv) && kv.0 == key {
        Some(config_line_kv(lines[hi - 1])->Some_0.1)
    } else {
        block_lookup(lines, key, lo, hi - 1)
    }
}

/// What parsing the configuration text for `target` yields: the block of
/// the first `Host target` line, read up to the next `Host` line, with
/// `HostName` (or `Hostname`) required, `Port` defaulting to 22 (as it
/// also does when the value is not a number), and `User` and
/// `IdentityFile` optional.
pub open spec fn parse_host_spec(content: Seq<char>, target: Seq<char>) -> Option<
    SshHostConfigView,
> {
    let lines = split_char_spec(content, '\n');
    let h = host_block_start(lines, target, 0);
    if h >= lines.len() {
        None
    } else {
        let e = next_host_decl(lines, h + 1);
        let hostname = match block_lookup(lines, "HostName"@, h + 1, e) {
            Some(v) => Some(v),
            None => block_lookup(lines, "Hostname"@, h + 1, e),
        };
        match hostname {
            None => None,
            Some(hn) => Some(
                SshHostConfigView {
                    hostname: hn,
                    port: match block_lookup(lines, "Port"@, h + 1, e) {
                        Some(v) => match u16_parse_spec(v) {
                            Some(p) => p,
                            None => 22,
                        },
                        None => 22,
                    },
                    user: block_lookup(lines, "User"@, h + 1, e),
                    identity_file: block_lookup(lines, "IdentityFile"@, h + 1, e),
                },
            ),
        }
    }
}

/// The keyword and value of one configuration line.
fn config_line_kv_exec(line: &Vec<char>) -> (r: Option<(Vec<char>, Vec<char>)>)
    ensures
        r is Some <==> config_line_kv(line@) is Some,
        r matches Some(kv) ==> config_line_kv(line@) matches Some(kvs) && kvs.0 == kv.0@
            && kvs.1 == kv.1@,
{
    let t = trim_chars(line);
    if t.len() == 0 {
        return None;
    }
    if t[0] == '#' {
        return None;
    }
    let mut k: usize = 0;
    while k < t.len() && !crate::text::is_space(t[k])
        invariant
            k <= t@.len(),
            forall|j: int| 0 <= j < k ==> !crate::text::is_space_char(t@[j]),
        decreases t.len() - k,
    {
        k = k + 1;
    }
    proof {
        crate::text::lemma_find_space_is(t@, 0, k as int);
    }
    if k == t.len() {
        return None;
    }
    let key = subvec(&t, 0, k);
    let raw = subvec(&t, k + 1, t.len());
    let value = trim_chars(&raw);
    Some((key, value))
}

fn host_block_start_exec(lines: &Vec<Vec<char>>, target: &Vec<char>) -> (r: usize)
    ensures
        r == host_block_start(views_of(lines@), target@, 0),
        r <= lines@.len(),
{
    let mut i: usize = 0;
    while i < lines.len()
        invariant
            i <= lines@.len(),
            host_block_start(views_of(lines@), target@, 0) == host_block_start(
                views_of(lines@),
                target@,
                i as int,
            ),
        decreases lines.len() - i,
    {
        proof {
            assert(views_of(lines@)[i as int] == lines@[i as int]@);
        }
        let decl = match config_line_kv_exec(&lines[i]) {
            Some(kv) => chars_eq_str(&kv.0, "Host") && crate::text::chars_eq(&kv.1, target),
            None => false,
        };
        if decl {
            return i;
        }
        i = i + 1;
    }
    i
}

fn next_host_decl_exec(lines: &Vec<Vec<char>>, from: usize) -> (r: usize)
    ensures
        r == next_host_decl(views_of(lines@), from as int),
        from <= lines@.len() ==> from <= r <= lines@.len(),
{
    let mut i: usize = from;
    if i > lines.len() {
        proof {
            assert(next_host_decl(views_of(lines@), from as int) == views_of(lines@).len() as int);
        }
        return lines.len();
    }
    while i < lines.len()
        invariant
            from as int <= i as int <= lines@.len(),
            next_host_decl(views_of(lines@), from as int) == next_host_decl(
                views_of(lines@),
                i as int,
            ),
        decreases lines.len() - i,
    {
        proof {
            assert(views_of(lines@)[i as int] == lines@[i as int]@);
        }
        let decl = match config_line_kv_exec(&lines[i]) {
            Some(kv) => chars_eq_str(&kv.0, "Host"),
            None => false,
        };
        if decl {
            return i;
        }
        i = i + 1;
    }
    i
}

fn block_lookup_exec(lines: &Vec<Vec<char>>, key: &str, lo: usize, hi: usize) -> (r: Option<
    Vec<char>,
>)
    requires
        hi <= lines@.len(),
    ensures
        r is Some <==> block_lookup(views_of(lines@), key@, lo as int, hi as int) is Some,
        r matches Some(v) ==> Some(v@) == block_lookup(views_of(lines@), key@, lo as int, hi as int),
{
    let mut j: usize = hi;
    while j > lo
        invariant
            j <= hi <= lines@.len(),
            block_lookup(views_of(lines@), key@, lo as int, hi as int) == block_lookup(
                views_of(lines@),
                key@,
                lo as int,
                j as int,
            ),
        decreases j,
    {
        proof {
            assert(views_of(lines@)[j - 1] == lines@[j - 1]@);
        }
        match config_line_kv_exec(&lines[j - 1]) {
            Some(kv) => {
                if chars_eq_str(&kv.0, key) {
                    return Some(kv.1);
                }
            },
            None => (),
        }
        j = j - 1;
    }
    None
}

/// Parses the configuration text and extracts the details of `target`.
/// Fails with a configuration error exactly when no `Host target` line
/// exists, or its block names no `HostName`.
pub fn parse_host_from_config(content: &str, target_host: &str) -> (r: Result<
    SshHostConfig,
    DadbodError,
>)
    ensures
        r is Ok <==> parse_host_spec(content@, target_host@) is Some,
        r matches Ok(c) ==> parse_host_spec(content@, target_host@) matches Some(v)
            && c@.hostname == v.hostname && c@.port == v.port && c@.user == v.user
            && c@.identity_file == v.identity_file,
        r matches Err(e) ==> e is ConfigError,
{
    let cs = chars_of(content);
    let target = chars_of(target_host);
    let lines = split_chars(&cs, '\n');
    let ghost line_views = split_char_spec(content@, '\n');
    let h = host_block_start_exec(&lines, &target);
    if h == lines.len() {
        let mut m: Vec<char> = Vec::new();
        push_str_chars(&mut m, "Host '");
        push_all(&mut m, &target);
        push_str_chars(&mut m, "' not found in SSH config");
        return Err(DadbodError::ConfigError(string_of(&m)));
    }
    let e = next_host_decl_exec(&lines, h + 1);
    let hostname_v = match block_lookup_exec(&lines, "HostName", h + 1, e) {
        Some(v) => Some(v),
        None => block_lookup_exec(&lines, "Hostname", h + 1, e),
    };
    let hn = match hostname_v {
        Some(v) => v,
        None => {
            let mut m: Vec<char> = Vec::new();
            push_str_chars(&mut m, "HostName not specified in SSH config");
            return Err(DadbodError::ConfigError(string_of(&m)));
        },
    };
    let port: u16 = match block_lookup_exec(&lines, "Port", h + 1, e) {
        Some(v) => match parse_u16_chars(&v) {
            Some(p) => p,
            None => 22,
        },
        None => 22,
    };
    let user = match block_lookup_exec(&lines, "User", h + 1, e) {
        Some(v) => Some(string_of(&v)),
        None => None,
    };
    let identity_file = match block_lookup_exec(&lines, "IdentityFile", h + 1, e) {
        Some(v) => Some(string_of(&v)),
        None => None,
    };
    Ok(
        SshHostConfig {
            hostname: string_of(&hn),
            port,
            user,
            identity_file,
        },
    )
}

/// `path` with a leading `~/` replaced by the home directory, when one is
/// known; any other path is returned as it is.
pub open spec fn expand_tilde_spec(path: Seq<char>, home: Option<Seq<char>>) -> Seq<char> {
    if path.len() >= 2 && path[0] == '~' && path[1] == '/' && home is Some {
        home->Some_0 + path.subrange(1, path.len() as int)
    } else {
        path
    }
}

/// Expands a leading `~/` to the home directory.
pub fn expand_tilde(path: &str, home: Option<&str>) -> (r: String)
    ensures
        r@ == expand_tilde_spec(
            path@,
            match home {
                Some(hs) => Some(hs@),
                None => None,
            },
        ),
{
    let p = chars_of(path);
    if p.len() >= 2 && p[0] == '~' && p[1] == '/' {
        match home {
            Some(hs) => {
                let mut v = chars_of(hs);
                let rest = subvec(&p, 1, p.len());
                push_all(&mut v, &rest);
                return string_of(&v);
            },
            None => (),
        }
    }
    string_of(&p)
}

} // verus!
