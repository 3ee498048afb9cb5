//! Connection descriptors: the immutable configuration records that name
//! each database connection, loaded once at startup by the caller.

use vstd::prelude::*;
use vstd::string::*;

verus! {

/// The whole configuration: named connection descriptors and two global
/// settings.
#[derive(Debug, Clone)]
pub struct SqlConfig {
    pub connections: Vec<Connection>,
    pub log_level: String,
    /// Skip SSH host key verification; insecure, for closed test setups
    /// alone, and loudly logged by the runtime around the library.
    pub skip_host_key_verification: bool,
}

/// One named connection descriptor.
#[derive(Debug, Clone)]
pub struct Connection {
    pub name: String,
    pub db_type: String,
    pub host: String,
    pub port: u16,
    pub database: String,
    pub username: String,
    pub password: Option<String>,
    pub ssh_tunnel: Option<SshTunnel>,
}

/// How a tunnel target is named: inline SSH parameters, or a reference
/// into the user's SSH client configuration.  Both are normalised to one
/// canonical target before the connect pipeline runs.
#[derive(Debug, Clone)]
pub enum SshTunnel {
    /// Explicit SSH parameters.
    Explicit { host: String, port: u16, user: String, key_path: Option<String> },
    /// The alias of an entry in the SSH client configuration.
    ConfigRef { ssh_config: String },
}

/// The log level used when the configuration names none.
pub fn default_log_level() -> (r: String)
    ensures
        r@ == "info"@,
{
    crate::text::string_of(&crate::text::chars_of("info"))
}

/// The database port used when the descriptor names none.
pub fn default_postgres_port() -> (r: u16)
    ensures
        r == 5432,
{
    5432
}

/// The SSH port used when the tunnel spec names none.
pub fn default_ssh_port() -> (r: u16)
    ensures
        r == 22,
{
    22
}

/// The index of the first descriptor named `name`, or the count when
/// there is none.
pub open spec fn conn_index(cons: Seq<Connection>, name: Seq<char>) -> int
    decreases cons.len(),
{
    if cons.len() == 0 {
        0
    } else if cons[0].name@ == name {
        0
    } else {
        1 + conn_index(cons.drop_first(), name)
    }
}

pub proof fn lemma_conn_index(cons: Seq<Connection>, name: Seq<char>)
    ensures
        0 <= conn_index(cons, name) <= cons.len(),
        conn_index(cons, name) < cons.len() ==> cons[conn_index(cons, name)].name@ == name,
        forall|j: int| 0 <= j < conn_index(cons, name) ==> cons[j].name@ != name,
    decreases cons.len(),
{
    if cons.len() > 0 && cons[0].name@ != name {
        lemma_conn_index(cons.drop_first(), name);
        let cip = conn_index(cons.drop_first(), name);
        if cip < cons.drop_first().len() {
            assert(cons.drop_first()[cip] == cons[cip + 1]);
        }
        assert forall|j: int| 0 <= j < conn_index(cons, name) implies cons[j].name@ != name by {
            if j > 0 {
                assert(cons.drop_first()[j - 1] == cons[j]);
            }
        }
    }
}

/// Whether some descriptor is named `name`.
pub open spec fn has_connection(cons: Seq<Connection>, name: Seq<char>) -> bool {
    conn_index(cons, name) < cons.len()
}

impl SqlConfig {
    /// The first descriptor named `name`, if one exists.
    pub fn get_connection(&self, name: &str) -> (r: Option<&Connection>)
        ensures
            r is Some <==> has_connection(self.connections@, name@),
            r matches Some(c) ==> *c == self.connections@[conn_index(self.connections@, name@)],
    {
        proof {
            lemma_conn_index(self.connections@, name@);
        }
        let n = crate::text::chars_of(name);
        let mut i: usize = 0;
        while i < self.connections.len()
            invariant
                i <= self.connections@.len(),
                n@ == name@,
                forall|j: int| 0 <= j < i ==> self.connections@[j].name@ != name@,
                conn_index(self.connections@, name@) >= i,
        decreases self.connections@.len() - i,
        {
            if crate::text::chars_eq_str(&n, self.connections[i].name.as_str()) {
                proof {
                    lemma_conn_index_at(self.connections@, name@, i as int);
                }
                return Some(&self.connections[i]);
            }
            proof {
                lemma_conn_index_past(self.connections@, name@, i as int + 1);
            }
            i = i + 1;
        }
        None
    }

    /// Every configured connection name, in order.
    pub fn list_connections(&self) -> (r: Vec<String>)
        ensures
            r@.len() == self.connections@.len(),
            forall|i: int| 0 <= i < r@.len() ==> #[trigger] r@[i]@ == self.connections@[i].name@,
    {
        let mut r: Vec<String> = Vec::new();
        let mut i: usize = 0;
        while i < self.connections.len()
            invariant
                i <= self.connections@.len(),
                r@.len() == i,
                forall|j: int| 0 <= j < i ==> #[trigger] r@[j]@ == self.connections@[j].name@,
            decreases self.connections@.len() - i,
        {
            r.push(self.connections[i].name.clone());
            i = i + 1;
        }
        r
    }
}

/// `conn_index` stops exactly at the first hit.
proof fn lemma_conn_index_at(cons: Seq<Connection>, name: Seq<char>, i: int)
    requires
        0 <= i < cons.len(),
        cons[i].name@ == name,
        forall|j: int| 0 <= j < i ==> cons[j].name@ != name,
    ensures
        conn_index(cons, name) == i,
    decreases i,
{
    if i > 0 {
        assert(forall|j: int| 0 <= j < i - 1 ==> cons.drop_first()[j] == cons[j + 1]);
        lemma_conn_index_at(cons.drop_first(), name, i - 1);
    }
}

/// `conn_index` passes every miss.
proof fn lemma_conn_index_past(cons: Seq<Connection>, name: Seq<char>, i: int)
    requires
        0 <= i <= cons.len(),
        forall|j: int| 0 <= j < i ==> cons[j].name@ != name,
    ensures
        conn_index(cons, name) >= i,
    decreases i,
{
    lemma_conn_index(cons, name);
    if i > 0 {
        assert(cons[0].name@ != name);
        assert forall|j: int| 0 <= j < i - 1 implies #[trigger] cons.drop_first()[j].name@
            != name by {
            assert(cons.drop_first()[j] == cons[j + 1]);
        }
        lemma_conn_index_past(cons.drop_first(), name, i - 1);
    }
}

impl Connection {
    /// Whether this connection is reached through an SSH tunnel.
    pub fn needs_tunnel(&self) -> (r: bool)
        ensures
            r == (self.ssh_tunnel is Some),
    {
        self.ssh_tunnel.is_some()
    }
}

} // verus!
