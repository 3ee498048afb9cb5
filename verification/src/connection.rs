//! The top-level orchestrator: the catalog of named connection
//! descriptors and the cache of active database sessions.
//!
//! Each live session is stood for by a plain handle number that the
//! runtime maps to the real client; dialling, querying and file I/O
//! happen outside, directed by the decisions made here.  The original
//! design serialises every connect and close behind one lock, so the
//! sequential model here is exactly the behaviour callers observe.

use vstd::prelude::*;
use vstd::string::*;

use crate::config::{SqlConfig, has_connection};
use crate::meta_commands::{MetaCommand, parse_spec, to_sql_spec};
use crate::sql_comments::{strip_sql_comments, strip_sql_comments_spec};
use crate::text::{
    chars_eq_str, chars_of, dec_str, push_all, push_str_chars, string_of, trim_chars, trim_spec,
    u16_to_chars,
};
use crate::tunnel::{ActiveTunnel, TunnelManager};
use crate::workspace::Workspace;

verus! {

/// One active database session: its name, the plain handle the runtime
/// maps to the live client, whether a tunnel backs it and on which local
/// port, and its scratch workspace.
#[derive(Debug, Clone)]
pub struct ActiveConnection {
    pub connection_name: String,
    /// Stands for the database session; handles are drawn from a counter,
    /// so no two sessions ever share one.
    pub session: u64,
    pub uses_tunnel: bool,
    pub local_port: Option<u16>,
    pub workspace: Workspace,
}

/// What a caller may learn about an active connection.
#[derive(Debug, Clone)]
pub struct ConnectionInfo {
    pub name: String,
    pub uses_tunnel: bool,
    pub local_port: Option<u16>,
    pub workspace: Workspace,
}

/// What one `get_or_create` request decides: reuse the cached session,
/// dial a new one, or fail on the catalog.
#[derive(Debug)]
pub enum ConnectDecision {
    /// A session for the name is live; use it, dial nothing.
    UseCached(ConnectionInfo),
    /// No session is live and the descriptor is servable: dial.
    Dial,
    /// The name is not in the catalog.
    Unknown,
    /// The descriptor names an engine the library does not serve.
    Unsupported,
}

/// The index of the first active entry named `name`, or the entry count.
pub open spec fn active_index(es: Seq<ActiveConnection>, name: Seq<char>) -> int
    decreases es.len(),
{
    if es.len() == 0 {
        0
    } else if es[0].connection_name@ == name {
        0
    } else {
        1 + active_index(es.drop_first(), name)
    }
}

pub proof fn lemma_active_index(es: Seq<ActiveConnection>, name: Seq<char>)
    ensures
        0 <= active_index(es, name) <= es.len(),
        active_index(es, name) < es.len() ==> es[active_index(es, name)].connection_name@ == name,
        forall|j: int| 0 <= j < active_index(es, name) ==> (#[trigger] es[j]).connection_name@
            != name,
    decreases es.len(),
{
    if es.len() > 0 && es[0].connection_name@ != name {
        lemma_active_index(es.drop_first(), name);
        let cip = active_index(es.drop_first(), name);
        if cip < es.drop_first().len() {
            assert(es.drop_first()[cip] == es[cip + 1]);
        }
        assert forall|j: int|
            0 <= j < active_index(es, name) implies (#[trigger] es[j]).connection_name@ != name by {
            if j > 0 {
                assert(es.drop_first()[j - 1] == es[j]);
            }
        }
    }
}

proof fn lemma_active_index_at(es: Seq<ActiveConnection>, name: Seq<char>, i: int)
    requires
        0 <= i < es.len(),
        es[i].connection_name@ == name,
        forall|j: int| 0 <= j < i ==> (#[trigger] es[j]).connection_name@ != name,
    ensures
        active_index(es, name) == i,
    decreases i,
{
    if i > 0 {
        assert(es[0].connection_name@ != name);
        assert forall|j: int| 0 <= j < i - 1 implies (
        #[trigger] es.drop_first()[j]).connection_name@ != name by {
            assert(es.drop_first()[j] == es[j + 1]);
        }
        lemma_active_index_at(es.drop_first(), name, i - 1);
    }
}

/// Whether a descriptor's engine type is one the library serves.
pub open spec fn db_type_supported(t: Seq<char>) -> bool {
    t == "postgres"@ || t == "postgresql"@
}

/// Manages the named database connections.
#[derive(Debug)]
pub struct ConnectionManager {
    pub config: SqlConfig,
    pub tunnel_manager: TunnelManager,
    pub active_connections: Vec<ActiveConnection>,
    /// The next session handle to hand out.
    pub next_session: u64,
}

impl ConnectionManager {
    /// The manager invariant: the tunnel side is well formed, at most one
    /// session is live per name, and every live session's handle was
    /// drawn below the counter, so handles never repeat.
    pub open spec fn wf(self) -> bool {
        &&& self.tunnel_manager.wf()
        &&& forall|i: int, j: int|
            0 <= i < j < self.active_connections@.len() ==> (
            #[trigger] self.active_connections@[i]).connection_name@ != (
            #[trigger] self.active_connections@[j]).connection_name@
        &&& forall|i: int|
            0 <= i < self.active_connections@.len() ==> (
            #[trigger] self.active_connections@[i]).session < self.next_session
    }

    /// The cached entry of `name`, if a session is live for it.
    pub open spec fn spec_cached(self, name: Seq<char>) -> Option<ActiveConnection> {
        if active_index(self.active_connections@, name) < self.active_connections@.len() {
            Some(self.active_connections@[active_index(self.active_connections@, name)])
        } else {
            None
        }
    }

    /// Whether serving `name` would dial: exactly when no session is
    /// cached for it.
    pub open spec fn needs_dial(self, name: Seq<char>) -> bool {
        self.spec_cached(name) is None
    }

    /// A fresh manager over `config`, with no sessions and no tunnels.
    /// The tunnel side inherits the insecure skip-verification flag.
    pub fn new(config: SqlConfig) -> (r: ConnectionManager)
        ensures
            r.wf(),
            r.config == config,
            r.tunnel_manager.tunnels@.len() == 0,
            r.tunnel_manager.port_allocator.allocated@.len() == 0,
            r.tunnel_manager.skip_host_key_verification == config.skip_host_key_verification,
            r.active_connections@.len() == 0,
            r.next_session == 0,
    {
        let skip = config.skip_host_key_verification;
        ConnectionManager {
            config,
            tunnel_manager: TunnelManager::new(skip),
            active_connections: Vec::new(),
            next_session: 0,
        }
    }

    /// Every configured connection name, in order.
    pub fn list_connections(&self) -> (r: Vec<String>)
        ensures
            r@.len() == self.config.connections@.len(),
            forall|i: int| 0 <= i < r@.len() ==> #[trigger] r@[i]@
                == self.config.connections@[i].name@,
    {
        self.config.list_connections()
    }

    /// Decides one `get_or_create` request: a cached session is reused
    /// exactly as it is (no new dial); otherwise the catalog decides
    /// whether a dial can begin, and with which failure it cannot.
    pub fn connect_decision(&self, name: &str) -> (r: ConnectDecision)
        ensures
            self.spec_cached(name@) matches Some(e) ==> (r matches ConnectDecision::UseCached(info)
                && info.name@ == e.connection_name@ && info.uses_tunnel == e.uses_tunnel
                && info.local_port == e.local_port && info.workspace@ == e.workspace@),
            self.spec_cached(name@) is None && !has_connection(self.config.connections@, name@)
                ==> r is Unknown,
            self.spec_cached(name@) is None && has_connection(self.config.connections@, name@)
                && !db_type_supported(
                self.config.connections@[crate::config::conn_index(
                    self.config.connections@,
                    name@,
                )].db_type@,
            ) ==> r is Unsupported,
            self.spec_cached(name@) is None && has_connection(self.config.connections@, name@)
                && db_type_supported(
                self.config.connections@[crate::config::conn_index(
                    self.config.connections@,
                    name@,
                )].db_type@,
            ) ==> r is Dial,
    {
        match self.lookup_active(name) {
            Some(e) => ConnectDecision::UseCached(
                ConnectionInfo {
                    name: e.connection_name.clone(),
                    uses_tunnel: e.uses_tunnel,
                    local_port: e.local_port,
                    workspace: Workspace {
                        path: e.workspace.path.clone(),
                        sql_file: e.workspace.sql_file.clone(),
                        dbout_file: e.workspace.dbout_file.clone(),
                    },
                },
            ),
            None => match self.config.get_connection(name) {
                None => ConnectDecision::Unknown,
                Some(c) => {
                    let pg = chars_of("postgres");
                    let pgq = chars_of("postgresql");
                    let t = chars_of(c.db_type.as_str());
                    if crate::text::chars_eq(&t, &pg) || crate::text::chars_eq(&t, &pgq) {
                        ConnectDecision::Dial
                    } else {
                        ConnectDecision::Unsupported
                    }
                },
            },
        }
    }

    /// The cached entry of `name`.
    fn lookup_active(&self, name: &str) -> (r: Option<&ActiveConnection>)
        ensures
            r is Some <==> self.spec_cached(name@) is Some,
            r matches Some(e) ==> Some(*e) == self.spec_cached(name@),
    {
        proof {
            lemma_active_index(self.active_connections@, name@);
        }
        let n = chars_of(name);
        let mut i: usize = 0;
        while i < self.active_connections.len()
            invariant
                i <= self.active_connections@.len(),
                n@ == name@,
                forall|j: int| 0 <= j < i ==> (
                #[trigger] self.active_connections@[j]).connection_name@ != name@,
            decreases self.active_connections@.len() - i,
        {
            if chars_eq_str(&n, self.active_connections[i].connection_name.as_str()) {
                proof {
                    lemma_active_index_at(self.active_connections@, name@, i as int);
                }
                return Some(&self.active_connections[i]);
            }
            i = i + 1;
        }
        proof {
            lemma_active_index(self.active_connections@, name@);
        }
        None
    }

    /// Records a session the runtime has just dialled for `name`, hands
    /// it a fresh handle, and builds the name's workspace paths.  The
    /// check-then-insert sequence around this call is serialised by the
    /// caller's one lock, so the name cannot race itself.
    pub fn register_connection(
        &mut self,
        name: &str,
        uses_tunnel: bool,
        local_port: Option<u16>,
    ) -> (r: (u64, Workspace))
        requires
            old(self).wf(),
            old(self).spec_cached(name@) is None,
            old(self).next_session < u64::MAX,
        ensures
            final(self).wf(),
            final(self).config == old(self).config,
            final(self).tunnel_manager == old(self).tunnel_manager,
            final(self).next_session == old(self).next_session + 1,
            r.0 == old(self).next_session,
            r.1@ == (crate::workspace::WorkspaceView {
                path: crate::workspace::workspace_root_spec(),
                sql_file: crate::workspace::sql_file_spec(name@),
                dbout_file: crate::workspace::dbout_file_spec(),
            }),
            final(self).active_connections@.len() == old(self).active_connections@.len() + 1,
            forall|j: int|
                0 <= j < old(self).active_connections@.len() ==> final(self).active_connections@[j] == old(self).active_connections@[j],
            final(self).active_connections@.last().connection_name@ == name@,
            final(self).active_connections@.last().session == old(self).next_session,
            final(self).active_connections@.last().uses_tunnel == uses_tunnel,
            final(self).active_connections@.last().local_port == local_port,
            final(self).active_connections@.last().workspace@ == r.1@,
            final(self).spec_cached(name@) == Some(final(self).active_connections@.last()),
    {
        proof {
            lemma_active_index(self.active_connections@, name@);
        }
        let ws = Workspace::for_connection(name);
        let session = self.next_session;
        let entry = ActiveConnection {
            connection_name: string_of(&chars_of(name)),
            session,
            uses_tunnel,
            local_port,
            workspace: Workspace {
                path: ws.path.clone(),
                sql_file: ws.sql_file.clone(),
                dbout_file: ws.dbout_file.clone(),
            },
        };
        let ghost before = self.active_connections@;
        self.active_connections.push(entry);
        self.next_session = self.next_session + 1;
        proof {
            assert forall|j: int|
                0 <= j < before.len() implies (
            #[trigger] self.active_connections@[j]).connection_name@ != name@ by {
                assert(self.active_connections@[j] == before[j]);
            }
            lemma_active_index_at(self.active_connections@, name@, before.len() as int);
            assert forall|i: int, j: int|
                0 <= i < j < self.active_connections@.len() implies (
            #[trigger] self.active_connections@[i]).connection_name@ != (
            #[trigger] self.active_connections@[j]).connection_name@ by {
                if j < before.len() {
                    assert(self.active_connections@[i] == before[i]);
                    assert(self.active_connections@[j] == before[j]);
                } else {
                    assert(self.active_connections@[i] == before[i]);
                }
            }
            assert forall|i: int|
                0 <= i < self.active_connections@.len() implies (
            #[trigger] self.active_connections@[i]).session < self.next_session by {
                if i < before.len() {
                    assert(self.active_connections@[i] == before[i]);
                }
            }
        }
        (session, ws)
    }

    /// Removes the session of `name`, closing its tunnel when one backs
    /// it, and hands back what the runtime must clean up: the entry (its
    /// workspace and session) and the closed tunnel record.  A name with
    /// no session is a successful no-op, never an error.
    pub fn close_connection(&mut self, name: &str) -> (r: Option<
        (ActiveConnection, Option<ActiveTunnel>),
    >)
        requires
            old(self).wf(),
        ensures
            final(self).wf(),
            final(self).config == old(self).config,
            final(self).next_session == old(self).next_session,
            final(self).spec_cached(name@) is None,
            old(self).spec_cached(name@) is None ==> r is None && *final(self) == *old(self),
            old(self).spec_cached(name@) matches Some(e) ==> (r matches Some(pair) && pair.0 == e)
                && final(self).active_connections@ == old(self).active_connections@.remove(
                active_index(old(self).active_connections@, name@),
            ) && (old(self).spec_cached(name@)->Some_0.uses_tunnel
                ==> final(self).tunnel_manager.tunnel_port(name@) is None) && (!old(
                self,
            ).spec_cached(name@)->Some_0.uses_tunnel ==> final(self).tunnel_manager == old(
                self,
            ).tunnel_manager),
    {
        proof {
            lemma_active_index(self.active_connections@, name@);
        }
        let n = chars_of(name);
        let mut i: usize = 0;
        while i < self.active_connections.len()
            invariant
                i <= self.active_connections@.len(),
                n@ == name@,
                *self == *old(self),
                old(self).wf(),
                forall|j: int| 0 <= j < i ==> (
                #[trigger] self.active_connections@[j]).connection_name@ != name@,
            decreases self.active_connections@.len() - i,
        {
            if chars_eq_str(&n, self.active_connections[i].connection_name.as_str()) {
                proof {
                    lemma_active_index_at(self.active_connections@, name@, i as int);
                }
                let entry = self.active_connections.remove(i);
                let tunnel = if entry.uses_tunnel {
                    self.tunnel_manager.close_tunnel(name)
                } else {
                    None
                };
                proof {
                    lemma_remove_keeps_cache_wf(
                        old(self).active_connections@,
                        self.active_connections@,
                        i as int,
                        name@,
                        self.next_session,
                    );
                    if !entry.uses_tunnel {
                        assert(self.tunnel_manager == old(self).tunnel_manager);
                    }
                }
                return Some((entry, tunnel));
            }
            i = i + 1;
        }
        proof {
            lemma_active_index(self.active_connections@, name@);
        }
        None
    }

    /// Removes every session and closes every tunnel, handing everything
    /// back for cleanup.  Per-entry cleanup failures are the runtime's to
    /// log and continue past; nothing here can fail.
    pub fn close_all(&mut self) -> (r: (Vec<ActiveConnection>, Vec<ActiveTunnel>))
        requires
            old(self).wf(),
        ensures
            final(self).wf(),
            final(self).config == old(self).config,
            final(self).next_session == old(self).next_session,
            final(self).active_connections@.len() == 0,
            final(self).tunnel_manager.tunnels@.len() == 0,
            r.0@ == old(self).active_connections@,
            r.1@.len() == old(self).tunnel_manager.tunnels@.len(),
            forall|i: int| 0 <= i < r.1@.len() ==> #[trigger] r.1@[i] == old(
                self,
            ).tunnel_manager.tunnels@[i].tunnel,
            forall|i: int|
                0 <= i < old(self).tunnel_manager.tunnels@.len() ==> !(#[trigger] final(self).tunnel_manager.port_allocator.tracks_port(
                    old(self).tunnel_manager.tunnels@[i].tunnel.local_port,
                )),
    {
        let mut drained: Vec<ActiveConnection> = Vec::new();
        core::mem::swap(&mut drained, &mut self.active_connections);
        let tunnels = self.tunnel_manager.close_all();
        (drained, tunnels)
    }

    /// What a caller may learn about the active connection of `name`.
    pub fn get_connection_info(&self, name: &str) -> (r: Option<ConnectionInfo>)
        ensures
            r is Some <==> self.spec_cached(name@) is Some,
            self.spec_cached(name@) matches Some(e) ==> (r matches Some(info) && info.name@
                == e.connection_name@ && info.uses_tunnel == e.uses_tunnel && info.local_port
                == e.local_port && info.workspace@ == e.workspace@),
    {
        match self.lookup_active(name) {
            Some(e) => Some(
                ConnectionInfo {
                    name: e.connection_name.clone(),
                    uses_tunnel: e.uses_tunnel,
                    local_port: e.local_port,
                    workspace: Workspace {
                        path: e.workspace.path.clone(),
                        sql_file: e.workspace.sql_file.clone(),
                        dbout_file: e.workspace.dbout_file.clone(),
                    },
                },
            ),
            None => None,
        }
    }

    /// Strips SQL comments from query text; see the stripping module for
    /// the exact transformation.
    pub fn strip_sql_comments(sql: &str) -> (r: String)
        ensures
            r@ == strip_sql_comments_spec(sql@),
    {
        strip_sql_comments(sql)
    }

    /// Decides what to execute for the pending input: nothing when the
    /// trimmed input is empty (a soft, reported condition, not an error);
    /// the generated SQL when, after comment stripping, a shorthand
    /// meta-command is recognised; else the trimmed input itself,
    /// comments and all.
    pub fn prepare_query(sql: &str) -> (r: PreparedQuery)
        ensures
            (trim_spec(sql@).len() == 0) <==> r is Empty,
            r matches PreparedQuery::Meta(s) ==> (parse_spec(
                strip_sql_comments_spec(trim_spec(sql@)),
            ) matches Some(v) && s@ == to_sql_spec(v)),
            r matches PreparedQuery::Plain(p) ==> parse_spec(
                strip_sql_comments_spec(trim_spec(sql@)),
            ) is None && p@ == trim_spec(sql@),
            trim_spec(sql@).len() > 0 && parse_spec(
                strip_sql_comments_spec(trim_spec(sql@)),
            ) is Some ==> r is Meta,
    {
        let cs = chars_of(sql);
        let t = trim_chars(&cs);
        if t.len() == 0 {
            return PreparedQuery::Empty;
        }
        let t_str = string_of(&t);
        let stripped = Self::strip_sql_comments(t_str.as_str());
        match MetaCommand::parse(stripped.as_str()) {
            Some(cmd) => match cmd.to_sql() {
                Ok(s) => PreparedQuery::Meta(s),
                Err(_) => vstd::pervasive::unreached(),
            },
            None => PreparedQuery::Plain(t_str),
        }
    }

    /// The trivial round-trip query a connection test issues.
    pub fn test_connection_sql() -> (r: String)
        ensures
            r@ == "SELECT version()"@,
    {
        string_of(&chars_of("SELECT version()"))
    }

    /// The payload written after a successful query: the timing header,
    /// the rendered rows (or a no-rows note), and the SQL that actually
    /// ran — every terminal outcome carries it.  The elapsed seconds come
    /// pre-rendered from the caller's clock.
    pub fn success_payload(
        timestamp: &str,
        seconds: &str,
        row_count: u64,
        body: &str,
        actual_sql: &str,
    ) -> (r: String)
        ensures
            r@ == "-- Executed at: "@ + timestamp@ + "\n-- Execution time: "@ + seconds@
                + "s\n-- Rows returned: "@ + dec_str(row_count as nat) + "\n\n"@ + body@
                + "\n\n-- Generated SQL:\n"@ + actual_sql@ + "\n"@,
    {
        let mut v: Vec<char> = Vec::new();
        push_str_chars(&mut v, "-- Executed at: ");
        push_str_chars(&mut v, timestamp);
        push_str_chars(&mut v, "\n-- Execution time: ");
        push_str_chars(&mut v, seconds);
        push_str_chars(&mut v, "s\n-- Rows returned: ");
        let digits = crate::text::u64_to_chars(row_count);
        push_all(&mut v, &digits);
        push_str_chars(&mut v, "\n\n");
        push_str_chars(&mut v, body);
        push_str_chars(&mut v, "\n\n-- Generated SQL:\n");
        push_str_chars(&mut v, actual_sql);
        push_str_chars(&mut v, "\n");
        proof {
            assert(v@ =~= "-- Executed at: "@ + timestamp@ + "\n-- Execution time: "@ + seconds@
                + "s\n-- Rows returned: "@ + dec_str(row_count as nat) + "\n\n"@ + body@
                + "\n\n-- Generated SQL:\n"@ + actual_sql@ + "\n"@);
        }
        string_of(&v)
    }

    /// The payload written after a failed query: the timing header, the
    /// engine's message when it gave one (the caller picks it out), and
    /// always the SQL that actually ran.
    pub fn failure_payload(
        timestamp: &str,
        seconds: &str,
        error_message: &str,
        actual_sql: &str,
    ) -> (r: String)
        ensures
            r@ == "-- Executed at: "@ + timestamp@ + "\n-- Execution time: "@ + seconds@
                + "s\n\nERROR: "@ + error_message@ + "\n\n-- Generated SQL:\n"@ + actual_sql@
                + "\n"@,
    {
        let mut v: Vec<char> = Vec::new();
        push_str_chars(&mut v, "-- Executed at: ");
        push_str_chars(&mut v, timestamp);
        push_str_chars(&mut v, "\n-- Execution time: ");
        push_str_chars(&mut v, seconds);
        push_str_chars(&mut v, "s\n\nERROR: ");
        push_str_chars(&mut v, error_message);
        push_str_chars(&mut v, "\n\n-- Generated SQL:\n");
        push_str_chars(&mut v, actual_sql);
        push_str_chars(&mut v, "\n");
        proof {
            assert(v@ =~= "-- Executed at: "@ + timestamp@ + "\n-- Execution time: "@ + seconds@
                + "s\n\nERROR: "@ + error_message@ + "\n\n-- Generated SQL:\n"@ + actual_sql@
                + "\n"@);
        }
        string_of(&v)
    }

    /// The message written out when no SQL is pending in `sql_file`.
    pub fn empty_query_message(sql_file: &str) -> (r: String)
        ensures
            r@ == "-- Error: No SQL query found\n-- Write your SQL query to: "@ + sql_file@
                + "\n"@,
    {
        let mut v: Vec<char> = Vec::new();
        push_str_chars(&mut v, "-- Error: No SQL query found\n-- Write your SQL query to: ");
        push_str_chars(&mut v, sql_file);
        push_str_chars(&mut v, "\n");
        string_of(&v)
    }

    /// The keyword-value connection string the database driver dials
    /// with; the password key appears exactly when a password is set.
    pub fn postgres_conn_string(
        host: &str,
        port: u16,
        user: &str,
        dbname: &str,
        password: Option<&str>,
    ) -> (r: String)
        ensures
            r@ == "host="@ + host@ + " port="@ + dec_str(port as nat) + " user="@ + user@
                + " dbname="@ + dbname@ + (match password {
                Some(p) => " password="@ + p@,
                None => Seq::<char>::empty(),
            }),
    {
        let mut v: Vec<char> = Vec::new();
        push_str_chars(&mut v, "host=");
        push_str_chars(&mut v, host);
        push_str_chars(&mut v, " port=");
        let digits = u16_to_chars(port);
        push_all(&mut v, &digits);
        push_str_chars(&mut v, " user=");
        push_str_chars(&mut v, user);
        push_str_chars(&mut v, " dbname=");
        push_str_chars(&mut v, dbname);
        match password {
            Some(p) => {
                push_str_chars(&mut v, " password=");
                push_str_chars(&mut v, p);
            },
            None => (),
        }
        proof {
            assert(v@ =~= "host="@ + host@ + " port="@ + dec_str(port as nat) + " user="@ + user@
                + " dbname="@ + dbname@ + (match password {
                Some(p) => " password="@ + p@,
                None => Seq::<char>::empty(),
            }));
        }
        string_of(&v)
    }
}

/// What `execute` decides to run for the pending input.
#[derive(Debug, Clone, PartialEq, Eq)]
pub enum PreparedQuery {
    /// The input was empty; report, execute nothing.
    Empty,
    /// A recognised shorthand, expanded to this generated SQL.
    Meta(String),
    /// Literal SQL, passed through unchanged.
    Plain(String),
}


/// Dropping one cache entry keeps the cache well shaped and leaves the
/// name without an entry.
proof fn lemma_remove_keeps_cache_wf(
    a: Seq<ActiveConnection>,
    b: Seq<ActiveConnection>,
    i: int,
    name: Seq<char>,
    next: u64,
)
    requires
        0 <= i < a.len(),
        a[i].connection_name@ == name,
        b == a.remove(i),
        forall|m: int, j: int|
            0 <= m < j < a.len() ==> (#[trigger] a[m]).connection_name@ != (
            #[trigger] a[j]).connection_name@,
        forall|m: int| 0 <= m < a.len() ==> (#[trigger] a[m]).session < next,
    ensures
        forall|m: int, j: int|
            0 <= m < j < b.len() ==> (#[trigger] b[m]).connection_name@ != (
            #[trigger] b[j]).connection_name@,
        forall|m: int| 0 <= m < b.len() ==> (#[trigger] b[m]).session < next,
        active_index(b, name) == b.len(),
{
    assert forall|m: int, j: int|
        0 <= m < j < b.len() implies (#[trigger] b[m]).connection_name@ != (
    #[trigger] b[j]).connection_name@ by {
        let ma = if m < i {
            m
        } else {
            m + 1
        };
        let ja = if j < i {
            j
        } else {
            j + 1
        };
        assert(b[m] == a[ma]);
        assert(b[j] == a[ja]);
    }
    assert forall|m: int| 0 <= m < b.len() implies (#[trigger] b[m]).session < next by {
        let ma = if m < i {
            m
        } else {
            m + 1
        };
        assert(b[m] == a[ma]);
    }
    assert forall|m: int| 0 <= m < b.len() implies (#[trigger] b[m]).connection_name@ != name by {
        let ma = if m < i {
            m
        } else {
            m + 1
        };
        assert(b[m] == a[ma]);
        if ma != i {
            if ma < i {
                assert(a[ma].connection_name@ != a[i].connection_name@);
            } else {
                assert(a[i].connection_name@ != a[ma].connection_name@);
            }
        }
    }
    lemma_active_index_none(b, name);
}

proof fn lemma_active_index_none(es: Seq<ActiveConnection>, name: Seq<char>)
    requires
        forall|j: int| 0 <= j < es.len() ==> (#[trigger] es[j]).connection_name@ != name,
    ensures
        active_index(es, name) == es.len(),
    decreases es.len(),
{
    if es.len() > 0 {
        assert(es[0].connection_name@ != name);
        assert forall|j: int| 0 <= j < es.drop_first().len() implies (
        #[trigger] es.drop_first()[j]).connection_name@ != name by {
            assert(es.drop_first()[j] == es[j + 1]);
        }
        lemma_active_index_none(es.drop_first(), name);
    }
}

/// Law: `get_or_create` is idempotent per name and dials at most once.
/// A manager holding a session for a name does not dial for it again:
/// the connect decision for that name is to reuse the cached entry, as
/// `connect_decision`'s contract then forces, and the entry it reuses is
/// the one that was registered.
pub proof fn lemma_get_or_create_idempotent(m: ConnectionManager, name: Seq<char>)
    requires
        m.wf(),
        m.spec_cached(name) is Some,
    ensures
        !m.needs_dial(name),
        m.spec_cached(name) matches Some(e) && e.connection_name@ == name,
{
    lemma_active_index(m.active_connections@, name);
}

/// Law, second half: registering a session for one name never disturbs
/// the cached session of another, so the session a name's first
/// `get_or_create` created is the one every later call returns.
pub proof fn lemma_cached_stable_under_register(
    before: ConnectionManager,
    after: ConnectionManager,
    name: Seq<char>,
)
    requires
        after.active_connections@.len() == before.active_connections@.len() + 1,
        forall|j: int|
            0 <= j < before.active_connections@.len() ==> after.active_connections@[j] == before.active_connections@[j],
        after.active_connections@.last().connection_name@ != name,
        before.spec_cached(name) is Some,
    ensures
        after.spec_cached(name) == before.spec_cached(name),
{
    lemma_active_index(before.active_connections@, name);
    let ka = active_index(before.active_connections@, name);
    assert(after.active_connections@[ka] == before.active_connections@[ka]);
    assert forall|j: int|
        0 <= j < ka implies (#[trigger] after.active_connections@[j]).connection_name@ != name by {
        assert(after.active_connections@[j] == before.active_connections@[j]);
    }
    lemma_active_index_at(after.active_connections@, name, ka);
}

} // verus!
