//! SSH tunnel bookkeeping: local port allocation from a fixed range, and
//! the table of active tunnels.
//!
//! The runtime around the library performs the dials, binds and forwarding
//! tasks; every decision — which port a name gets, whether a tunnel
//! already exists, what teardown must release — is made here, against
//! plain values, and each background task is stood for by a plain handle
//! number that the runtime maps to the real task.

use vstd::prelude::*;
use vstd::string::*;

use crate::config::SshTunnel;
use crate::errors::DadbodError;
use crate::ssh_config::SshHostConfig;
use crate::text::{chars_eq_str, chars_of, push_str_chars, string_of};

verus! {

/// The first local port of the reserved tunnel range.
pub const TUNNEL_PORT_START: u16 = 7001;

/// The last local port of the reserved tunnel range, inclusive.
pub const TUNNEL_PORT_END: u16 = 7020;

/// The width of the reserved range.
pub const TUNNEL_PORT_COUNT: usize = 20;

/// One granted port: which local port, and which connection name owns it.
#[derive(Debug, Clone)]
pub struct PortEntry {
    pub port: u16,
    pub name: String,
}

/// Assigns local loopback ports per connection name from the fixed range,
/// validated against live OS bind state that the caller probes.
#[derive(Debug, Clone)]
pub struct PortAllocator {
    pub allocated: Vec<PortEntry>,
}

impl PortAllocator {
    /// The table invariant: every tracked port lies in the range, no port
    /// is tracked twice, and no name owns two ports.
    pub open spec fn wf(self) -> bool {
        &&& forall|i: int|
            0 <= i < self.allocated@.len() ==> TUNNEL_PORT_START <= (#[trigger] self.allocated@[i]).port
                <= TUNNEL_PORT_END
        &&& forall|i: int, j: int|
            0 <= i < j < self.allocated@.len() ==> (#[trigger] self.allocated@[i]).port != (
            #[trigger] self.allocated@[j]).port
        &&& forall|i: int, j: int|
            0 <= i < j < self.allocated@.len() ==> (#[trigger] self.allocated@[i]).name@ != (
            #[trigger] self.allocated@[j]).name@
    }

    /// Whether some entry tracks `port`.
    pub open spec fn tracks_port(self, port: u16) -> bool {
        exists|i: int| 0 <= i < self.allocated@.len() && (#[trigger] self.allocated@[i]).port == port
    }

    /// The port `name` owns, if any.
    pub open spec fn port_of(self, name: Seq<char>) -> Option<u16> {
        let i = choose_first_name_index(self.allocated@, name);
        if i < self.allocated@.len() {
            Some(self.allocated@[i].port)
        } else {
            None
        }
    }

    /// The first range offset `k` such that port `TUNNEL_PORT_START + k`
    /// is neither tracked here nor refused by the OS probe, or the range
    /// width when every port is taken.
    pub open spec fn first_free(self, os_free: Seq<bool>) -> int {
        first_free_from(self, os_free, 0)
    }
}

/// The index of the first entry of `es` named `name`, or `es.len()`.
pub open spec fn choose_first_name_index(es: Seq<PortEntry>, name: Seq<char>) -> int
    decreases es.len(),
{
    if es.len() == 0 {
        0
    } else if es[0].name@ == name {
        0
    } else {
        1 + choose_first_name_index(es.drop_first(), name)
    }
}

pub proof fn lemma_first_name_index(es: Seq<PortEntry>, name: Seq<char>)
    ensures
        0 <= choose_first_name_index(es, name) <= es.len(),
        choose_first_name_index(es, name) < es.len() ==> es[choose_first_name_index(
            es,
            name,
        )].name@ == name,
        forall|j: int| 0 <= j < choose_first_name_index(es, name) ==> (#[trigger] es[j]).name@
            != name,
    decreases es.len(),
{
    if es.len() > 0 && es[0].name@ != name {
        lemma_first_name_index(es.drop_first(), name);
        let cip = choose_first_name_index(es.drop_first(), name);
        if cip < es.drop_first().len() {
            assert(es.drop_first()[cip] == es[cip + 1]);
        }
        assert forall|j: int|
            0 <= j < choose_first_name_index(es, name) implies (#[trigger] es[j]).name@ != name by {
            if j > 0 {
                assert(es.drop_first()[j - 1] == es[j]);
            }
        }
    }
}

/// The first free range offset at or after `k`.
pub open spec fn first_free_from(a: PortAllocator, os_free: Seq<bool>, k: int) -> int
    decreases TUNNEL_PORT_COUNT - k,
{
    if k < 0 || k >= TUNNEL_PORT_COUNT {
        TUNNEL_PORT_COUNT as int
    } else if !a.tracks_port((TUNNEL_PORT_START + k) as u16) && os_free[k] {
        k
    } else {
        first_free_from(a, os_free, k + 1)
    }
}

impl PortAllocator {
    /// A fresh, empty table.
    pub fn new() -> (r: PortAllocator)
        ensures
            r.allocated@.len() == 0,
            r.wf(),
    {
        PortAllocator { allocated: Vec::new() }
    }

    /// Whether this table tracks `port`.
    pub fn is_tracked(&self, port: u16) -> (r: bool)
        ensures
            r == self.tracks_port(port),
    {
        let mut i: usize = 0;
        while i < self.allocated.len()
            invariant
                i <= self.allocated@.len(),
                forall|j: int| 0 <= j < i ==> (#[trigger] self.allocated@[j]).port != port,
            decreases self.allocated@.len() - i,
        {
            if self.allocated[i].port == port {
                return true;
            }
            i = i + 1;
        }
        false
    }

    /// Grants `connection_name` a port: the one it already owns, else the
    /// first port of the range that is untracked here and free at the OS
    /// (per the caller's bind probes, one flag per range offset), else a
    /// resource-exhaustion failure.  Never grants a port the probe refused
    /// and never double-assigns a tracked port.
    pub fn allocate(&mut self, connection_name: &str, os_free: &Vec<bool>) -> (r: Result<
        u16,
        DadbodError,
    >)
        requires
            old(self).wf(),
            os_free@.len() == TUNNEL_PORT_COUNT,
        ensures
            final(self).wf(),
            old(self).port_of(connection_name@) matches Some(p) ==> r == Ok::<u16, DadbodError>(p)
                && *final(self) == *old(self),
            old(self).port_of(connection_name@) is None && old(self).first_free(os_free@)
                < TUNNEL_PORT_COUNT ==> r == Ok::<u16, DadbodError>(
                (TUNNEL_PORT_START as int + old(self).first_free(os_free@)) as u16,
            ) && final(self).allocated@.len() == old(self).allocated@.len() + 1 && (forall|j: int|
                0 <= j < old(self).allocated@.len() ==> final(self).allocated@[j] == old(
                    self,
                ).allocated@[j]) && final(self).allocated@.last().port == (TUNNEL_PORT_START as int
                + old(self).first_free(os_free@)) as u16 && final(self).allocated@.last().name@
                == connection_name@,
            old(self).port_of(connection_name@) is None && old(self).first_free(os_free@)
                >= TUNNEL_PORT_COUNT ==> r == Err::<u16, DadbodError>(
                DadbodError::ResourceExhausted,
            ) && *final(self) == *old(self),
            r matches Ok(p) ==> TUNNEL_PORT_START <= p <= TUNNEL_PORT_END
                && final(self).port_of(connection_name@) == Some(p),
            old(self).port_of(connection_name@) is None ==> (r matches Ok(p)
                ==> !old(self).tracks_port(p) && os_free@[p - TUNNEL_PORT_START]),
    {
        proof {
            lemma_first_name_index(self.allocated@, connection_name@);
        }
        let n = chars_of(connection_name);
        let mut i: usize = 0;
        while i < self.allocated.len()
            invariant
                i <= self.allocated@.len(),
                n@ == connection_name@,
                *self == *old(self),
                old(self).wf(),
                forall|j: int| 0 <= j < i ==> (#[trigger] self.allocated@[j]).name@
                    != connection_name@,
            decreases self.allocated@.len() - i,
        {
            if chars_eq_str(&n, self.allocated[i].name.as_str()) {
                proof {
                    lemma_first_name_index(self.allocated@, connection_name@);
                    lemma_first_name_index_at(self.allocated@, connection_name@, i as int);
                }
                return Ok(self.allocated[i].port);
            }
            i = i + 1;
        }
        proof {
            lemma_first_name_index(self.allocated@, connection_name@);
            assert(self.port_of(connection_name@) is None);
        }
        let mut k: usize = 0;
        while k < TUNNEL_PORT_COUNT
            invariant
                k <= TUNNEL_PORT_COUNT,
                os_free@.len() == TUNNEL_PORT_COUNT,
                n@ == connection_name@,
                *self == *old(self),
                old(self).wf(),
                old(self).port_of(connection_name@) is None,
                old(self).first_free(os_free@) == first_free_from(*old(self), os_free@, k as int),
            decreases TUNNEL_PORT_COUNT - k,
        {
            let port: u16 = TUNNEL_PORT_START + (k as u16);
            if !self.is_tracked(port) && os_free[k] {
                let ghost before = self.allocated@;
                self.allocated.push(PortEntry { port, name: string_of(&n) });
                proof {
                    assert(old(self).first_free(os_free@) == k);
                    lemma_push_keeps_wf(*old(self), *self, port, connection_name@);
                    lemma_first_name_index(self.allocated@, connection_name@);
                    lemma_port_of_after_push(*old(self), *self, port, connection_name@);
                }
                return Ok(port);
            }
            k = k + 1;
        }
        Err(DadbodError::ResourceExhausted)
    }

    /// Forgets the tracking entry of `port`, if any; no socket is touched.
    /// Every other name keeps the port it owned.
    pub fn deallocate(&mut self, port: u16)
        requires
            old(self).wf(),
        ensures
            final(self).wf(),
            !final(self).tracks_port(port),
            old(self).tracks_port(port) ==> final(self).allocated@ == old(
                self,
            ).allocated@.remove(port_index(old(self).allocated@, port)),
            !old(self).tracks_port(port) ==> *final(self) == *old(self),
            forall|q: u16| #[trigger] final(self).tracks_port(q) ==> old(self).tracks_port(q),
            forall|n: Seq<char>|
                old(self).port_of(n) != Some(port) ==> #[trigger] final(self).port_of(n) == old(
                    self,
                ).port_of(n),
    {
        proof {
            lemma_port_index(self.allocated@, port);
        }
        let mut i: usize = 0;
        while i < self.allocated.len()
            invariant
                i <= self.allocated@.len(),
                old(self).wf(),
                *self == *old(self),
                forall|j: int| 0 <= j < i ==> (#[trigger] self.allocated@[j]).port != port,
            decreases self.allocated@.len() - i,
        {
            if self.allocated[i].port == port {
                proof {
                    lemma_port_index_at(self.allocated@, port, i as int);
                }
                self.allocated.remove(i);
                proof {
                    lemma_remove_keeps_wf(*old(self), *self, i as int, port);
                    lemma_deallocate_effects(*old(self), *self, i as int, port);
                }
                return ;
            }
            i = i + 1;
        }
    }
}

/// Releasing one port keeps every other tracked port tracked and every
/// other name's grant unchanged.
proof fn lemma_deallocate_effects(a: PortAllocator, b: PortAllocator, i: int, port: u16)
    requires
        a.wf(),
        0 <= i < a.allocated@.len(),
        a.allocated@[i].port == port,
        b.allocated@ == a.allocated@.remove(i),
    ensures
        forall|q: u16| #[trigger] b.tracks_port(q) ==> a.tracks_port(q),
        forall|n: Seq<char>|
            a.port_of(n) != Some(port) ==> #[trigger] b.port_of(n) == a.port_of(n),
{
    let pa = a.allocated@;
    let pb = b.allocated@;
    assert forall|q: u16| #[trigger] b.tracks_port(q) implies a.tracks_port(q) by {
        let w = choose|m: int| 0 <= m < pb.len() && (#[trigger] pb[m]).port == q;
        if w < i {
            assert(pb[w] == pa[w]);
            assert(a.tracks_port(q));
        } else {
            assert(pb[w] == pa[w + 1]);
            assert(a.tracks_port(q));
        }
    }
    assert forall|n: Seq<char>|
        a.port_of(n) != Some(port) implies #[trigger] b.port_of(n) == a.port_of(n) by {
        if pa[i].name@ == n {
            lemma_first_name_index(pa, n);
            let k = choose_first_name_index(pa, n);
            assert(k < pa.len());
            assert(pa[k].name@ == n);
            if k < i {
                assert(pa[k].name@ != pa[i].name@);
            }
            if k > i {
                assert(pa[i].name@ != pa[k].name@);
            }
            assert(k == i);
            assert(a.port_of(n) == Some(port));
        } else {
            lemma_port_of_remove(pa, i, n);
            lemma_first_name_index(pa, n);
            let ka = choose_first_name_index(pa, n);
            if ka < pa.len() {
                assert(pb[choose_first_name_index(pb, n)] == pa[ka]);
                assert(b.port_of(n) == Some(pa[ka].port));
            } else {
                assert(b.port_of(n) is None);
            }
        }
    }
}

/// The first entry named `n` survives the removal of an entry named
/// otherwise, and keeps its place in the order.
proof fn lemma_port_of_remove(es: Seq<PortEntry>, idx: int, n: Seq<char>)
    requires
        0 <= idx < es.len(),
        es[idx].name@ != n,
    ensures
        choose_first_name_index(es, n) < es.len() ==> choose_first_name_index(es.remove(idx), n)
            < es.remove(idx).len() && es.remove(idx)[choose_first_name_index(es.remove(idx), n)]
            == es[choose_first_name_index(es, n)],
        choose_first_name_index(es, n) == es.len() ==> choose_first_name_index(es.remove(idx), n)
            == es.remove(idx).len(),
{
    let b = es.remove(idx);
    lemma_first_name_index(es, n);
    let ka = choose_first_name_index(es, n);
    if ka < es.len() {
        assert(ka != idx);
        if ka < idx {
            assert(b[ka] == es[ka]);
            assert forall|j: int| 0 <= j < ka implies (#[trigger] b[j]).name@ != n by {
                assert(b[j] == es[j]);
            }
            lemma_first_name_index_at(b, n, ka);
        } else {
            assert(b[ka - 1] == es[ka]);
            assert forall|j: int| 0 <= j < ka - 1 implies (#[trigger] b[j]).name@ != n by {
                if j < idx {
                    assert(b[j] == es[j]);
                } else {
                    assert(b[j] == es[j + 1]);
                }
            }
            lemma_first_name_index_at(b, n, ka - 1);
        }
    } else {
        assert forall|j: int| 0 <= j < b.len() implies (#[trigger] b[j]).name@ != n by {
            if j < idx {
                assert(b[j] == es[j]);
            } else {
                assert(b[j] == es[j + 1]);
            }
        }
        lemma_first_name_index_none(b, n);
    }
}

/// Granting a new entry leaves every name that already owned a port with
/// the same port.
proof fn lemma_push_preserves_port_of(a: PortAllocator, b: PortAllocator, name: Seq<char>)
    requires
        a.port_of(name) is Some,
        b.allocated@.len() == a.allocated@.len() + 1,
        forall|j: int| 0 <= j < a.allocated@.len() ==> b.allocated@[j] == a.allocated@[j],
    ensures
        b.port_of(name) == a.port_of(name),
{
    lemma_first_name_index(a.allocated@, name);
    let ka = choose_first_name_index(a.allocated@, name);
    assert(b.allocated@[ka] == a.allocated@[ka]);
    assert forall|j: int| 0 <= j < ka implies (#[trigger] b.allocated@[j]).name@ != name by {
        assert(b.allocated@[j] == a.allocated@[j]);
    }
    lemma_first_name_index_at(b.allocated@, name, ka);
}

proof fn lemma_first_name_index_none(es: Seq<PortEntry>, name: Seq<char>)
    requires
        forall|j: int| 0 <= j < es.len() ==> (#[trigger] es[j]).name@ != name,
    ensures
        choose_first_name_index(es, name) == es.len(),
    decreases es.len(),
{
    if es.len() > 0 {
        assert(es[0].name@ != name);
        assert forall|j: int| 0 <= j < es.drop_first().len() implies (
        #[trigger] es.drop_first()[j]).name@ != name by {
            assert(es.drop_first()[j] == es[j + 1]);
        }
        lemma_first_name_index_none(es.drop_first(), name);
    }
}

/// The index of the first entry of `es` tracking `port`, or `es.len()`.
pub open spec fn port_index(es: Seq<PortEntry>, port: u16) -> int
    decreases es.len(),
{
    if es.len() == 0 {
        0
    } else if es[0].port == port {
        0
    } else {
        1 + port_index(es.drop_first(), port)
    }
}

proof fn lemma_port_index(es: Seq<PortEntry>, port: u16)
    ensures
        0 <= port_index(es, port) <= es.len(),
        port_index(es, port) < es.len() ==> es[port_index(es, port)].port == port,
        forall|j: int| 0 <= j < port_index(es, port) ==> (#[trigger] es[j]).port != port,
    decreases es.len(),
{
    if es.len() > 0 && es[0].port != port {
        lemma_port_index(es.drop_first(), port);
        let cip = port_index(es.drop_first(), port);
        if cip < es.drop_first().len() {
            assert(es.drop_first()[cip] == es[cip + 1]);
        }
        assert forall|j: int| 0 <= j < port_index(es, port) implies (#[trigger] es[j]).port
            != port by {
            if j > 0 {
                assert(es.drop_first()[j - 1] == es[j]);
            }
        }
    }
}

proof fn lemma_port_index_at(es: Seq<PortEntry>, port: u16, i: int)
    requires
        0 <= i < es.len(),
        es[i].port == port,
        forall|j: int| 0 <= j < i ==> (#[trigger] es[j]).port != port,
    ensures
        port_index(es, port) == i,
    decreases i,
{
    if i > 0 {
        assert(es[0].port != port);
        assert forall|j: int| 0 <= j < i - 1 implies (#[trigger] es.drop_first()[j]).port
            != port by {
            assert(es.drop_first()[j] == es[j + 1]);
        }
        lemma_port_index_at(es.drop_first(), port, i - 1);
    }
}

proof fn lemma_first_name_index_at(es: Seq<PortEntry>, name: Seq<char>, i: int)
    requires
        0 <= i < es.len(),
        es[i].name@ == name,
        forall|j: int| 0 <= j < i ==> (#[trigger] es[j]).name@ != name,
    ensures
        choose_first_name_index(es, name) == i,
    decreases i,
{
    if i > 0 {
        assert(es[0].name@ != name);
        assert forall|j: int| 0 <= j < i - 1 implies (#[trigger] es.drop_first()[j]).name@
            != name by {
            assert(es.drop_first()[j] == es[j + 1]);
        }
        lemma_first_name_index_at(es.drop_first(), name, i - 1);
    }
}

proof fn lemma_push_keeps_wf(a: PortAllocator, b: PortAllocator, port: u16, name: Seq<char>)
    requires
        a.wf(),
        TUNNEL_PORT_START <= port <= TUNNEL_PORT_END,
        !a.tracks_port(port),
        a.port_of(name) is None,
        b.allocated@.len() == a.allocated@.len() + 1,
        forall|j: int| 0 <= j < a.allocated@.len() ==> b.allocated@[j] == a.allocated@[j],
        b.allocated@[a.allocated@.len() as int].port == port,
        b.allocated@[a.allocated@.len() as int].name@ == name,
    ensures
        b.wf(),
{
    lemma_first_name_index(a.allocated@, name);
    assert forall|i: int, j: int|
        0 <= i < j < b.allocated@.len() implies (#[trigger] b.allocated@[i]).port != (
    #[trigger] b.allocated@[j]).port by {
        if j == a.allocated@.len() {
            assert(!a.tracks_port(port));
            assert(a.allocated@[i] == b.allocated@[i]);
            if b.allocated@[i].port == port {
                assert(a.tracks_port(port));
            }
        }
    }
    assert forall|i: int, j: int|
        0 <= i < j < b.allocated@.len() implies (#[trigger] b.allocated@[i]).name@ != (
    #[trigger] b.allocated@[j]).name@ by {
        if j == a.allocated@.len() {
            assert(a.allocated@[i] == b.allocated@[i]);
        }
    }
}

proof fn lemma_port_of_after_push(a: PortAllocator, b: PortAllocator, port: u16, name: Seq<char>)
    requires
        a.port_of(name) is None,
        b.allocated@.len() == a.allocated@.len() + 1,
        forall|j: int| 0 <= j < a.allocated@.len() ==> b.allocated@[j] == a.allocated@[j],
        b.allocated@[a.allocated@.len() as int].port == port,
        b.allocated@[a.allocated@.len() as int].name@ == name,
    ensures
        b.port_of(name) == Some(port),
{
    lemma_first_name_index(a.allocated@, name);
    assert forall|j: int| 0 <= j < a.allocated@.len() implies (#[trigger] b.allocated@[j]).name@
        != name by {
        assert(b.allocated@[j] == a.allocated@[j]);
    }
    lemma_first_name_index_at(b.allocated@, name, a.allocated@.len() as int);
}

proof fn lemma_remove_keeps_wf(a: PortAllocator, b: PortAllocator, i: int, port: u16)
    requires
        a.wf(),
        0 <= i < a.allocated@.len(),
        a.allocated@[i].port == port,
        b.allocated@ == a.allocated@.remove(i),
    ensures
        b.wf(),
        !b.tracks_port(port),
{
    assert forall|j: int| 0 <= j < b.allocated@.len() implies (#[trigger] b.allocated@[j]).port
        != port by {
        if j < i {
            assert(b.allocated@[j] == a.allocated@[j]);
        } else {
            assert(b.allocated@[j] == a.allocated@[j + 1]);
        }
    }
    assert forall|m: int, j: int|
        0 <= m < j < b.allocated@.len() implies (#[trigger] b.allocated@[m]).port != (
    #[trigger] b.allocated@[j]).port && (#[trigger] b.allocated@[m]).name@ != (
    #[trigger] b.allocated@[j]).name@ by {
        let ma = if m < i {
            m
        } else {
            m + 1
        };
        let ja = if j < i {
            j
        } else {
            j + 1
        };
        assert(b.allocated@[m] == a.allocated@[ma]);
        assert(b.allocated@[j] == a.allocated@[ja]);
    }
}

/// One active tunnel: its local port, its remote endpoint, and the plain
/// handle the runtime maps to the background forwarding task, whose
/// lifetime is exactly this record's.
#[derive(Debug, Clone)]
pub struct ActiveTunnel {
    pub local_port: u16,
    pub remote_host: String,
    pub remote_port: u16,
    /// Stands for the forwarding task; teardown hands it back so the
    /// runtime can cancel the task at once.
    pub task: u64,
}

/// An active tunnel under the connection name that owns it.
#[derive(Debug, Clone)]
pub struct TunnelEntry {
    pub name: String,
    pub tunnel: ActiveTunnel,
}

/// Owns the active tunnels and the port table.  One tunnel per name at
/// most; every tunnel's port is reserved in the table under its name for
/// exactly as long as the tunnel lives.
#[derive(Debug, Clone)]
pub struct TunnelManager {
    pub tunnels: Vec<TunnelEntry>,
    pub port_allocator: PortAllocator,
    pub skip_host_key_verification: bool,
}

/// The index of the first tunnel entry named `name`, or the entry count.
pub open spec fn tunnel_index(es: Seq<TunnelEntry>, name: Seq<char>) -> int
    decreases es.len(),
{
    if es.len() == 0 {
        0
    } else if es[0].name@ == name {
        0
    } else {
        1 + tunnel_index(es.drop_first(), name)
    }
}

pub proof fn lemma_tunnel_index(es: Seq<TunnelEntry>, name: Seq<char>)
    ensures
        0 <= tunnel_index(es, name) <= es.len(),
        tunnel_index(es, name) < es.len() ==> es[tunnel_index(es, name)].name@ == name,
        forall|j: int| 0 <= j < tunnel_index(es, name) ==> (#[trigger] es[j]).name@ != name,
    decreases es.len(),
{
    if es.len() > 0 && es[0].name@ != name {
        lemma_tunnel_index(es.drop_first(), name);
        let cip = tunnel_index(es.drop_first(), name);
        if cip < es.drop_first().len() {
            assert(es.drop_first()[cip] == es[cip + 1]);
        }
        assert forall|j: int| 0 <= j < tunnel_index(es, name) implies (#[trigger] es[j]).name@
            != name by {
            if j > 0 {
                assert(es.drop_first()[j - 1] == es[j]);
            }
        }
    }
}

proof fn lemma_tunnel_index_at(es: Seq<TunnelEntry>, name: Seq<char>, i: int)
    requires
        0 <= i < es.len(),
        es[i].name@ == name,
        forall|j: int| 0 <= j < i ==> (#[trigger] es[j]).name@ != name,
    ensures
        tunnel_index(es, name) == i,
    decreases i,
{
    if i > 0 {
        assert(es[0].name@ != name);
        assert forall|j: int| 0 <= j < i - 1 implies (#[trigger] es.drop_first()[j]).name@
            != name by {
            assert(es.drop_first()[j] == es[j + 1]);
        }
        lemma_tunnel_index_at(es.drop_first(), name, i - 1);
    }
}

impl TunnelManager {
    /// The manager invariant: the port table is well formed, no two
    /// tunnels share a name, and every tunnel's port is reserved in the
    /// table under the tunnel's own name.
    pub open spec fn wf(self) -> bool {
        &&& self.port_allocator.wf()
        &&& forall|i: int, j: int|
            0 <= i < j < self.tunnels@.len() ==> (#[trigger] self.tunnels@[i]).name@ != (
            #[trigger] self.tunnels@[j]).name@
        &&& forall|i: int|
            0 <= i < self.tunnels@.len() ==> self.port_allocator.port_of(
                (#[trigger] self.tunnels@[i]).name@,
            ) == Some(self.tunnels@[i].tunnel.local_port)
    }

    /// The local port of the active tunnel of `name`, if one exists.
    pub open spec fn tunnel_port(self, name: Seq<char>) -> Option<u16> {
        if tunnel_index(self.tunnels@, name) < self.tunnels@.len() {
            Some(self.tunnels@[tunnel_index(self.tunnels@, name)].tunnel.local_port)
        } else {
            None
        }
    }

    /// A fresh manager with no tunnels and an empty port table.
    pub fn new(skip_host_key_verification: bool) -> (r: TunnelManager)
        ensures
            r.wf(),
            r.tunnels@.len() == 0,
            r.port_allocator.allocated@.len() == 0,
            r.skip_host_key_verification == skip_host_key_verification,
    {
        TunnelManager {
            tunnels: Vec::new(),
            port_allocator: PortAllocator::new(),
            skip_host_key_verification,
        }
    }

    /// The local port of the existing tunnel of `connection_name`.
    pub fn get_tunnel_port(&self, connection_name: &str) -> (r: Option<u16>)
        ensures
            r == self.tunnel_port(connection_name@),
    {
        proof {
            lemma_tunnel_index(self.tunnels@, connection_name@);
        }
        let n = chars_of(connection_name);
        let mut i: usize = 0;
        while i < self.tunnels.len()
            invariant
                i <= self.tunnels@.len(),
                n@ == connection_name@,
                forall|j: int| 0 <= j < i ==> (#[trigger] self.tunnels@[j]).name@
                    != connection_name@,
            decreases self.tunnels@.len() - i,
        {
            if chars_eq_str(&n, self.tunnels[i].name.as_str()) {
                proof {
                    lemma_tunnel_index_at(self.tunnels@, connection_name@, i as int);
                }
                return Some(self.tunnels[i].tunnel.local_port);
            }
            i = i + 1;
        }
        proof {
            lemma_tunnel_index(self.tunnels@, connection_name@);
        }
        None
    }

    /// One step of `get_or_create`: an existing tunnel's port is returned
    /// with nothing changed and no dial asked for; otherwise the caller is
    /// told to dial on the name's reserved port — the one it already holds,
    /// or the first free port of the range, reserved here and now — and the
    /// step fails exactly when no tunnel exists and the range is exhausted.
    pub fn get_or_create_tunnel_step(&mut self, connection_name: &str, os_free: &Vec<bool>) -> (r:
        Result<TunnelStep, DadbodError>)
        requires
            old(self).wf(),
            os_free@.len() == TUNNEL_PORT_COUNT,
        ensures
            final(self).wf(),
            final(self).tunnels@ == old(self).tunnels@,
            final(self).skip_host_key_verification == old(self).skip_host_key_verification,
            old(self).tunnel_port(connection_name@) matches Some(p) ==> r == Ok::<
                TunnelStep,
                DadbodError,
            >(TunnelStep::Existing(p)) && *final(self) == *old(self),
            old(self).tunnel_port(connection_name@) is None ==> (old(
                self,
            ).port_allocator.port_of(connection_name@) matches Some(p) ==> r == Ok::<
                TunnelStep,
                DadbodError,
            >(TunnelStep::Dial(p)) && *final(self) == *old(self)),
            old(self).tunnel_port(connection_name@) is None
                && old(self).port_allocator.port_of(connection_name@) is None
                && old(self).port_allocator.first_free(os_free@) < TUNNEL_PORT_COUNT ==> r
                == Ok::<TunnelStep, DadbodError>(
                TunnelStep::Dial(
                    (TUNNEL_PORT_START as int + old(self).port_allocator.first_free(
                        os_free@,
                    )) as u16,
                ),
            ),
            old(self).tunnel_port(connection_name@) is None
                && old(self).port_allocator.port_of(connection_name@) is None
                && old(self).port_allocator.first_free(os_free@) >= TUNNEL_PORT_COUNT ==> r
                == Err::<TunnelStep, DadbodError>(DadbodError::ResourceExhausted) && *final(self)
                == *old(self),
            r matches Ok(step) ==> (step matches TunnelStep::Dial(p)
                ==> final(self).port_allocator.port_of(connection_name@) == Some(p)
                && TUNNEL_PORT_START <= p <= TUNNEL_PORT_END),
    {
        proof {
            lemma_tunnel_index(self.tunnels@, connection_name@);
        }
        match self.get_tunnel_port(connection_name) {
            Some(p) => Ok(TunnelStep::Existing(p)),
            None => {
                let ghost a0 = self.port_allocator;
                match self.port_allocator.allocate(connection_name, os_free) {
                    Ok(p) => {
                        proof {
                            assert forall|m: int|
                                0 <= m < self.tunnels@.len() implies self.port_allocator.port_of(
                                (#[trigger] self.tunnels@[m]).name@,
                            ) == Some(self.tunnels@[m].tunnel.local_port) by {
                                let nm = self.tunnels@[m].name@;
                                assert(a0.port_of(nm) == Some(
                                    self.tunnels@[m].tunnel.local_port,
                                ));
                                if a0.port_of(connection_name@) is None {
                                    lemma_push_preserves_port_of(a0, self.port_allocator, nm);
                                }
                            }
                        }
                        Ok(TunnelStep::Dial(p))
                    },
                    Err(e) => Err(e),
                }
            },
        }
    }

    /// Records a tunnel the runtime has fully established on `local_port`,
    /// whose port the table already reserves for this name.
    pub fn install_tunnel(
        &mut self,
        connection_name: &str,
        local_port: u16,
        remote_host: &str,
        remote_port: u16,
        task: u64,
    )
        requires
            old(self).wf(),
            old(self).tunnel_port(connection_name@) is None,
            old(self).port_allocator.port_of(connection_name@) == Some(local_port),
        ensures
            final(self).wf(),
            final(self).port_allocator == old(self).port_allocator,
            final(self).skip_host_key_verification == old(self).skip_host_key_verification,
            final(self).tunnels@.len() == old(self).tunnels@.len() + 1,
            forall|j: int|
                0 <= j < old(self).tunnels@.len() ==> final(self).tunnels@[j] == old(
                    self,
                ).tunnels@[j],
            final(self).tunnels@.last().name@ == connection_name@,
            final(self).tunnels@.last().tunnel.local_port == local_port,
            final(self).tunnels@.last().tunnel.remote_host@ == remote_host@,
            final(self).tunnels@.last().tunnel.remote_port == remote_port,
            final(self).tunnels@.last().tunnel.task == task,
            final(self).tunnel_port(connection_name@) == Some(local_port),
    {
        proof {
            lemma_tunnel_index(self.tunnels@, connection_name@);
        }
        let n = chars_of(connection_name);
        let entry = TunnelEntry {
            name: string_of(&n),
            tunnel: ActiveTunnel {
                local_port,
                remote_host: string_of(&chars_of(remote_host)),
                remote_port,
                task,
            },
        };
        let ghost before = self.tunnels@;
        self.tunnels.push(entry);
        proof {
            assert forall|j: int| 0 <= j < before.len() implies (#[trigger] self.tunnels@[j]).name@
                != connection_name@ by {
                assert(self.tunnels@[j] == before[j]);
            }
            lemma_tunnel_index_at(self.tunnels@, connection_name@, before.len() as int);
            assert forall|i: int, j: int|
                0 <= i < j < self.tunnels@.len() implies (#[trigger] self.tunnels@[i]).name@ != (
            #[trigger] self.tunnels@[j]).name@ by {
                if j < before.len() {
                    assert(self.tunnels@[i] == before[i]);
                    assert(self.tunnels@[j] == before[j]);
                } else {
                    assert(self.tunnels@[i] == before[i]);
                }
            }
            assert forall|i: int|
                0 <= i < self.tunnels@.len() implies self.port_allocator.port_of(
                (#[trigger] self.tunnels@[i]).name@,
            ) == Some(self.tunnels@[i].tunnel.local_port) by {
                if i < before.len() {
                    assert(self.tunnels@[i] == before[i]);
                }
            }
        }
    }

    /// Removes the tunnel of `connection_name`, releasing its port, and
    /// hands the record back so the runtime can cancel the forwarding
    /// task.  A name with no tunnel is a no-op, never an error.
    pub fn close_tunnel(&mut self, connection_name: &str) -> (r: Option<ActiveTunnel>)
        requires
            old(self).wf(),
        ensures
            final(self).wf(),
            final(self).skip_host_key_verification == old(self).skip_host_key_verification,
            final(self).tunnel_port(connection_name@) is None,
            old(self).tunnel_port(connection_name@) is None ==> r is None && *final(self) == *old(
                self,
            ),
            old(self).tunnel_port(connection_name@) matches Some(p) ==> (r matches Some(t)
                && t.local_port == p) && final(self).tunnels@ == old(self).tunnels@.remove(
                tunnel_index(old(self).tunnels@, connection_name@),
            ) && !final(self).port_allocator.tracks_port(p),
    {
        proof {
            lemma_tunnel_index(self.tunnels@, connection_name@);
        }
        let n = chars_of(connection_name);
        let mut i: usize = 0;
        while i < self.tunnels.len()
            invariant
                i <= self.tunnels@.len(),
                n@ == connection_name@,
                *self == *old(self),
                old(self).wf(),
                forall|j: int| 0 <= j < i ==> (#[trigger] self.tunnels@[j]).name@
                    != connection_name@,
            decreases self.tunnels@.len() - i,
        {
            if chars_eq_str(&n, self.tunnels[i].name.as_str()) {
                proof {
                    lemma_tunnel_index_at(self.tunnels@, connection_name@, i as int);
                }
                let entry = self.tunnels.remove(i);
                self.port_allocator.deallocate(entry.tunnel.local_port);
                proof {
                    lemma_close_keeps_wf(*old(self), *self, i as int, connection_name@);
                }
                return Some(entry.tunnel);
            }
            i = i + 1;
        }
        proof {
            lemma_tunnel_index(self.tunnels@, connection_name@);
        }
        None
    }

    /// Removes every tunnel, releasing every tunnel's port, and hands the
    /// records back for cancellation.
    pub fn close_all(&mut self) -> (r: Vec<ActiveTunnel>)
        requires
            old(self).wf(),
        ensures
            final(self).wf(),
            final(self).tunnels@.len() == 0,
            final(self).skip_host_key_verification == old(self).skip_host_key_verification,
            r@.len() == old(self).tunnels@.len(),
            forall|i: int| 0 <= i < r@.len() ==> #[trigger] r@[i] == old(
                self,
            ).tunnels@[i].tunnel,
            forall|i: int|
                0 <= i < old(self).tunnels@.len() ==> !(#[trigger] final(self).port_allocator.tracks_port(
                    old(self).tunnels@[i].tunnel.local_port,
                )),
    {
        let mut r: Vec<ActiveTunnel> = Vec::new();
        let ghost orig = self.tunnels@;
        let mut i: usize = 0;
        while i < self.tunnels.len()
            invariant
                orig == self.tunnels@,
                orig == old(self).tunnels@,
                self.skip_host_key_verification == old(self).skip_host_key_verification,
                i <= self.tunnels@.len(),
                self.port_allocator.wf(),
                r@.len() == i,
                forall|j: int| 0 <= j < i ==> #[trigger] r@[j] == orig[j].tunnel,
                forall|j: int|
                    0 <= j < i ==> !(#[trigger] self.port_allocator.tracks_port(
                        orig[j].tunnel.local_port,
                    )),
            decreases self.tunnels@.len() - i,
        {
            let copy = ActiveTunnel {
                local_port: self.tunnels[i].tunnel.local_port,
                remote_host: self.tunnels[i].tunnel.remote_host.clone(),
                remote_port: self.tunnels[i].tunnel.remote_port,
                task: self.tunnels[i].tunnel.task,
            };
            r.push(copy);
            self.port_allocator.deallocate(self.tunnels[i].tunnel.local_port);
            proof {
                assert(r@[i as int] == orig[i as int].tunnel);
            }
            i = i + 1;
        }
        self.tunnels = Vec::new();
        proof {
            assert(self.tunnels@.len() == 0);
        }
        r
    }
}

/// What one `get_or_create` step asks of the runtime: use the existing
/// tunnel on this port, or dial and then install a tunnel on this port.
#[derive(Debug, Clone, PartialEq, Eq)]
pub enum TunnelStep {
    Existing(u16),
    Dial(u16),
}

proof fn lemma_close_keeps_wf(a: TunnelManager, b: TunnelManager, i: int, name: Seq<char>)
    requires
        a.wf(),
        0 <= i < a.tunnels@.len(),
        a.tunnels@[i].name@ == name,
        b.tunnels@ == a.tunnels@.remove(i),
        b.port_allocator.wf(),
        forall|n: Seq<char>|
            a.port_allocator.port_of(n) != Some(a.tunnels@[i].tunnel.local_port)
                ==> #[trigger] b.port_allocator.port_of(n) == a.port_allocator.port_of(n),
    ensures
        b.wf(),
        b.tunnel_port(name) is None,
{
    let p = a.tunnels@[i].tunnel.local_port;
    assert(a.port_allocator.port_of(name) == Some(p));
    assert forall|m: int, j: int|
        0 <= m < j < b.tunnels@.len() implies (#[trigger] b.tunnels@[m]).name@ != (
    #[trigger] b.tunnels@[j]).name@ by {
        let ma = if m < i {
            m
        } else {
            m + 1
        };
        let ja = if j < i {
            j
        } else {
            j + 1
        };
        assert(b.tunnels@[m] == a.tunnels@[ma]);
        assert(b.tunnels@[j] == a.tunnels@[ja]);
    }
    assert forall|m: int| 0 <= m < b.tunnels@.len() implies (#[trigger] b.tunnels@[m]).name@
        != name by {
        let ma = if m < i {
            m
        } else {
            m + 1
        };
        assert(b.tunnels@[m] == a.tunnels@[ma]);
    }
    assert forall|m: int|
        0 <= m < b.tunnels@.len() implies b.port_allocator.port_of(
        (#[trigger] b.tunnels@[m]).name@,
    ) == Some(b.tunnels@[m].tunnel.local_port) by {
        let ma = if m < i {
            m
        } else {
            m + 1
        };
        assert(b.tunnels@[m] == a.tunnels@[ma]);
        assert(a.tunnels@[ma].name@ != name);
        assert(a.port_allocator.port_of(a.tunnels@[ma].name@) == Some(
            a.tunnels@[ma].tunnel.local_port,
        ));
        lemma_port_exclusivity(a.port_allocator, a.tunnels@[ma].name@, name);
    }
    lemma_tunnel_index(b.tunnels@, name);
}

/// One canonical tunnel target, whatever shape named it: where to dial,
/// as whom, and with which identity file if one was named.
#[derive(Debug, Clone)]
pub struct TunnelTarget {
    pub hostname: String,
    pub port: u16,
    pub user: String,
    pub key_path: Option<String>,
}

/// The candidate path of the default RSA key under `home`.
pub open spec fn default_rsa_path_spec(home: Seq<char>) -> Seq<char> {
    home + "/.ssh/id_rsa"@
}

/// The candidate path of the default Ed25519 key under `home`.
pub open spec fn default_ed25519_path_spec(home: Seq<char>) -> Seq<char> {
    home + "/.ssh/id_ed25519"@
}

/// Picks the default SSH private key under `home`: `id_rsa` when the
/// caller's probe found it, else `id_ed25519`, else a configuration
/// failure naming both candidates.
pub fn find_default_ssh_key(home: &str, id_rsa_exists: bool, id_ed25519_exists: bool) -> (r:
    Result<String, DadbodError>)
    ensures
        id_rsa_exists ==> (r matches Ok(p) && p@ == default_rsa_path_spec(home@)),
        !id_rsa_exists && id_ed25519_exists ==> (r matches Ok(p) && p@
            == default_ed25519_path_spec(home@)),
        !id_rsa_exists && !id_ed25519_exists ==> (r matches Err(e) && e is ConfigError),
{
    if id_rsa_exists {
        let mut v = chars_of(home);
        push_str_chars(&mut v, "/.ssh/id_rsa");
        Ok(string_of(&v))
    } else if id_ed25519_exists {
        let mut v = chars_of(home);
        push_str_chars(&mut v, "/.ssh/id_ed25519");
        Ok(string_of(&v))
    } else {
        let mut m: Vec<char> = Vec::new();
        push_str_chars(&mut m, "No SSH private key found. Tried: ~/.ssh/id_rsa, ~/.ssh/id_ed25519");
        Err(DadbodError::ConfigError(string_of(&m)))
    }
}

/// Normalises a tunnel spec to one canonical target.  Inline parameters
/// pass through; a configuration reference uses the parsed host entry the
/// caller looked up, filling the user in from the environment when the
/// entry names none.  Fails with a configuration error exactly when the
/// reference's entry is missing, or neither it nor the environment names
/// a user.
pub fn resolve_tunnel_target(
    spec: &SshTunnel,
    parsed: Option<&SshHostConfig>,
    env_user: Option<&str>,
) -> (r: Result<TunnelTarget, DadbodError>)
    ensures
        spec matches SshTunnel::Explicit { host, port, user, key_path } ==> (r matches Ok(t)
            && t.hostname@ == host@ && t.port == port && t.user@ == user@ && (match (
            t.key_path,
            key_path,
        ) {
            (Some(a), Some(b)) => a@ == b@,
            (None, None) => true,
            _ => false,
        })),
        spec is ConfigRef && parsed is None ==> (r matches Err(e) && e is ConfigError),
        spec is ConfigRef ==> (parsed matches Some(c) ==> (match (c.user, env_user) {
            (Some(_), _) => r matches Ok(t) && t.hostname@ == c.hostname@ && t.port == c.port
                && t.user@ == c.user->Some_0@ && (match (t.key_path, c.identity_file) {
                (Some(a), Some(b)) => a@ == b@,
                (None, None) => true,
                _ => false,
            }),
            (None, Some(u)) => r matches Ok(t) && t.hostname@ == c.hostname@ && t.port == c.port
                && t.user@ == u@ && (match (t.key_path, c.identity_file) {
                (Some(a), Some(b)) => a@ == b@,
                (None, None) => true,
                _ => false,
            }),
            (None, None) => r matches Err(e) && e is ConfigError,
        })),
{
    match spec {
        SshTunnel::Explicit { host, port, user, key_path } => Ok(
            TunnelTarget {
                hostname: host.clone(),
                port: *port,
                user: user.clone(),
                key_path: match key_path {
                    Some(p) => Some(p.clone()),
                    None => None,
                },
            },
        ),
        SshTunnel::ConfigRef { ssh_config: _ } => match parsed {
            None => {
                let mut m: Vec<char> = Vec::new();
                push_str_chars(&mut m, "SSH config entry for the tunnel target was not found");
                Err(DadbodError::ConfigError(string_of(&m)))
            },
            Some(c) => {
                let user: String = match &c.user {
                    Some(u) => u.clone(),
                    None => match env_user {
                        Some(u) => string_of(&chars_of(u)),
                        None => {
                            let mut m: Vec<char> = Vec::new();
                            push_str_chars(
                                &mut m,
                                "Could not determine username. Specify User in SSH config or set USER",
                            );
                            return Err(DadbodError::ConfigError(string_of(&m)));
                        },
                    },
                };
                Ok(
                    TunnelTarget {
                        hostname: c.hostname.clone(),
                        port: c.port,
                        user,
                        key_path: match &c.identity_file {
                            Some(p) => Some(p.clone()),
                            None => None,
                        },
                    },
                )
            },
        },
    }
}

/// Law: no two names ever hold the same port.  In a well-formed table,
/// distinct owners' ports differ.
pub proof fn lemma_port_exclusivity(a: PortAllocator, n1: Seq<char>, n2: Seq<char>)
    requires
        a.wf(),
        n1 != n2,
        a.port_of(n1) is Some,
        a.port_of(n2) is Some,
    ensures
        a.port_of(n1) != a.port_of(n2),
{
    lemma_first_name_index(a.allocated@, n1);
    lemma_first_name_index(a.allocated@, n2);
    let i1 = choose_first_name_index(a.allocated@, n1);
    let i2 = choose_first_name_index(a.allocated@, n2);
    assert(a.allocated@[i1].name@ == n1);
    assert(a.allocated@[i2].name@ == n2);
    assert(i1 != i2);
}

} // verus!
