//! The socket table and the resolution of requested ports to the
//! identifiers of the processes that own them.

use vstd::prelude::*;

verus! {

/// Transport protocol of one socket.
#[derive(Clone, Copy, Debug, PartialEq, Eq, Structural)]
pub enum Protocol {
    Tcp,
    Udp,
}

/// One entry of a socket-table snapshot.
#[derive(Clone, Debug)]
pub struct SocketRecord {
    pub protocol: Protocol,
    pub local_port: u16,
    /// Identifiers of the processes associated with the socket.
    pub pids: Vec<u32>,
}

/// A record takes part in resolution: it is a TCP socket whose local port
/// was asked for. UDP sockets never match, whatever their port.
pub open spec fn is_match(ports: Seq<u16>, rec: SocketRecord) -> bool {
    rec.protocol == Protocol::Tcp && ports.contains(rec.local_port)
}

/// `pid` owns a matching socket among the first `n` records of `table`.
pub open spec fn owns_among(ports: Seq<u16>, table: Seq<SocketRecord>, n: int, pid: u32) -> bool {
    exists|k: int| 0 <= k < n && #[trigger] is_match(ports, table[k]) && table[k].pids@.contains(pid)
}

/// Every process that owns a TCP socket on one of `ports`, and no other.
pub open spec fn targets_of(ports: Seq<u16>, table: Seq<SocketRecord>) -> Set<u32> {
    Set::new(|pid: u32| owns_among(ports, table, table.len() as int, pid))
}

/// `pids` lists the targets of `ports` in `table`, each exactly once.
pub open spec fn resolves_to(ports: Seq<u16>, table: Seq<SocketRecord>, pids: Seq<u32>) -> bool {
    &&& pids.no_duplicates()
    &&& pids.to_set() == targets_of(ports, table)
}

proof fn lemma_push_contains<A>(s: Seq<A>, x: A, p: A)
    ensures
        s.push(x).contains(p) <==> (s.contains(p) || p == x),
{
    if s.contains(p) {
        let i = choose|i: int| 0 <= i < s.len() && s[i] == p;
        assert(s.push(x)[i] == p);
    }
    if p == x {
        assert(s.push(x)[s.len() as int] == p);
    }
    if s.push(x).contains(p) {
        let i = choose|i: int| 0 <= i < s.len() + 1 && s.push(x)[i] == p;
        if i < s.len() {
            assert(s[i] == p);
        }
    }
}

/// Why a resolution pass could not be performed.
#[derive(Clone, Debug)]
pub enum ResolveError {
    /// The socket table could not be read; the text names the cause.
    Enumeration(String),
}

fn has_port(ports: &Vec<u16>, port: u16) -> (r: bool)
    ensures
        r == ports@.contains(port),
{
    let mut i: usize = 0;
    while i < ports.len()
        invariant
            0 <= i <= ports.len(),
            forall|j: int| 0 <= j < i ==> ports@[j] != port,
        decreases ports.len() - i,
    {
        if ports[i] == port {
            assert(ports@[i as int] == port);
            return true;
        }
        i += 1;
    }
    false
}

fn has_pid(pids: &Vec<u32>, pid: u32) -> (r: bool)
    ensures
        r == pids@.contains(pid),
{
    let mut i: usize = 0;
    while i < pids.len()
        invariant
            0 <= i <= pids.len(),
            forall|j: int| 0 <= j < i ==> pids@[j] != pid,
        decreases pids.len() - i,
    {
        if pids[i] == pid {
            assert(pids@[i as int] == pid);
            return true;
        }
        i += 1;
    }
    false
}

/// Resolves requested ports against a socket table: the identifiers of the
/// processes that own a TCP socket whose local port is in `ports`, each once,
/// in the order in which the table first names them.
pub fn resolve(ports: &Vec<u16>, table: &Vec<SocketRecord>) -> (pids: Vec<u32>)
    ensures
        resolves_to(ports@, table@, pids@),
{
    let mut pids: Vec<u32> = Vec::new();
    let mut k: usize = 0;
    while k < table.len()
        invariant
            0 <= k <= table.len(),
            pids@.no_duplicates(),
            forall|p: u32| pids@.contains(p) <==> owns_among(ports@, table@, k as int, p),
        decreases table.len() - k,
    {
        let rec = &table[k];
        let matched = rec.protocol == Protocol::Tcp && has_port(ports, rec.local_port);
        assert(matched == is_match(ports@, table@[k as int]));
        if matched {
            let mut j: usize = 0;
            while j < rec.pids.len()
                invariant
                    0 <= j <= rec.pids.len(),
                    k < table.len(),
                    rec == &table@[k as int],
                    pids@.no_duplicates(),
                    forall|p: u32|
                        pids@.contains(p) <==> (owns_among(ports@, table@, k as int, p)
                            || rec.pids@.take(j as int).contains(p)),
                decreases rec.pids.len() - j,
            {
                let pid = rec.pids[j];
                let ghost before = pids@;
                if !has_pid(&pids, pid) {
                    pids.push(pid);
                    assert forall|p: u32| pids@.contains(p) <==> (before.contains(p) || p == pid) by {
                        lemma_push_contains(before, pid, p);
                    }
                }
                assert forall|p: u32|
                    rec.pids@.take(j + 1).contains(p) <==> (rec.pids@.take(j as int).contains(p)
                        || p == pid) by {
                    assert(rec.pids@.take(j + 1) =~= rec.pids@.take(j as int).push(pid));
                    lemma_push_contains(rec.pids@.take(j as int), pid, p);
                }
                assert forall|p: u32|
                    pids@.contains(p) <==> (owns_among(ports@, table@, k as int, p)
                        || rec.pids@.take(j + 1).contains(p)) by {
                    assert(before.contains(p) <==> (owns_among(ports@, table@, k as int, p)
                        || rec.pids@.take(j as int).contains(p)));
                }
                j += 1;
            }
            assert(rec.pids@.take(j as int) =~= rec.pids@);
        }
        assert forall|p: u32|
            owns_among(ports@, table@, k + 1, p) <==> (owns_among(ports@, table@, k as int, p)
                || (is_match(ports@, table@[k as int]) && table@[k as int].pids@.contains(p))) by {
            if owns_among(ports@, table@, k + 1, p) {
                let w = choose|w: int|
                    0 <= w < k + 1 && #[trigger] is_match(ports@, table@[w])
                        && table@[w].pids@.contains(p);
                if w < k {
                    assert(owns_among(ports@, table@, k as int, p));
                }
            }
            if is_match(ports@, table@[k as int]) && table@[k as int].pids@.contains(p) {
                assert(owns_among(ports@, table@, k + 1, p));
            }
            if owns_among(ports@, table@, k as int, p) {
                let w = choose|w: int|
                    0 <= w < k && #[trigger] is_match(ports@, table@[w])
                        && table@[w].pids@.contains(p);
                assert(owns_among(ports@, table@, k + 1, p));
            }
        }
        k += 1;
    }
    assert(pids@.to_set() =~= targets_of(ports@, table@));
    pids
}

/// Resolution is exact: an identifier is listed if and only if its process
/// owns a TCP socket on one of the requested ports.
pub proof fn resolve_lists_exact_owners(
    ports: Seq<u16>,
    table: Seq<SocketRecord>,
    pids: Seq<u32>,
    pid: u32,
)
    requires
        resolves_to(ports, table, pids),
    ensures
        pids.contains(pid) <==> exists|k: int|
            0 <= k < table.len() && #[trigger] table[k].protocol == Protocol::Tcp
                && ports.contains(table[k].local_port) && table[k].pids@.contains(pid),
{
    assert(pids.contains(pid) <==> pids.to_set().contains(pid));
    if pids.contains(pid) {
        let k = choose|k: int|
            0 <= k < table.len() && #[trigger] is_match(ports, table[k]) && table[k].pids@.contains(pid);
        assert(table[k].protocol == Protocol::Tcp);
    }
    if exists|k: int|
        0 <= k < table.len() && #[trigger] table[k].protocol == Protocol::Tcp
            && ports.contains(table[k].local_port) && table[k].pids@.contains(pid) {
        let k = choose|k: int|
            0 <= k < table.len() && #[trigger] table[k].protocol == Protocol::Tcp
                && ports.contains(table[k].local_port) && table[k].pids@.contains(pid);
        assert(is_match(ports, table[k]));
        assert(targets_of(ports, table).contains(pid));
    }
}

/// UDP sockets are enumerated but never matched: a process that is
/// associated only with UDP sockets is never listed, whatever ports are asked.
pub proof fn udp_owners_are_never_listed(
    ports: Seq<u16>,
    table: Seq<SocketRecord>,
    pids: Seq<u32>,
    pid: u32,
)
    requires
        resolves_to(ports, table, pids),
        forall|k: int|
            0 <= k < table.len() && #[trigger] table[k].pids@.contains(pid) ==> table[k].protocol
                == Protocol::Udp,
    ensures
        !pids.contains(pid),
{
    resolve_lists_exact_owners(ports, table, pids, pid);
}

/// Resolving the same ports against the same socket table twice gives the
/// same identifiers, as many of them.
pub proof fn resolve_is_idempotent(
    ports: Seq<u16>,
    table: Seq<SocketRecord>,
    first: Seq<u32>,
    second: Seq<u32>,
)
    requires
        resolves_to(ports, table, first),
        resolves_to(ports, table, second),
    ensures
        first.to_set() == second.to_set(),
        first.len() == second.len(),
{
    first.unique_seq_to_set();
    second.unique_seq_to_set();
}

/// A process that owns sockets on two different requested ports is listed
/// once, not once per port.
pub proof fn shared_owner_is_listed_once(
    ports: Seq<u16>,
    table: Seq<SocketRecord>,
    pids: Seq<u32>,
    a: int,
    b: int,
    pid: u32,
)
    requires
        resolves_to(ports, table, pids),
        0 <= a < table.len(),
        0 <= b < table.len(),
        table[a].local_port != table[b].local_port,
        table[a].protocol == Protocol::Tcp,
        table[b].protocol == Protocol::Tcp,
        ports.contains(table[a].local_port),
        ports.contains(table[b].local_port),
        table[a].pids@.contains(pid),
        table[b].pids@.contains(pid),
    ensures
        pids.contains(pid),
        forall|i: int, j: int|
            0 <= i < pids.len() && 0 <= j < pids.len() && pids[i] == pid && pids[j] == pid ==> i == j,
{
    resolve_lists_exact_owners(ports, table, pids, pid);
}

} // verus!
