use port_task_kill::{Protocol, SocketRecord, resolve};

fn rec(protocol: Protocol, local_port: u16, pids: Vec<u32>) -> SocketRecord {
    SocketRecord { protocol, local_port, pids }
}

fn sorted(mut v: Vec<u32>) -> Vec<u32> {
    v.sort();
    v
}

fn table() -> Vec<SocketRecord> {
    vec![
        rec(Protocol::Tcp, 8080, vec![100]),
        rec(Protocol::Udp, 8080, vec![300]),
        rec(Protocol::Tcp, 9090, vec![100, 200]),
        rec(Protocol::Tcp, 22, vec![1]),
        rec(Protocol::Udp, 53, vec![400]),
    ]
}

#[test]
fn resolves_tcp_owners_only() {
    assert_eq!(sorted(resolve(&vec![8080], &table())), vec![100]);
}

#[test]
fn udp_only_port_resolves_to_nothing() {
    assert_eq!(resolve(&vec![53], &table()), Vec::<u32>::new());
}

#[test]
fn shared_owner_listed_once() {
    assert_eq!(sorted(resolve(&vec![8080, 9090], &table())), vec![100, 200]);
}

#[test]
fn repeated_ports_do_not_repeat_work() {
    assert_eq!(sorted(resolve(&vec![9090, 9090, 8080], &table())), vec![100, 200]);
}

#[test]
fn no_match_is_empty() {
    assert_eq!(resolve(&vec![1234], &table()), Vec::<u32>::new());
    assert_eq!(resolve(&vec![8080], &Vec::new()), Vec::<u32>::new());
}

#[test]
fn resolve_twice_gives_same_set() {
    let t = table();
    let ports = vec![22, 9090];
    assert_eq!(sorted(resolve(&ports, &t)), sorted(resolve(&ports, &t)));
}

#[test]
fn socket_without_owner_adds_nothing() {
    let t = vec![rec(Protocol::Tcp, 80, vec![]), rec(Protocol::Tcp, 81, vec![7, 7])];
    assert_eq!(resolve(&vec![80, 81], &t), vec![7]);
}
