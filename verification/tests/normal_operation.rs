use vsr_rs::{Accumulator, Client, Config, Message, Op, Replica};

fn make_config(n: usize) -> Config {
    let mut config = Config::new();
    for _ in 0..n {
        config.add_replica();
    }
    config
}

fn make_cluster(n: usize) -> (Vec<Replica<Op, Accumulator>>, Client<Op>) {
    let mut replicas = Vec::new();
    for id in 0..n {
        replicas.push(Replica::new(id, make_config(n), Accumulator::new()));
    }
    let client = Client::new(make_config(n));
    (replicas, client)
}

/// Delivers every queued message, appending whatever each delivery sends in
/// turn, until the cluster is quiet.
fn tick(replicas: &mut Vec<Replica<Op, Accumulator>>, queue: &mut Vec<(usize, Message<Op>)>) {
    while !queue.is_empty() {
        let (dest, message) = queue.remove(0);
        replicas[dest].on_message(message);
        queue.extend(replicas[dest].take_outbox());
    }
}

/// Like `tick`, but every message addressed to `drop_id` is dropped.
fn tick_lossy(
    replicas: &mut Vec<Replica<Op, Accumulator>>,
    queue: &mut Vec<(usize, Message<Op>)>,
    drop_id: usize,
) {
    while !queue.is_empty() {
        let (dest, message) = queue.remove(0);
        if dest == drop_id {
            continue;
        }
        replicas[dest].on_message(message);
        queue.extend(replicas[dest].take_outbox());
    }
}

fn submit(client: &mut Client<Op>, queue: &mut Vec<(usize, Message<Op>)>, op: Op) {
    client.on_request(op);
    queue.extend(client.take_outbox());
}

#[test]
fn lib_test_normal_operation() {
    let (mut replicas, mut client) = make_cluster(3);
    let mut queue = Vec::new();
    submit(&mut client, &mut queue, Op::Add(10));
    tick(&mut replicas, &mut queue);
    assert_eq!(10, replicas[0].state_machine.total());
    submit(&mut client, &mut queue, Op::Sub(5));
    tick(&mut replicas, &mut queue);
    assert_eq!(5, replicas[0].state_machine.total());
}

#[test]
fn tests_test_normal_operation() {
    let (mut replicas, mut client) = make_cluster(3);
    let mut queue = Vec::new();
    submit(&mut client, &mut queue, Op::Add(10));
    tick(&mut replicas, &mut queue);
    assert_eq!(10, replicas[0].state_machine.total());
    submit(&mut client, &mut queue, Op::Sub(5));
    tick(&mut replicas, &mut queue);
    assert_eq!(5, replicas[0].state_machine.total());
}

#[test]
fn test_idle() {
    let (mut replicas, mut client) = make_cluster(3);
    let mut queue = Vec::new();
    submit(&mut client, &mut queue, Op::Add(10));
    tick(&mut replicas, &mut queue);
    assert_eq!(10, replicas[0].state_machine.total());
    submit(&mut client, &mut queue, Op::Sub(5));
    tick(&mut replicas, &mut queue);
    let accumulator = replicas[0].state_machine.total();
    assert_eq!(5, accumulator);
    // with no client traffic, the primary's idle gossip lets the backups
    // commit what they hold
    for id in 0..replicas.len() {
        replicas[id].on_idle();
        let out = replicas[id].take_outbox();
        queue.extend(out);
    }
    tick(&mut replicas, &mut queue);
    let accumulator_b = replicas[1].state_machine.total();
    let accumulator_c = replicas[2].state_machine.total();
    assert_eq!(accumulator, accumulator_b);
    assert_eq!(accumulator, accumulator_c);
}

#[test]
fn test_recovery() {
    let (mut replicas, mut client) = make_cluster(3);
    let mut queue = Vec::new();
    submit(&mut client, &mut queue, Op::Add(10));
    tick_lossy(&mut replicas, &mut queue, 1);
    assert_eq!(10, replicas[0].state_machine.total());
    submit(&mut client, &mut queue, Op::Sub(5));
    tick(&mut replicas, &mut queue);
    assert_eq!(5, replicas[0].state_machine.total());
    submit(&mut client, &mut queue, Op::Add(7));
    tick(&mut replicas, &mut queue);
    assert_eq!(12, replicas[0].state_machine.total());
}
