use vsr_rs::{Accumulator, Client, Config, Message, Op, Replica, Status};

fn make_config(n: usize) -> Config {
    let mut config = Config::new();
    for _ in 0..n {
        config.add_replica();
    }
    config
}

fn make_cluster(n: usize) -> (Vec<Replica<Op, Accumulator>>, Client<Op>) {
    let mut replicas = Vec::new();
    for id in 0..n {
        replicas.push(Replica::new(id, make_config(n), Accumulator::new()));
    }
    let client = Client::new(make_config(n));
    (replicas, client)
}

fn tick(replicas: &mut Vec<Replica<Op, Accumulator>>, queue: &mut Vec<(usize, Message<Op>)>) {
    while !queue.is_empty() {
        let (dest, message) = queue.remove(0);
        replicas[dest].on_message(message);
        queue.extend(replicas[dest].take_outbox());
    }
}

fn tick_lossy(
    replicas: &mut Vec<Replica<Op, Accumulator>>,
    queue: &mut Vec<(usize, Message<Op>)>,
    drop_id: usize,
) {
    while !queue.is_empty() {
        let (dest, message) = queue.remove(0);
        if dest == drop_id {
            continue;
        }
        replicas[dest].on_message(message);
        queue.extend(replicas[dest].take_outbox());
    }
}

fn submit(client: &mut Client<Op>, queue: &mut Vec<(usize, Message<Op>)>, op: Op) {
    client.on_request(op);
    queue.extend(client.take_outbox());
}

/// The accumulator value an operation prefix folds to.
fn fold_prefix(log: &Vec<Op>, n: usize) -> i32 {
    log[..n].iter().fold(0i32, |acc, op| match op {
        Op::Add(value) => acc.wrapping_add(*value),
        Op::Sub(value) => acc.wrapping_sub(*value),
    })
}

/// Any two replicas agree on every position both have committed, and each
/// replica's bookkeeping and state machine line up with its log.
fn assert_agreement(replicas: &Vec<Replica<Op, Accumulator>>) {
    for r in replicas.iter() {
        // the op counter is the log length, commits lie within the log
        assert_eq!(r.op_number, r.log.len());
        assert!(r.commit_number <= r.op_number);
        // the state machine has applied exactly the committed prefix
        assert_eq!(fold_prefix(&r.log, r.commit_number), r.state_machine.total());
        for s in replicas.iter() {
            let n = r.commit_number.min(s.commit_number);
            for i in 0..n {
                assert!(r.log[i] == s.log[i]);
            }
        }
    }
}

#[test]
fn one_replica_drop() {
    let (mut replicas, mut client) = make_cluster(3);
    let mut queue = Vec::new();
    // replicas 0 and 2 are a quorum on their own
    submit(&mut client, &mut queue, Op::Add(10));
    tick_lossy(&mut replicas, &mut queue, 1);
    submit(&mut client, &mut queue, Op::Sub(5));
    tick_lossy(&mut replicas, &mut queue, 1);
    submit(&mut client, &mut queue, Op::Add(7));
    tick_lossy(&mut replicas, &mut queue, 1);
    assert_eq!(12, replicas[0].state_machine.total());
    assert_eq!(3, replicas[0].commit_number);
    assert_agreement(&replicas);
}

#[test]
fn state_transfer_after_gap() {
    let (mut replicas, mut client) = make_cluster(3);
    let mut queue = Vec::new();
    submit(&mut client, &mut queue, Op::Add(10));
    tick(&mut replicas, &mut queue);
    // replica 2 misses the Prepare for the second operation entirely
    submit(&mut client, &mut queue, Op::Sub(5));
    tick_lossy(&mut replicas, &mut queue, 2);
    assert_eq!(1, replicas[2].op_number);
    // the Prepare for the third operation reveals the gap
    submit(&mut client, &mut queue, Op::Add(7));
    while !queue.is_empty() {
        let (dest, message) = queue.remove(0);
        replicas[dest].on_message(message);
        if dest == 2 {
            // the lagging replica must ask for the missing suffix
            assert!(matches!(replicas[2].status, Status::Recovery));
            let out = replicas[2].take_outbox();
            assert!(out.iter().any(|(_, m)| matches!(
                m,
                Message::GetState { op_number: 1, .. }
            )));
            queue.extend(out);
        } else {
            queue.extend(replicas[dest].take_outbox());
        }
        if matches!(replicas[2].status, Status::Recovery) {
            break;
        }
    }
    // let the repair finish
    tick(&mut replicas, &mut queue);
    assert!(matches!(replicas[2].status, Status::Normal));
    assert_eq!(3, replicas[2].op_number);
    assert_eq!(12, replicas[0].state_machine.total());
    assert_agreement(&replicas);
}

#[test]
fn recovered_replica_acknowledges_whole_log() {
    let (mut replicas, mut client) = make_cluster(3);
    let mut queue = Vec::new();
    submit(&mut client, &mut queue, Op::Add(10));
    tick(&mut replicas, &mut queue);
    submit(&mut client, &mut queue, Op::Sub(5));
    tick_lossy(&mut replicas, &mut queue, 2);
    submit(&mut client, &mut queue, Op::Add(7));
    // deliver by hand and watch the repaired replica acknowledge the log end
    let mut saw_prepare_ok_3 = false;
    while !queue.is_empty() {
        let (dest, message) = queue.remove(0);
        replicas[dest].on_message(message);
        let out = replicas[dest].take_outbox();
        if dest == 2 {
            for (to, m) in out.iter() {
                if let Message::PrepareOk { op_number: 3, .. } = m {
                    assert_eq!(0, *to);
                    saw_prepare_ok_3 = true;
                }
            }
        }
        queue.extend(out);
    }
    assert!(saw_prepare_ok_3);
    assert_eq!(3, replicas[2].op_number);
}

#[test]
fn duplicate_prepare_ok_is_harmless() {
    let (mut replicas, mut client) = make_cluster(3);
    let mut queue = Vec::new();
    submit(&mut client, &mut queue, Op::Add(10));
    submit(&mut client, &mut queue, Op::Sub(5));
    // deliver everything, replaying every PrepareOk to the primary twice
    while !queue.is_empty() {
        let (dest, message) = queue.remove(0);
        let replay = match &message {
            Message::PrepareOk { view_number, op_number } if dest == 0 => {
                Some((*view_number, *op_number))
            }
            _ => None,
        };
        replicas[dest].on_message(message);
        queue.extend(replicas[dest].take_outbox());
        if let Some((view_number, op_number)) = replay {
            replicas[0].on_message(Message::PrepareOk { view_number, op_number });
            queue.extend(replicas[0].take_outbox());
        }
    }
    // the commit count equals the number of distinct requests, and the
    // accumulator is unchanged by the replays
    assert_eq!(2, replicas[0].commit_number);
    assert_eq!(5, replicas[0].state_machine.total());
    assert_eq!(2, replicas[0].take_responses().len());
    // every committed position was acknowledged by a quorum (the primary's
    // own vote included)
    for i in 0..replicas[0].commit_number {
        assert!(replicas[0].acks[i] >= 2);
    }
}

#[test]
fn idle_commit_propagation() {
    let (mut replicas, mut client) = make_cluster(3);
    let mut queue = Vec::new();
    submit(&mut client, &mut queue, Op::Add(10));
    tick(&mut replicas, &mut queue);
    assert_eq!(10, replicas[0].state_machine.total());
    // backups have logged the operation but not yet learned it committed
    for _ in 0..3 {
        for id in 0..replicas.len() {
            replicas[id].on_idle();
            let out = replicas[id].take_outbox();
            queue.extend(out);
        }
        tick(&mut replicas, &mut queue);
    }
    assert_eq!(10, replicas[1].state_machine.total());
    assert_eq!(10, replicas[2].state_machine.total());
    assert_agreement(&replicas);
}

#[test]
fn view_change_elects_next_primary() {
    let (mut replicas, mut client) = make_cluster(3);
    let mut queue = Vec::new();
    submit(&mut client, &mut queue, Op::Add(10));
    tick(&mut replicas, &mut queue);
    submit(&mut client, &mut queue, Op::Sub(5));
    tick(&mut replicas, &mut queue);
    // the primary goes silent: the backups time out and change the view
    for _ in 0..3 {
        replicas[1].on_idle();
        replicas[2].on_idle();
    }
    queue.extend(replicas[1].take_outbox());
    queue.extend(replicas[2].take_outbox());
    assert!(matches!(replicas[1].status, Status::ViewChange));
    assert_eq!(1, replicas[1].view_number);
    tick(&mut replicas, &mut queue);
    // view 1 has started: replica 1 is the new primary, the log survived
    for r in replicas.iter() {
        assert_eq!(1, r.view_number);
        assert!(matches!(r.status, Status::Normal));
        assert_eq!(2, r.op_number);
        assert_eq!(2, r.commit_number);
        assert_eq!(5, r.state_machine.total());
    }
    assert!(replicas[1].is_primary());
    assert!(!replicas[0].is_primary());
    assert_agreement(&replicas);
    // stragglers from the old view never move a replica's view backwards
    replicas[2].on_message(Message::Commit { view_number: 0, commit_number: 2 });
    replicas[2].on_message(Message::Prepare {
        view_number: 0,
        op_number: 3,
        op: Op::Add(1),
        commit_number: 2,
    });
    replicas[2].on_message(Message::StartViewChange { view_number: 0, replica_id: 0 });
    assert_eq!(1, replicas[2].view_number);
    assert_eq!(2, replicas[2].op_number);
    assert!(matches!(replicas[2].status, Status::Normal));
    assert!(replicas[2].take_outbox().is_empty());
}
