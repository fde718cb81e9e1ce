use vsr_rs::{Accumulator, Client, Config, Message, Op, Replica, StateMachine, Status};

fn make_config(n: usize) -> Config {
    let mut config = Config::new();
    for _ in 0..n {
        config.add_replica();
    }
    config
}

#[test]
fn config_ids_primary_and_quorum() {
    let mut config = Config::new();
    assert_eq!(0, config.add_replica());
    assert_eq!(1, config.add_replica());
    assert_eq!(2, config.add_replica());
    // primary(v) = v mod n
    assert_eq!(0, config.primary_id(0));
    assert_eq!(1, config.primary_id(1));
    assert_eq!(2, config.primary_id(2));
    assert_eq!(0, config.primary_id(3));
    assert_eq!(2, config.primary_id(5));
    // quorum = floor(n / 2) + 1
    assert_eq!(2, config.quorum());
    let five = make_config(5);
    assert_eq!(3, five.quorum());
    let one = make_config(1);
    assert_eq!(1, one.quorum());
}

#[test]
fn accumulator_applies_and_wraps() {
    let mut sm = Accumulator::new();
    assert_eq!(0, sm.total());
    assert_eq!(10, sm.apply(Op::Add(10)));
    assert_eq!(3, sm.apply(Op::Sub(7)));
    assert_eq!(3, sm.total());
    // arithmetic wraps rather than overflowing
    let mut edge = Accumulator::new();
    edge.apply(Op::Add(i32::MAX));
    assert_eq!(i32::MIN, edge.apply(Op::Add(1)));
    assert_eq!(i32::MAX, edge.apply(Op::Sub(1)));
}

#[test]
fn client_numbers_requests_monotonically() {
    let mut client: Client<Op> = Client::new(make_config(3));
    client.on_request(Op::Add(1));
    client.on_request(Op::Add(2));
    client.on_request(Op::Add(3));
    let msgs = client.take_outbox();
    assert_eq!(3, msgs.len());
    for (i, (dest, message)) in msgs.iter().enumerate() {
        // every request goes to the primary of view 0
        assert_eq!(0, *dest);
        match message {
            Message::Request { client_id, request_number, .. } => {
                assert_eq!(0, *client_id);
                assert_eq!(i + 1, *request_number);
            }
            _ => panic!("expected a Request"),
        }
    }
    // the last request is the pending one; a response clears it
    assert_eq!(Some(3), client.on_message());
    assert_eq!(None, client.on_message());
}

#[test]
fn replica_starts_clean() {
    let replica: Replica<Op, Accumulator> = Replica::new(0, make_config(3), Accumulator::new());
    assert!(matches!(replica.status, Status::Normal));
    assert_eq!(0, replica.view_number);
    assert_eq!(0, replica.op_number);
    assert_eq!(0, replica.commit_number);
    assert!(replica.is_primary());
}

#[test]
fn non_primary_drops_requests() {
    let mut replica: Replica<Op, Accumulator> = Replica::new(1, make_config(3), Accumulator::new());
    replica.on_message(Message::Request { client_id: 0, request_number: 0, op: Op::Add(1) });
    assert_eq!(0, replica.op_number);
    assert!(replica.take_outbox().is_empty());
}

#[test]
fn duplicate_prepare_is_reacknowledged() {
    let mut backup: Replica<Op, Accumulator> = Replica::new(1, make_config(3), Accumulator::new());
    let deliver = |r: &mut Replica<Op, Accumulator>| {
        r.on_message(Message::Prepare {
            view_number: 0,
            op_number: 1,
            op: Op::Add(10),
            commit_number: 0,
        });
    };
    deliver(&mut backup);
    deliver(&mut backup);
    // the log holds the operation once, but both deliveries were answered:
    // the first acknowledgment may have been lost
    assert_eq!(1, backup.op_number);
    let acks: Vec<_> = backup
        .take_outbox()
        .into_iter()
        .filter(|(_, m)| matches!(m, Message::PrepareOk { op_number: 1, .. }))
        .collect();
    assert_eq!(2, acks.len());
}

#[test]
fn recovering_replica_still_answers_get_state() {
    let mut backup: Replica<Op, Accumulator> = Replica::new(1, make_config(3), Accumulator::new());
    backup.on_message(Message::Prepare {
        view_number: 0,
        op_number: 1,
        op: Op::Add(10),
        commit_number: 0,
    });
    // a Prepare with a gap sends the replica into Recovery
    backup.on_message(Message::Prepare {
        view_number: 0,
        op_number: 4,
        op: Op::Add(1),
        commit_number: 0,
    });
    assert!(matches!(backup.status, Status::Recovery));
    backup.take_outbox();
    // it keeps serving peers that lag behind it
    backup.on_message(Message::GetState { replica_id: 2, view_number: 0, op_number: 0 });
    let out = backup.take_outbox();
    assert!(out.iter().any(|(to, m)| {
        *to == 2
            && matches!(
                m,
                Message::NewState { op_number_start: 0, op_number_end: 1, .. }
            )
    }));
    // a misaligned repair is refused and Recovery continues
    backup.on_message(Message::NewState {
        view_number: 0,
        log: vec![Op::Add(2), Op::Add(3)],
        op_number_start: 2,
        op_number_end: 4,
        commit_number: 0,
    });
    assert!(matches!(backup.status, Status::Recovery));
    assert_eq!(1, backup.op_number);
    assert!(backup.take_outbox().is_empty());
    // an aligned one repairs the log and ends Recovery
    backup.on_message(Message::NewState {
        view_number: 0,
        log: vec![Op::Add(2), Op::Add(3), Op::Add(4)],
        op_number_start: 1,
        op_number_end: 4,
        commit_number: 2,
    });
    assert!(matches!(backup.status, Status::Normal));
    assert_eq!(4, backup.op_number);
    assert_eq!(2, backup.commit_number);
    assert_eq!(12, backup.state_machine.total());
}

#[test]
fn recovery_ignores_prepare_and_commit() {
    let mut backup: Replica<Op, Accumulator> = Replica::new(1, make_config(3), Accumulator::new());
    backup.on_message(Message::Prepare {
        view_number: 0,
        op_number: 3,
        op: Op::Add(1),
        commit_number: 0,
    });
    assert!(matches!(backup.status, Status::Recovery));
    backup.take_outbox();
    // in Recovery, everything but NewState is ignored outright
    backup.on_message(Message::Prepare {
        view_number: 0,
        op_number: 1,
        op: Op::Add(1),
        commit_number: 0,
    });
    backup.on_message(Message::Commit { view_number: 0, commit_number: 1 });
    assert!(matches!(backup.status, Status::Recovery));
    assert_eq!(0, backup.op_number);
    assert_eq!(0, backup.commit_number);
    assert!(backup.take_outbox().is_empty());
}

#[test]
fn same_view_start_view_change_joins() {
    let mut replica: Replica<Op, Accumulator> = Replica::new(2, make_config(3), Accumulator::new());
    // view 1 is already running at this replica
    replica.on_message(Message::StartView {
        view_number: 1,
        replica_id: 1,
        log: vec![],
        commit_number: 0,
    });
    assert!(matches!(replica.status, Status::Normal));
    assert_eq!(1, replica.view_number);
    replica.take_outbox();
    // a StartViewChange for that same view pulls the replica into the
    // view change: it votes and, with the sender, already has a quorum
    replica.on_message(Message::StartViewChange { view_number: 1, replica_id: 0 });
    assert!(matches!(replica.status, Status::ViewChange));
    assert_eq!(1, replica.view_number);
    let out = replica.take_outbox();
    let broadcasts = out
        .iter()
        .filter(|(_, m)| matches!(m, Message::StartViewChange { view_number: 1, .. }))
        .count();
    assert_eq!(2, broadcasts);
    assert!(out.iter().any(|(to, m)| {
        *to == 1 && matches!(m, Message::DoViewChange { view_number: 1, .. })
    }));
}

#[test]
fn five_replicas_need_two_distinct_backups_to_commit() {
    let n = 5;
    let mut replicas: Vec<Replica<Op, Accumulator>> = (0..n)
        .map(|id| Replica::new(id, make_config(n), Accumulator::new()))
        .collect();
    // two operations, prepared at backups 1 and 2 only
    for (request_number, op) in [(1, Op::Add(10)), (2, Op::Sub(5))] {
        replicas[0].on_message(Message::Request { client_id: 0, request_number, op });
        for (dest, message) in replicas[0].take_outbox() {
            if dest == 1 || dest == 2 {
                replicas[dest].on_message(message);
            }
        }
    }
    let acks_1 = replicas[1].take_outbox();
    let acks_2 = replicas[2].take_outbox();
    // both acks of backup 1 alone are not a quorum of three for anything
    for (_, message) in acks_1 {
        replicas[0].on_message(message);
    }
    assert_eq!(0, replicas[0].commit_number);
    assert_eq!(0, replicas[0].state_machine.total());
    // backup 2's ack for the first operation completes its quorum — and
    // only its own
    let (first_ack, second_ack): (Vec<_>, Vec<_>) = acks_2
        .into_iter()
        .partition(|(_, m)| matches!(m, Message::PrepareOk { op_number: 1, .. }));
    for (_, message) in first_ack {
        replicas[0].on_message(message);
    }
    assert_eq!(1, replicas[0].commit_number);
    assert_eq!(10, replicas[0].state_machine.total());
    for (_, message) in second_ack {
        replicas[0].on_message(message);
    }
    assert_eq!(2, replicas[0].commit_number);
    assert_eq!(5, replicas[0].state_machine.total());
}

#[test]
fn stale_view_messages_are_dropped() {
    let mut replicas: Vec<Replica<Op, Accumulator>> = (0..3)
        .map(|id| Replica::new(id, make_config(3), Accumulator::new()))
        .collect();
    // a backup ignores a Prepare from another view
    replicas[1].on_message(Message::Prepare {
        view_number: 7,
        op_number: 1,
        op: Op::Add(1),
        commit_number: 0,
    });
    assert_eq!(0, replicas[1].op_number);
    assert!(replicas[1].take_outbox().is_empty());
    // the primary ignores a PrepareOk from another view
    replicas[0].on_message(Message::Request { client_id: 0, request_number: 0, op: Op::Add(1) });
    replicas[0].take_outbox();
    replicas[0].on_message(Message::PrepareOk { view_number: 3, op_number: 1 });
    assert_eq!(0, replicas[0].commit_number);
}
