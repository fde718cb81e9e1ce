//! The protocol vocabulary: the tagged messages replicas and clients
//! exchange, together with their mathematical view.

use vstd::prelude::*;

verus! {

/// A protocol message. `Op` is the opaque operation type of the user's state
/// machine; the engine treats it as a value.
pub enum Message<Op> {
    /// client -> primary
    Request { client_id: usize, request_number: usize, op: Op },
    /// primary -> backups: replicate one operation.
    Prepare { view_number: usize, op_number: usize, op: Op, commit_number: usize },
    /// backup -> primary: the operation is in the backup's log.
    PrepareOk { view_number: usize, op_number: usize },
    /// primary -> backups, while idle: advance the backups' commit point.
    Commit { view_number: usize, commit_number: usize },
    /// lagging replica -> a peer: ask for the log suffix past `op_number`.
    GetState { replica_id: usize, view_number: usize, op_number: usize },
    /// peer -> lagging replica: the log suffix requested through `GetState`.
    ///
    /// `op_number_start` repeats the op number of the request so the receiver
    /// can check that the suffix aligns with its own log.
    NewState {
        view_number: usize,
        log: Vec<Op>,
        op_number_start: usize,
        op_number_end: usize,
        commit_number: usize,
    },
    /// any replica -> all others: the sender suspects the primary is down.
    StartViewChange { view_number: usize, replica_id: usize },
    /// replica -> candidate primary: a quorum agreed to change the view.
    DoViewChange { view_number: usize, replica_id: usize, log: Vec<Op>, commit_number: usize },
    /// new primary -> all others: the new view has started.
    StartView { view_number: usize, replica_id: usize, log: Vec<Op>, commit_number: usize },
}

/// The mathematical shape of a `Message`: identical except that logs are
/// sequences. Contracts speak of this type, so that two messages carrying
/// equal logs in distinct vectors are the same value.
pub enum MessageView<Op> {
    Request { client_id: usize, request_number: usize, op: Op },
    Prepare { view_number: usize, op_number: usize, op: Op, commit_number: usize },
    PrepareOk { view_number: usize, op_number: usize },
    Commit { view_number: usize, commit_number: usize },
    GetState { replica_id: usize, view_number: usize, op_number: usize },
    NewState {
        view_number: usize,
        log: Seq<Op>,
        op_number_start: usize,
        op_number_end: usize,
        commit_number: usize,
    },
    StartViewChange { view_number: usize, replica_id: usize },
    DoViewChange { view_number: usize, replica_id: usize, log: Seq<Op>, commit_number: usize },
    StartView { view_number: usize, replica_id: usize, log: Seq<Op>, commit_number: usize },
}

/// The views of a batch of addressed messages, in order: what a drained
/// outbox says mathematically.
pub open spec fn views_of<Op>(msgs: Seq<(usize, Message<Op>)>) -> Seq<(usize, MessageView<Op>)> {
    msgs.map_values(|p: (usize, Message<Op>)| (p.0, p.1@))
}

impl<Op> View for Message<Op> {
    type V = MessageView<Op>;

    open spec fn view(&self) -> MessageView<Op> {
        match *self {
            Message::Request { client_id, request_number, op } => MessageView::Request {
                client_id,
                request_number,
                op,
            },
            Message::Prepare { view_number, op_number, op, commit_number } => MessageView::Prepare {
                view_number,
                op_number,
                op,
                commit_number,
            },
            Message::PrepareOk { view_number, op_number } => MessageView::PrepareOk {
                view_number,
                op_number,
            },
            Message::Commit { view_number, commit_number } => MessageView::Commit {
                view_number,
                commit_number,
            },
            Message::GetState { replica_id, view_number, op_number } => MessageView::GetState {
                replica_id,
                view_number,
                op_number,
            },
            Message::NewState {
                view_number,
                log,
                op_number_start,
                op_number_end,
                commit_number,
            } => MessageView::NewState {
                view_number,
                log: log@,
                op_number_start,
                op_number_end,
                commit_number,
            },
            Message::StartViewChange { view_number, replica_id } => MessageView::StartViewChange {
                view_number,
                replica_id,
            },
            Message::DoViewChange { view_number, replica_id, log, commit_number } => {
                MessageView::DoViewChange { view_number, replica_id, log: log@, commit_number }
            },
            Message::StartView { view_number, replica_id, log, commit_number } => {
                MessageView::StartView { view_number, replica_id, log: log@, commit_number }
            },
        }
    }
}

} // verus!
