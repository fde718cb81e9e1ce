//! The per-replica protocol engine: normal-case replication, state transfer
//! for a lagging replica, and view changes when the primary is suspected
//! down.
//!
//! A replica is a single-threaded actor. Its two entry points, `on_message`
//! and `on_idle`, mutate only the replica itself: every outbound protocol
//! message is recorded in the replica's outbox, and every reply owed to a
//! client in its response queue, for the host to drain and deliver.

use crate::config::Config;
use crate::message::{views_of, Message, MessageView};
use crate::state_machine::StateMachine;
use vstd::prelude::*;

verus! {

/// How many consecutive idle ticks without hearing from the primary a backup
/// tolerates before it starts a view change.
pub const BACKUP_IDLE_TICKS_MAX: usize = 2;

/// An ack counter bumped by one, stuck at the top of its range.
pub open spec fn saturating_incr(x: usize) -> usize {
    if x == usize::MAX {
        x
    } else {
        (x + 1) as usize
    }
}

/// Replica status.
#[derive(Clone, Copy, PartialEq, Eq, Structural, Debug)]
pub enum Status {
    Normal,
    Recovery,
    ViewChange,
}

/// One `DoViewChange` vote collected by the candidate primary of a view:
/// the sender's log and commit point.
pub struct LogVote<Op> {
    pub replica_id: usize,
    pub log: Vec<Op>,
    pub commit_number: usize,
}

/// The mathematical shape of a collected vote.
pub struct VoteView<Op> {
    pub replica_id: usize,
    pub log: Seq<Op>,
    pub commit_number: usize,
}

impl<Op> View for LogVote<Op> {
    type V = VoteView<Op>;

    open spec fn view(&self) -> VoteView<Op> {
        VoteView {
            replica_id: self.replica_id,
            log: self.log@,
            commit_number: self.commit_number,
        }
    }
}

/// The views of a batch of votes, in arrival order.
pub open spec fn vote_views<Op>(votes: Seq<LogVote<Op>>) -> Seq<VoteView<Op>> {
    votes.map_values(|v: LogVote<Op>| v@)
}

/// Index of the vote carrying the longest log; the earliest such vote on a
/// tie.
pub open spec fn best_vote_idx<Op>(votes: Seq<VoteView<Op>>) -> int
    decreases votes.len(),
{
    if votes.len() <= 1 {
        0
    } else {
        let rest = best_vote_idx(votes.drop_last());
        if votes.last().log.len() > votes[rest].log.len() {
            votes.len() - 1
        } else {
            rest
        }
    }
}

/// The largest commit number any vote carries (zero when there are none).
pub open spec fn max_vote_commit<Op>(votes: Seq<VoteView<Op>>) -> int
    decreases votes.len(),
{
    if votes.len() == 0 {
        0
    } else {
        let rest = max_vote_commit(votes.drop_last());
        if votes.last().commit_number >= rest {
            votes.last().commit_number as int
        } else {
            rest
        }
    }
}

/// `best_vote_idx` points at a vote, its log is the longest, and no vote's
/// commit number exceeds the longest log (nor `max_vote_commit`).
pub proof fn lemma_best_vote<Op>(votes: Seq<VoteView<Op>>)
    ensures
        votes.len() > 0 ==> 0 <= best_vote_idx(votes) < votes.len(),
        forall|i: int|
            0 <= i < votes.len() ==> (#[trigger] votes[i]).log.len()
                <= votes[best_vote_idx(votes)].log.len(),
        max_vote_commit(votes) >= 0,
        forall|i: int|
            0 <= i < votes.len() ==> (#[trigger] votes[i]).commit_number
                <= max_vote_commit(votes),
        votes.len() > 0 ==> exists|i: int|
            0 <= i < votes.len() && (#[trigger] votes[i]).commit_number == max_vote_commit(votes),
    decreases votes.len(),
{
    if votes.len() > 0 {
        lemma_best_vote(votes.drop_last());
        assert(forall|i: int|
            0 <= i < votes.len() - 1 ==> #[trigger] votes[i] == votes.drop_last()[i]);
    }
}

/// The log a replica adopts from another's `incoming` log: its own applied
/// prefix, then the remainder of `incoming`. Whenever `incoming` agrees
/// with the applied prefix — which the protocol's agreement property says
/// of every log a quorum produced — this equals `incoming` (extended past a
/// shorter `incoming`); spelling it this way keeps an applied operation
/// from ever being overwritten.
pub open spec fn adopted_log<Op>(mine: Seq<Op>, committed: int, incoming: Seq<Op>) -> Seq<Op> {
    if incoming.len() > committed {
        mine.take(committed) + incoming.skip(committed)
    } else {
        mine.take(committed)
    }
}

/// In a well-formed replica the position counter of the last accepted
/// operation is exactly the log length.
pub proof fn lemma_op_number_is_log_len<Op: Copy, SM: StateMachine<Op>>(r: Replica<Op, SM>)
    requires
        r.wf(),
    ensures
        r.op_number == r.log@.len(),
{
}

/// Commit ordering: the operations a well-formed replica has applied to its
/// state machine are exactly the committed prefix of its log — applied in
/// strictly increasing position order, contiguously from the first.
pub proof fn lemma_applied_is_committed_prefix<Op: Copy, SM: StateMachine<Op>>(r: Replica<Op, SM>)
    requires
        r.wf(),
    ensures
        r.applied() == r.log@.take(r.commit_number as int),
        r.applied().len() == r.commit_number,
        forall|i: int| 0 <= i < r.commit_number ==> r.applied()[i] == r.log@[i],
{
}

/// Acknowledgment idempotence: a `PrepareOk` for a position the primary has
/// already committed changes nothing at all — the commit point stays, no
/// operation is re-applied, nothing is sent.
pub proof fn lemma_prepare_ok_idempotent<Op: Copy, SM: StateMachine<Op>>(
    pre: Replica<Op, SM>,
    post: Replica<Op, SM>,
    v: usize,
    n: usize,
)
    requires
        Replica::prepare_ok_transition(pre, post, v, n),
        n <= pre.commit_number,
    ensures
        post == pre,
{
}

/// Quorum before commit: every position a `PrepareOk` step commits had, at
/// the moment it was applied, at least a quorum of acknowledgments counted
/// for exactly that position — the primary's own vote plus received
/// `PrepareOk` messages. (The message format carries no sender id, so the
/// count is of messages; a transport that duplicates messages can inflate
/// it, exactly as in a count kept per sender-less message.)
pub proof fn lemma_quorum_commit<Op: Copy, SM: StateMachine<Op>>(
    pre: Replica<Op, SM>,
    post: Replica<Op, SM>,
    v: usize,
    n: usize,
)
    requires
        Replica::prepare_ok_transition(pre, post, v, n),
    ensures
        pre.commit_number <= post.commit_number,
        forall|j: int|
            pre.commit_number <= j < post.commit_number ==> post.acks@[j] >= pre.spec_quorum(),
{
}

/// Commit stability: no protocol step moves a replica's commit point
/// backwards, and no step changes an operation at a position the replica
/// had already committed. (Agreement between two replicas rests on this:
/// what a replica has once committed, it keeps.)
pub proof fn lemma_commit_stable<Op: Copy, SM: StateMachine<Op>>(
    pre: Replica<Op, SM>,
    post: Replica<Op, SM>,
    m: MessageView<Op>,
)
    requires
        pre.wf(),
        Replica::message_transition(pre, post, m),
    ensures
        pre.commit_number <= post.commit_number,
        post.log@.take(pre.commit_number as int) == pre.log@.take(pre.commit_number as int),
{
    let c = pre.commit_number as int;
    match m {
        MessageView::Request { client_id, request_number, op } => {
            if pre.status == Status::Normal && pre.spec_is_primary() {
                assert(post.log@.take(c) =~= pre.log@.take(c));
            }
        },
        MessageView::Prepare { view_number, op_number, op, commit_number } => {
            if post.log@ != pre.log@ {
                assert(post.log@.take(c) =~= pre.log@.take(c));
            }
        },
        MessageView::NewState {
            view_number,
            log,
            op_number_start,
            op_number_end,
            commit_number,
        } => {
            if post.log@ != pre.log@ {
                assert(post.log@.take(c) =~= pre.log@.take(c));
            }
        },
        MessageView::DoViewChange { view_number, replica_id, log, commit_number } => {
            if post.log@ != pre.log@ {
                assert(post.log@.take(c) =~= pre.log@.take(c));
            }
        },
        MessageView::StartView { view_number, replica_id, log, commit_number } => {
            if post.log@ != pre.log@ {
                assert(post.log@.take(c) =~= pre.log@.take(c));
            }
        },
        _ => {
            assert(post.log@.take(c) =~= pre.log@.take(c));
        },
    }
}

/// A replica of the cluster, owning one copy of the user's state machine.
///
/// The fields are public so that contracts (and the host) can speak of them;
/// every handler requires and preserves `wf`.
pub struct Replica<Op, SM: StateMachine<Op>> {
    pub config: Config,
    pub self_id: usize,
    pub state_machine: SM,
    pub status: Status,
    pub backup_idle_ticks: usize,
    pub view_number: usize,
    pub commit_number: usize,
    pub op_number: usize,
    pub log: Vec<Op>,
    /// `acks[i]` counts the acknowledgments seen for the operation at
    /// position `i + 1`: this replica's own vote, plus one per `PrepareOk`
    /// received for that position. A `PrepareOk` does not name its sender,
    /// so these are message counts, not distinct replicas. Only the
    /// primary reads it.
    pub acks: Vec<usize>,
    /// `StartViewChange` votes collected for `view_number` (this replica
    /// included once it has broadcast its own).
    pub start_view_change_votes: usize,
    /// Whether this replica already sent `DoViewChange` for `view_number`.
    pub do_view_change_sent: bool,
    /// `DoViewChange` votes collected for `view_number`, one per sender.
    pub do_view_change_votes: Vec<LogVote<Op>>,
    /// Outbound protocol messages not yet handed to the host.
    pub outbox: Vec<(usize, Message<Op>)>,
    /// Replies owed to the client, one per operation this primary committed.
    pub responses: Vec<SM::Output>,
}

impl<Op: Copy, SM: StateMachine<Op>> Replica<Op, SM> {
    /// Every reachable replica state satisfies this. Beyond plain
    /// bookkeeping it carries two protocol invariants: `op_number` always
    /// equals the log length, and the state machine has applied exactly the
    /// committed prefix of the log, in order.
    pub open spec fn wf(&self) -> bool {
        &&& self.config.wf()
        &&& self.config.n() > 0
        &&& self.self_id < self.config.n()
        &&& self.op_number == self.log@.len()
        &&& self.commit_number <= self.op_number
        &&& self.acks@.len() == self.log@.len()
        &&& self.state_machine.history() == self.log@.take(self.commit_number as int)
        &&& forall|i: int| 0 <= i < self.do_view_change_votes@.len()
            ==> (#[trigger] self.do_view_change_votes@[i]).commit_number
                <= self.do_view_change_votes@[i].log@.len()
        &&& forall|i: int, j: int|
            0 <= i < j < self.do_view_change_votes@.len()
                ==> (#[trigger] self.do_view_change_votes@[i]).replica_id
                    != (#[trigger] self.do_view_change_votes@[j]).replica_id
    }

    /// The outbound messages recorded so far, as (destination, message view)
    /// pairs in sending order.
    pub open spec fn sends(&self) -> Seq<(usize, MessageView<Op>)> {
        views_of(self.outbox@)
    }

    /// The operations the replica's state machine has applied, oldest first.
    pub open spec fn applied(&self) -> Seq<Op> {
        self.state_machine.history()
    }

    pub open spec fn spec_primary_id(&self) -> usize {
        self.config.spec_primary_id(self.view_number)
    }

    pub open spec fn spec_is_primary(&self) -> bool {
        self.self_id == self.spec_primary_id()
    }

    pub open spec fn spec_quorum(&self) -> nat {
        self.config.spec_quorum()
    }

    /// The ids every broadcast goes to: all replicas except `self_id`, in
    /// increasing order.
    pub open spec fn spec_others(n: nat, self_id: usize) -> Seq<usize> {
        Seq::new((n - 1) as nat, |k: int| if k < self_id { k as usize } else { (k + 1) as usize })
    }

    /// A broadcast of `m`: one copy per other replica.
    pub open spec fn spec_broadcast(n: nat, self_id: usize, m: MessageView<Op>) -> Seq<
        (usize, MessageView<Op>),
    > {
        Self::spec_others(n, self_id).map_values(|r: usize| (r, m))
    }

    // --- transition relations -------------------------------------------
    //
    // One spec predicate per protocol event, shared between the private
    // handler that implements it and the public contract of `on_message`.
    // Each pins the post-state down as a function of the pre-state and the
    // message; `post.outbox`-valued fields appear through `post.sends()`.

    /// `Request{_, _, op}` at this replica. Only the primary of the current
    /// view accepts it, in `Normal` status: it appends the operation, votes
    /// for it itself, and broadcasts a `Prepare`. Anyone else drops it.
    pub open spec fn request_transition(pre: Self, post: Self, op: Op) -> bool {
        if pre.status != Status::Normal || !pre.spec_is_primary() {
            post == pre
        } else {
            &&& post.log@ == pre.log@.push(op)
            &&& post.acks@ == pre.acks@.push(1usize)
            &&& post.op_number == pre.op_number + 1
            &&& post == (Replica {
                log: post.log,
                acks: post.acks,
                op_number: post.op_number,
                outbox: post.outbox,
                ..pre
            })
            &&& post.sends() == pre.sends() + Self::spec_broadcast(
                pre.config.n(),
                pre.self_id,
                MessageView::Prepare {
                    view_number: pre.view_number,
                    op_number: (pre.op_number + 1) as usize,
                    op,
                    commit_number: pre.commit_number,
                },
            )
        }
    }

    /// `Prepare{v, n, op, c}` at a backup. In the current view and `Normal`
    /// status: a duplicate is re-acknowledged, a gap forces state transfer,
    /// and the next expected operation is appended, committed up to `c`, and
    /// acknowledged. Everything else only resets the idle counter.
    pub open spec fn prepare_transition(
        pre: Self,
        post: Self,
        v: usize,
        n: usize,
        op: Op,
        c: usize,
    ) -> bool {
        let pre1 = Replica { backup_idle_ticks: 0usize, ..pre };
        let primary = pre.spec_primary_id();
        if pre.status != Status::Normal || v != pre.view_number || pre.spec_is_primary() {
            post == pre1
        } else if n <= pre.op_number {
            // duplicate: acknowledge again (acknowledgment must be idempotent)
            &&& post == (Replica { outbox: post.outbox, ..pre1 })
            &&& post.sends() == pre.sends().push(
                (primary, MessageView::PrepareOk { view_number: v, op_number: n }),
            )
        } else if n > pre.op_number + 1 {
            // gap: ask for the missing suffix
            &&& post == (Replica { status: Status::Recovery, outbox: post.outbox, ..pre1 })
            &&& post.sends() == pre.sends().push(
                (
                    primary,
                    MessageView::GetState {
                        replica_id: pre.self_id,
                        view_number: v,
                        op_number: pre.op_number,
                    },
                ),
            )
        } else {
            // n == pre.op_number + 1: accept, commit up to min(c, n), acknowledge
            &&& post.log@ == pre.log@.push(op)
            &&& post.acks@ == pre.acks@.push(1usize)
            &&& post.op_number == n
            &&& post.commit_number == if c > n {
                n as int
            } else if c >= pre.commit_number {
                c as int
            } else {
                pre.commit_number as int
            }
            &&& post.applied() == post.log@.take(post.commit_number as int)
            &&& post.status == if c <= n { Status::Normal } else { Status::Recovery }
            &&& post == (Replica {
                log: post.log,
                acks: post.acks,
                op_number: post.op_number,
                commit_number: post.commit_number,
                state_machine: post.state_machine,
                status: post.status,
                outbox: post.outbox,
                ..pre1
            })
            &&& post.sends() == if c <= n {
                pre.sends().push((primary, MessageView::PrepareOk { view_number: v, op_number: n }))
            } else {
                // the primary has committed past what we hold: also catch up
                pre.sends().push(
                    (primary, MessageView::PrepareOk { view_number: v, op_number: n }),
                ).push(
                    (
                        primary,
                        MessageView::GetState {
                            replica_id: pre.self_id,
                            view_number: v,
                            op_number: n,
                        },
                    ),
                )
            }
        }
    }

    /// The replies recorded while the commit point moves from `from` up to
    /// `to` along `log`: one per operation applied, each the result the
    /// state machine owes for that operation at that point of the history.
    pub open spec fn replies_for(log: Seq<Op>, from: int, to: int) -> Seq<SM::Output> {
        Seq::new((to - from) as nat, |k: int| SM::spec_result(log.take(from + k), log[from + k]))
    }

    /// `PrepareOk{v, n}` at the primary. An unknown or already committed
    /// position is dropped, so re-delivery after commit changes nothing. A
    /// live one counts one more ack for position `n`, and every contiguous
    /// operation from the commit point on that has a quorum of acks is
    /// applied, in order, with one client reply each. No operation is
    /// applied without a quorum of acks counted for it.
    pub open spec fn prepare_ok_transition(pre: Self, post: Self, v: usize, n: usize) -> bool {
        if pre.status != Status::Normal || v != pre.view_number || !pre.spec_is_primary() {
            post == pre
        } else if n > pre.op_number || n <= pre.commit_number {
            post == pre
        } else {
            &&& post.acks@ == pre.acks@.update(n - 1, saturating_incr(pre.acks@[n - 1]))
            &&& pre.commit_number <= post.commit_number <= pre.op_number
            &&& forall|j: int|
                pre.commit_number <= j < post.commit_number ==> post.acks@[j]
                    >= pre.spec_quorum()
            &&& post.commit_number == post.op_number || post.acks@[post.commit_number as int]
                < pre.spec_quorum()
            &&& post.applied() == post.log@.take(post.commit_number as int)
            &&& post.responses@ == pre.responses@ + Self::replies_for(
                pre.log@,
                pre.commit_number as int,
                post.commit_number as int,
            )
            &&& post == (Replica {
                acks: post.acks,
                commit_number: post.commit_number,
                state_machine: post.state_machine,
                responses: post.responses,
                ..pre
            })
        }
    }

    /// `Commit{v, c}` at a backup: in the current view and `Normal` status
    /// it applies operations it holds up to `c`, or starts state transfer if
    /// `c` lies past its log. Everything else only resets the idle counter.
    pub open spec fn commit_transition(pre: Self, post: Self, v: usize, c: usize) -> bool {
        let pre1 = Replica { backup_idle_ticks: 0usize, ..pre };
        if pre.status != Status::Normal || v != pre.view_number || pre.spec_is_primary() {
            post == pre1
        } else if c > pre.op_number {
            &&& post == (Replica { status: Status::Recovery, outbox: post.outbox, ..pre1 })
            &&& post.sends() == pre.sends().push(
                (
                    pre.spec_primary_id(),
                    MessageView::GetState {
                        replica_id: pre.self_id,
                        view_number: v,
                        op_number: pre.op_number,
                    },
                ),
            )
        } else {
            &&& post.commit_number == if c >= pre.commit_number {
                c as int
            } else {
                pre.commit_number as int
            }
            &&& post.applied() == post.log@.take(post.commit_number as int)
            &&& post == (Replica {
                commit_number: post.commit_number,
                state_machine: post.state_machine,
                ..pre1
            })
        }
    }

    /// `GetState{r, v, n}`: any replica that is not mid view change answers
    /// a peer's request for the log suffix past `n` with a `NewState`. A
    /// request from an unknown sender, for a different view, or for a suffix
    /// this replica does not hold, is dropped.
    pub open spec fn get_state_transition(
        pre: Self,
        post: Self,
        replica_id: usize,
        v: usize,
        n: usize,
    ) -> bool {
        if pre.status == Status::ViewChange || v != pre.view_number || n > pre.op_number
            || replica_id >= pre.config.n() {
            post == pre
        } else {
            &&& post == (Replica { outbox: post.outbox, ..pre })
            &&& post.sends() == pre.sends().push(
                (
                    replica_id,
                    MessageView::NewState {
                        view_number: v,
                        log: pre.log@.skip(n as int),
                        op_number_start: n,
                        op_number_end: pre.op_number,
                        commit_number: pre.commit_number,
                    },
                ),
            )
        }
    }

    /// `NewState{v, log, start, end, c}` at a replica in Recovery: when the
    /// suffix aligns with the local log it is appended, operations are
    /// applied up to `c`, and the replica returns to `Normal`, telling the
    /// primary how far it now is. A misaligned or malformed reply is
    /// dropped and the replica stays in Recovery.
    pub open spec fn new_state_transition(
        pre: Self,
        post: Self,
        v: usize,
        log: Seq<Op>,
        start: usize,
        end: usize,
        c: usize,
    ) -> bool {
        if pre.status != Status::Recovery || v != pre.view_number || start != pre.op_number
            || end != start + log.len() || c > end {
            post == pre
        } else {
            &&& post.log@ == pre.log@ + log
            &&& post.acks@ == pre.acks@ + Seq::new(log.len(), |i: int| 1usize)
            &&& post.op_number == end
            &&& post.commit_number == if c >= pre.commit_number {
                c as int
            } else {
                pre.commit_number as int
            }
            &&& post.applied() == post.log@.take(post.commit_number as int)
            &&& post.status == Status::Normal
            &&& post == (Replica {
                log: post.log,
                acks: post.acks,
                op_number: post.op_number,
                commit_number: post.commit_number,
                state_machine: post.state_machine,
                status: post.status,
                outbox: post.outbox,
                ..pre
            })
            &&& post.sends() == pre.sends().push(
                (
                    pre.spec_primary_id(),
                    MessageView::PrepareOk { view_number: v, op_number: end },
                ),
            )
        }
    }

    /// `StartViewChange{v, sender}`. A vote for an older view is dropped.
    /// A vote for the view this replica is already changing to is counted;
    /// when a quorum of replicas (this one included) has voted, the
    /// candidate primary of `v` is sent this replica's log in a
    /// `DoViewChange`, once. Any other vote for `v >= view_number` moves
    /// this replica into that view change: it counts the sender and itself,
    /// and broadcasts its own `StartViewChange`.
    pub open spec fn start_view_change_transition(
        pre: Self,
        post: Self,
        v: usize,
        sender: usize,
    ) -> bool {
        let q = pre.spec_quorum();
        if v < pre.view_number {
            post == pre
        } else if v == pre.view_number && pre.status == Status::ViewChange {
            let votes = saturating_incr(pre.start_view_change_votes);
            if votes >= q && !pre.do_view_change_sent {
                &&& post == (Replica {
                    start_view_change_votes: votes,
                    do_view_change_sent: true,
                    outbox: post.outbox,
                    ..pre
                })
                &&& post.sends() == pre.sends().push(
                    (
                        pre.spec_primary_id(),
                        MessageView::DoViewChange {
                            view_number: v,
                            replica_id: pre.self_id,
                            log: pre.log@,
                            commit_number: pre.commit_number,
                        },
                    ),
                )
            } else {
                post == (Replica { start_view_change_votes: votes, ..pre })
            }
        } else {
            // a view at least as new as ours that we are not yet changing
            // to: join that view change and vote too
            &&& post.do_view_change_votes@ == Seq::<LogVote<Op>>::empty()
            &&& post.do_view_change_sent == (2 >= q)
            &&& post == (Replica {
                view_number: v,
                status: Status::ViewChange,
                start_view_change_votes: 2usize,
                do_view_change_sent: post.do_view_change_sent,
                do_view_change_votes: post.do_view_change_votes,
                outbox: post.outbox,
                ..pre
            })
            &&& post.sends() == if 2 >= q {
                (pre.sends() + Self::spec_broadcast(
                    pre.config.n(),
                    pre.self_id,
                    MessageView::StartViewChange { view_number: v, replica_id: pre.self_id },
                )).push(
                    (
                        pre.config.spec_primary_id(v),
                        MessageView::DoViewChange {
                            view_number: v,
                            replica_id: pre.self_id,
                            log: pre.log@,
                            commit_number: pre.commit_number,
                        },
                    ),
                )
            } else {
                pre.sends() + Self::spec_broadcast(
                    pre.config.n(),
                    pre.self_id,
                    MessageView::StartViewChange { view_number: v, replica_id: pre.self_id },
                )
            }
        }
    }

    /// A backup that has waited too long without hearing from its primary
    /// moves to the next view: it becomes the first voter of that view
    /// change and broadcasts `StartViewChange`. (In a cluster where one
    /// replica is its own quorum it completes the vote immediately.)
    pub open spec fn view_change_initiation(pre: Self, post: Self) -> bool {
        let v = (pre.view_number + 1) as usize;
        let q = pre.spec_quorum();
        &&& post.do_view_change_votes@ == Seq::<LogVote<Op>>::empty()
        &&& post.do_view_change_sent == (1 >= q)
        &&& post == (Replica {
            view_number: v,
            status: Status::ViewChange,
            start_view_change_votes: 1usize,
            do_view_change_sent: post.do_view_change_sent,
            do_view_change_votes: post.do_view_change_votes,
            outbox: post.outbox,
            ..pre
        })
        &&& post.sends() == if 1 >= q {
            (pre.sends() + Self::spec_broadcast(
                pre.config.n(),
                pre.self_id,
                MessageView::StartViewChange { view_number: v, replica_id: pre.self_id },
            )).push(
                (
                    pre.config.spec_primary_id(v),
                    MessageView::DoViewChange {
                        view_number: v,
                        replica_id: pre.self_id,
                        log: pre.log@,
                        commit_number: pre.commit_number,
                    },
                ),
            )
        } else {
            pre.sends() + Self::spec_broadcast(
                pre.config.n(),
                pre.self_id,
                MessageView::StartViewChange { view_number: v, replica_id: pre.self_id },
            )
        }
    }

    /// `DoViewChange{v, sender, log, c}` at the candidate primary of view
    /// `v`. Distinct senders' votes are collected; when a quorum of them
    /// (this replica's own vote travels as a message like any other) has
    /// arrived, the candidate adopts the longest log among the votes, takes
    /// the largest commit number known to them, applies what that commits,
    /// and starts the view by broadcasting `StartView`.
    /// The vote set after recording `DoViewChange{_, sender, log, c}`:
    /// unchanged when this sender already voted, otherwise extended.
    pub open spec fn votes_after(
        votes0: Seq<VoteView<Op>>,
        sender: usize,
        log: Seq<Op>,
        c: usize,
    ) -> Seq<VoteView<Op>> {
        if exists|i: int| 0 <= i < votes0.len() && votes0[i].replica_id == sender {
            votes0
        } else {
            votes0.push(VoteView { replica_id: sender, log, commit_number: c })
        }
    }

    pub open spec fn do_view_change_transition(
        pre: Self,
        post: Self,
        v: usize,
        sender: usize,
        log: Seq<Op>,
        c: usize,
    ) -> bool {
        let q = pre.spec_quorum();
        if pre.config.spec_primary_id(v) != pre.self_id || v < pre.view_number
            || (v == pre.view_number && pre.status == Status::Normal) || c > log.len() {
            post == pre
        } else {
            let votes0 = if v == pre.view_number {
                vote_views(pre.do_view_change_votes@)
            } else {
                Seq::<VoteView<Op>>::empty()
            };
            let votes1 = Self::votes_after(votes0, sender, log, c);
            if votes1.len() >= q {
                Self::view_change_completion(pre, post, v, votes1)
            } else {
                Self::vote_recorded(pre, post, v, votes1)
            }
        }
    }

    /// The new primary's election is complete: it adopts the longest log
    /// among `votes`, commits up to the largest commit point any vote
    /// carries, and announces the view with `StartView`.
    pub open spec fn view_change_completion(
        pre: Self,
        post: Self,
        v: usize,
        votes: Seq<VoteView<Op>>,
    ) -> bool {
        let b = best_vote_idx(votes);
        let newlog = adopted_log(pre.log@, pre.commit_number as int, votes[b].log);
        let mc = max_vote_commit(votes);
        let target = if mc >= pre.commit_number {
            mc
        } else {
            pre.commit_number as int
        };
        &&& post.log@ == newlog
        &&& post.op_number == newlog.len()
        &&& post.acks@ == Seq::new(newlog.len(), |i: int| 1usize)
        &&& post.commit_number == target
        &&& post.applied() == newlog.take(target)
        &&& post.do_view_change_votes@ == Seq::<LogVote<Op>>::empty()
        &&& post == (Replica {
            log: post.log,
            acks: post.acks,
            op_number: post.op_number,
            commit_number: post.commit_number,
            state_machine: post.state_machine,
            view_number: v,
            status: Status::Normal,
            start_view_change_votes: 0usize,
            do_view_change_sent: false,
            do_view_change_votes: post.do_view_change_votes,
            outbox: post.outbox,
            ..pre
        })
        &&& post.sends() == pre.sends() + Self::spec_broadcast(
            pre.config.n(),
            pre.self_id,
            MessageView::StartView {
                view_number: v,
                replica_id: pre.self_id,
                log: newlog,
                commit_number: target as usize,
            },
        )
    }

    /// No quorum yet: the vote is recorded (and the later view adopted),
    /// nothing else changes and nothing is sent.
    pub open spec fn vote_recorded(
        pre: Self,
        post: Self,
        v: usize,
        votes: Seq<VoteView<Op>>,
    ) -> bool {
        &&& vote_views(post.do_view_change_votes@) == votes
        &&& post == (Replica {
            view_number: v,
            status: if v == pre.view_number {
                pre.status
            } else {
                Status::ViewChange
            },
            start_view_change_votes: if v == pre.view_number {
                pre.start_view_change_votes
            } else {
                0usize
            },
            do_view_change_sent: if v == pre.view_number {
                pre.do_view_change_sent
            } else {
                false
            },
            do_view_change_votes: post.do_view_change_votes,
            ..pre
        })
    }

    /// `StartView{v, sender, log, c}`: every replica that has not already
    /// started view `v` adopts the new primary's log, applies what it
    /// commits, returns to `Normal` in view `v`, and tells the new primary
    /// how far its log reaches.
    pub open spec fn start_view_transition(
        pre: Self,
        post: Self,
        v: usize,
        sender: usize,
        log: Seq<Op>,
        c: usize,
    ) -> bool {
        if v < pre.view_number || (v == pre.view_number && pre.status == Status::Normal)
            || c > log.len() {
            post == pre
        } else {
            let newlog = adopted_log(pre.log@, pre.commit_number as int, log);
            let target = if c >= pre.commit_number {
                c as int
            } else {
                pre.commit_number as int
            };
            &&& post.log@ == newlog
            &&& post.op_number == newlog.len()
            &&& post.acks@ == Seq::new(newlog.len(), |i: int| 1usize)
            &&& post.commit_number == target
            &&& post.applied() == newlog.take(target)
            &&& post.do_view_change_votes@ == Seq::<LogVote<Op>>::empty()
            &&& post == (Replica {
                log: post.log,
                acks: post.acks,
                op_number: post.op_number,
                commit_number: post.commit_number,
                state_machine: post.state_machine,
                view_number: v,
                status: Status::Normal,
                start_view_change_votes: 0usize,
                do_view_change_sent: false,
                do_view_change_votes: post.do_view_change_votes,
                outbox: post.outbox,
                ..pre
            })
            &&& post.sends() == pre.sends().push(
                (
                    pre.config.spec_primary_id(v),
                    MessageView::PrepareOk { view_number: v, op_number: newlog.len() as usize },
                ),
            )
        }
    }

    /// One idle tick. The primary of the view gossips its commit number so
    /// the backups keep committing when no requests arrive; a backup counts
    /// the silence and starts a view change once it exceeds the threshold.
    /// The counter keeps its incremented value either way: only an inbound
    /// `Prepare` or `Commit` resets it.
    pub open spec fn idle_transition(pre: Self, post: Self) -> bool {
        if pre.spec_is_primary() {
            if pre.status == Status::Normal {
                &&& post == (Replica { outbox: post.outbox, ..pre })
                &&& post.sends() == pre.sends() + Self::spec_broadcast(
                    pre.config.n(),
                    pre.self_id,
                    MessageView::Commit {
                        view_number: pre.view_number,
                        commit_number: pre.commit_number,
                    },
                )
            } else {
                post == pre
            }
        } else {
            let ticks = saturating_incr(pre.backup_idle_ticks);
            if ticks > BACKUP_IDLE_TICKS_MAX && pre.view_number < usize::MAX {
                Self::view_change_initiation(Replica { backup_idle_ticks: ticks, ..pre }, post)
            } else {
                post == (Replica { backup_idle_ticks: ticks, ..pre })
            }
        }
    }

    /// What one protocol message does to this replica: the dispatch over
    /// the per-message transition relations above.
    pub open spec fn message_transition(pre: Self, post: Self, m: MessageView<Op>) -> bool {
        match m {
            MessageView::Request { client_id, request_number, op } => Self::request_transition(
                pre,
                post,
                op,
            ),
            MessageView::Prepare { view_number, op_number, op, commit_number } => {
                Self::prepare_transition(pre, post, view_number, op_number, op, commit_number)
            },
            MessageView::PrepareOk { view_number, op_number } => Self::prepare_ok_transition(
                pre,
                post,
                view_number,
                op_number,
            ),
            MessageView::Commit { view_number, commit_number } => Self::commit_transition(
                pre,
                post,
                view_number,
                commit_number,
            ),
            MessageView::GetState { replica_id, view_number, op_number } => {
                Self::get_state_transition(pre, post, replica_id, view_number, op_number)
            },
            MessageView::NewState {
                view_number,
                log,
                op_number_start,
                op_number_end,
                commit_number,
            } => Self::new_state_transition(
                pre,
                post,
                view_number,
                log,
                op_number_start,
                op_number_end,
                commit_number,
            ),
            MessageView::StartViewChange { view_number, replica_id } => {
                Self::start_view_change_transition(pre, post, view_number, replica_id)
            },
            MessageView::DoViewChange { view_number, replica_id, log, commit_number } => {
                Self::do_view_change_transition(
                    pre,
                    post,
                    view_number,
                    replica_id,
                    log,
                    commit_number,
                )
            },
            MessageView::StartView { view_number, replica_id, log, commit_number } => {
                Self::start_view_transition(pre, post, view_number, replica_id, log, commit_number)
            },
        }
    }

    // --- handlers --------------------------------------------------------
    //
    // `on_message` is the entry point; the per-message handlers below are
    // public so that their contracts can be referred to and exercised
    // directly, one protocol event at a time.

    /// The main entry point to replica logic: handles one inbound protocol
    /// message. The view number never decreases, and operations already
    /// applied to the state machine are never taken back or reordered.
    pub fn on_message(&mut self, message: Message<Op>)
        requires
            old(self).wf(),
        ensures
            final(self).wf(),
            old(self).view_number <= final(self).view_number,
            old(self).applied().is_prefix_of(final(self).applied()),
            Self::message_transition(*old(self), *final(self), message@),
    {
        match message {
            Message::Request { client_id: _, request_number: _, op } => {
                self.on_request(op);
            },
            Message::Prepare { view_number, op_number, op, commit_number } => {
                self.on_prepare(view_number, op_number, op, commit_number);
            },
            Message::PrepareOk { view_number, op_number } => {
                self.on_prepare_ok(view_number, op_number);
            },
            Message::Commit { view_number, commit_number } => {
                self.on_commit(view_number, commit_number);
            },
            Message::GetState { replica_id, view_number, op_number } => {
                self.on_get_state(replica_id, view_number, op_number);
            },
            Message::NewState {
                view_number,
                log,
                op_number_start,
                op_number_end,
                commit_number,
            } => {
                self.on_new_state(
                    view_number,
                    log,
                    op_number_start,
                    op_number_end,
                    commit_number,
                );
            },
            Message::StartViewChange { view_number, replica_id } => {
                self.on_start_view_change(view_number, replica_id);
            },
            Message::DoViewChange { view_number, replica_id, log, commit_number } => {
                self.on_do_view_change(view_number, replica_id, log, commit_number);
            },
            Message::StartView { view_number, replica_id, log, commit_number } => {
                self.on_start_view(view_number, replica_id, log, commit_number);
            },
        }
    }

    /// Moves this replica to the next view and starts collecting
    /// `StartViewChange` votes for it, its own included.
    fn view_change(&mut self)
        requires
            old(self).wf(),
            old(self).view_number < usize::MAX,
        ensures
            final(self).wf(),
            old(self).view_number <= final(self).view_number,
            old(self).applied().is_prefix_of(final(self).applied()),
            Self::view_change_initiation(*old(self), *final(self)),
    {
        let v = self.view_number + 1;
        self.view_number = v;
        self.status = Status::ViewChange;
        self.start_view_change_votes = 1;
        self.do_view_change_sent = false;
        self.do_view_change_votes = Vec::new();
        self.broadcast_start_view_change(v);
        let q = self.config.quorum();
        if 1 >= q {
            self.do_view_change_sent = true;
            let log = Self::copy_ops(&self.log);
            let message = Message::DoViewChange {
                view_number: v,
                replica_id: self.self_id,
                log,
                commit_number: self.commit_number,
            };
            self.send_msg_to_primary(message);
        }
    }

    /// Enters Recovery and asks the primary for the log suffix past what
    /// this replica holds.
    fn state_transfer(&mut self)
        requires
            old(self).wf(),
        ensures
            final(self).wf(),
            old(self).view_number <= final(self).view_number,
            old(self).applied().is_prefix_of(final(self).applied()),
            *final(self) == (Replica {
                status: final(self).status,
                outbox: final(self).outbox,
                ..*old(self)
            }),
            final(self).status == Status::Recovery,
            final(self).sends() == old(self).sends().push(
                (
                    old(self).spec_primary_id(),
                    MessageView::GetState {
                        replica_id: old(self).self_id,
                        view_number: old(self).view_number,
                        op_number: old(self).op_number,
                    },
                ),
            ),
    {
        self.status = Status::Recovery;
        let message = Message::GetState {
            replica_id: self.self_id,
            view_number: self.view_number,
            op_number: self.op_number,
        };
        self.send_msg_to_primary(message);
    }

    /// The client sends a `Request` message to the primary, which replicates
    /// the operation to the other replicas.
    pub fn on_request(&mut self, op: Op)
        requires
            old(self).wf(),
        ensures
            final(self).wf(),
            old(self).view_number <= final(self).view_number,
            old(self).applied().is_prefix_of(final(self).applied()),
            Self::request_transition(*old(self), *final(self), op),
    {
        if !(self.is_primary() && self.status == Status::Normal) {
            // not this replica's to accept: the client will retry elsewhere
            return ;
        }
        self.append_to_log(op);
        let op_number = self.op_number;
        let view_number = self.view_number;
        let commit_number = self.commit_number;
        self.broadcast_prepare(view_number, op_number, op, commit_number);
    }

    /// The primary sends `Prepare` to replicate an operation to the backups;
    /// a backup acknowledges with `PrepareOk` once the operation is in its
    /// log. The message also carries the primary's commit number, so the
    /// backup can commit up to that point.
    pub fn on_prepare(&mut self, view_number: usize, op_number: usize, op: Op, commit_number: usize)
        requires
            old(self).wf(),
        ensures
            final(self).wf(),
            old(self).view_number <= final(self).view_number,
            old(self).applied().is_prefix_of(final(self).applied()),
            Self::prepare_transition(
                *old(self),
                *final(self),
                view_number,
                op_number,
                op,
                commit_number,
            ),
    {
        self.backup_idle_ticks = 0;
        if !(self.status == Status::Normal && view_number == self.view_number
            && !self.is_primary()) {
            // wrong view, wrong status, or not a backup: view change or
            // state transfer will reconcile later
            return ;
        }
        if op_number <= self.op_number {
            // duplicate: still acknowledge, the first PrepareOk may be lost
            let message = Message::PrepareOk { view_number, op_number };
            self.send_msg_to_primary(message);
            return ;
        }
        if op_number > self.op_number + 1 {
            // a gap: this replica fell behind the log
            self.state_transfer();
            return ;
        }
        self.append_to_log(op);
        let target = if commit_number <= op_number { commit_number } else { op_number };
        self.advance_commit_to(target);
        let message = Message::PrepareOk { view_number, op_number };
        self.send_msg_to_primary(message);
        if commit_number > op_number {
            // the primary has committed operations we have yet to receive
            self.state_transfer();
        }
    }

    /// Backups send `PrepareOk` to the primary to acknowledge that an
    /// operation is in their log; once a quorum of replicas holds an
    /// operation, the primary commits it and answers the client.
    pub fn on_prepare_ok(&mut self, view_number: usize, op_number: usize)
        requires
            old(self).wf(),
        ensures
            final(self).wf(),
            old(self).view_number <= final(self).view_number,
            old(self).applied().is_prefix_of(final(self).applied()),
            Self::prepare_ok_transition(*old(self), *final(self), view_number, op_number),
    {
        if !(self.is_primary() && self.status == Status::Normal
            && view_number == self.view_number) {
            return ;
        }
        if op_number > self.op_number || op_number <= self.commit_number {
            // unknown position, or already committed: drop
            return ;
        }
        // Register the acknowledgment for this position.
        let a = self.acks[op_number - 1];
        if a < usize::MAX {
            self.acks[op_number - 1] = a + 1;
        }
        proof {
            assert(self.acks@ =~= old(self).acks@.update(
                op_number - 1,
                saturating_incr(old(self).acks@[op_number - 1]),
            ));
        }
        self.commit_ready_ops();
    }

    /// A backup commits its log as part of `Prepare` handling; when there
    /// are no client requests, the primary instead gossips its commit number
    /// through `Commit` messages so the backups still advance.
    pub fn on_commit(&mut self, view_number: usize, commit_number: usize)
        requires
            old(self).wf(),
        ensures
            final(self).wf(),
            old(self).view_number <= final(self).view_number,
            old(self).applied().is_prefix_of(final(self).applied()),
            Self::commit_transition(*old(self), *final(self), view_number, commit_number),
    {
        self.backup_idle_ticks = 0;
        if !(self.status == Status::Normal && view_number == self.view_number
            && !self.is_primary()) {
            return ;
        }
        if commit_number > self.op_number {
            // the primary is ahead of our whole log
            self.state_transfer();
            return ;
        }
        self.advance_commit_to(commit_number);
    }

    /// A replica sends `GetState` to a peer to catch up on its log; the
    /// peer answers with the suffix it is missing.
    pub fn on_get_state(&mut self, replica_id: usize, view_number: usize, op_number: usize)
        requires
            old(self).wf(),
        ensures
            final(self).wf(),
            old(self).view_number <= final(self).view_number,
            old(self).applied().is_prefix_of(final(self).applied()),
            Self::get_state_transition(*old(self), *final(self), replica_id, view_number, op_number),
    {
        let status_ok = match self.status {
            Status::ViewChange => false,
            _ => true,
        };
        if !(status_ok && view_number == self.view_number && op_number <= self.op_number
            && replica_id < self.config.replicas.len()) {
            return ;
        }
        let log = Self::copy_suffix(&self.log, op_number);
        let message = Message::NewState {
            view_number: self.view_number,
            log,
            op_number_start: op_number,
            op_number_end: self.op_number,
            commit_number: self.commit_number,
        };
        self.send_msg(replica_id, message);
    }

    /// A replica in Recovery receives `NewState` in response to the
    /// `GetState` it sent, repairs its log, and rejoins the protocol.
    pub fn on_new_state(
        &mut self,
        view_number: usize,
        log: Vec<Op>,
        op_number_start: usize,
        op_number_end: usize,
        commit_number: usize,
    )
        requires
            old(self).wf(),
        ensures
            final(self).wf(),
            old(self).view_number <= final(self).view_number,
            old(self).applied().is_prefix_of(final(self).applied()),
            Self::new_state_transition(
                *old(self),
                *final(self),
                view_number,
                log@,
                op_number_start,
                op_number_end,
                commit_number,
            ),
    {
        if !(self.status == Status::Recovery && view_number == self.view_number
            && op_number_start == self.op_number) {
            return ;
        }
        if !(op_number_end >= op_number_start && op_number_end - op_number_start == log.len()
            && commit_number <= op_number_end) {
            return ;
        }
        Self::push_range(&mut self.log, &log, 0, log.len());
        let ghost mid = *self;
        let mut k: usize = 0;
        while k < log.len()
            invariant
                k <= log@.len(),
                self.acks@ == old(self).acks@ + Seq::new(k as nat, |i: int| 1usize),
                *self == (Replica { acks: self.acks, ..mid }),
            decreases log.len() - k,
        {
            self.acks.push(1);
            proof {
                assert(self.acks@ =~= old(self).acks@ + Seq::new((k + 1) as nat, |i: int| 1usize));
            }
            k = k + 1;
        }
        self.op_number = self.log.len();
        proof {
            assert(log@.subrange(0, log@.len() as int) =~= log@);
            assert(self.log@.take(self.commit_number as int) =~= old(self).log@.take(
                self.commit_number as int,
            ));
        }
        let target = if commit_number >= self.commit_number {
            commit_number
        } else {
            self.commit_number
        };
        self.advance_commit_to(target);
        self.status = Status::Normal;
        let message = Message::PrepareOk { view_number, op_number: op_number_end };
        self.send_msg_to_primary(message);
    }

    /// A replica that suspects the primary broadcasts `StartViewChange`;
    /// here the votes are collected, and a quorum turns into a
    /// `DoViewChange` sent to the candidate primary of the new view.
    pub fn on_start_view_change(&mut self, view_number: usize, replica_id: usize)
        requires
            old(self).wf(),
        ensures
            final(self).wf(),
            old(self).view_number <= final(self).view_number,
            old(self).applied().is_prefix_of(final(self).applied()),
            Self::start_view_change_transition(*old(self), *final(self), view_number, replica_id),
    {
        if view_number < self.view_number {
            return ;
        }
        let q = self.config.quorum();
        if view_number == self.view_number && self.status == Status::ViewChange {
            let votes = if self.start_view_change_votes < usize::MAX {
                self.start_view_change_votes + 1
            } else {
                self.start_view_change_votes
            };
            self.start_view_change_votes = votes;
            if votes >= q && !self.do_view_change_sent {
                self.do_view_change_sent = true;
                let log = Self::copy_ops(&self.log);
                let message = Message::DoViewChange {
                    view_number,
                    replica_id: self.self_id,
                    log,
                    commit_number: self.commit_number,
                };
                self.send_msg_to_primary(message);
            }
        } else {
            // a view at least as new as ours: join its view change and
            // vote as well
            self.view_number = view_number;
            self.status = Status::ViewChange;
            self.start_view_change_votes = 2;
            self.do_view_change_sent = false;
            self.do_view_change_votes = Vec::new();
            self.broadcast_start_view_change(view_number);
            if 2 >= q {
                self.do_view_change_sent = true;
                let log = Self::copy_ops(&self.log);
                let message = Message::DoViewChange {
                    view_number,
                    replica_id: self.self_id,
                    log,
                    commit_number: self.commit_number,
                };
                self.send_msg_to_primary(message);
            }
        }
    }

    /// Completes an election: adopts the longest log among the collected
    /// votes, commits up to the largest commit point any vote carries, and
    /// broadcasts `StartView`.
    #[verifier::spinoff_prover]
    fn complete_view_change(&mut self, view_number: usize)
        requires
            old(self).wf(),
            old(self).view_number == view_number,
            old(self).do_view_change_votes@.len() > 0,
        ensures
            final(self).wf(),
            old(self).view_number <= final(self).view_number,
            old(self).applied().is_prefix_of(final(self).applied()),
            Self::view_change_completion(
                *old(self),
                *final(self),
                view_number,
                vote_views(old(self).do_view_change_votes@),
            ),
    {
        let ghost votes1 = vote_views(self.do_view_change_votes@);
        // find the longest log among the votes and the largest commit
        // number any of them carries
        let mut best: usize = 0;
        let mut mc: usize = self.do_view_change_votes[0].commit_number;
        proof {
            assert(votes1.take(1).drop_last() =~= Seq::<VoteView<Op>>::empty());
            assert(max_vote_commit(Seq::<VoteView<Op>>::empty()) == 0);
        }
        let mut k: usize = 1;
        while k < self.do_view_change_votes.len()
            invariant
                1 <= k <= votes1.len(),
                votes1 == vote_views(self.do_view_change_votes@),
                *self == *old(self),
                best < k,
                best == best_vote_idx(votes1.take(k as int)),
                mc == max_vote_commit(votes1.take(k as int)),
            decreases votes1.len() - k,
        {
            proof {
                assert(votes1.take(k + 1).drop_last() =~= votes1.take(k as int));
                assert(votes1.take(k + 1).last() == votes1[k as int]);
            }
            if self.do_view_change_votes[k].log.len() > self.do_view_change_votes[best].log.len() {
                best = k;
            }
            if self.do_view_change_votes[k].commit_number > mc {
                mc = self.do_view_change_votes[k].commit_number;
            }
            k = k + 1;
        }
        proof {
            assert(votes1.take(votes1.len() as int) =~= votes1);
            lemma_best_vote(votes1);
            // every vote's commit point lies within its own log, so the
            // largest commit any vote carries lies within the longest log
            assert forall|i: int| 0 <= i < votes1.len() implies (#[trigger] votes1[i]).commit_number
                <= votes1[i].log.len() by {
                assert(votes1[i] == self.do_view_change_votes@[i]@);
            }
            assert(max_vote_commit(votes1) <= votes1[best_vote_idx(votes1)].log.len());
            assert(votes1[best as int].log == self.do_view_change_votes@[best as int]@.log);
        }
        let newlog = Self::adopt_log(
            &self.log,
            self.commit_number,
            &self.do_view_change_votes[best].log,
        );
        let acks = Self::ones(newlog.len());
        self.log = newlog;
        self.acks = acks;
        self.op_number = self.log.len();
        proof {
            assert(self.acks@ =~= Seq::new(self.log@.len(), |i: int| 1usize));
            assert(self.log@.take(self.commit_number as int) =~= old(self).log@.take(
                self.commit_number as int,
            ));
        }
        let target = if mc >= self.commit_number {
            mc
        } else {
            self.commit_number
        };
        self.advance_commit_to(target);
        self.status = Status::Normal;
        self.start_view_change_votes = 0;
        self.do_view_change_sent = false;
        self.do_view_change_votes = Vec::new();
        let commit_number_now = self.commit_number;
        self.broadcast_start_view(view_number, commit_number_now);
    }

    /// The candidate primary of the new view collects one `DoViewChange`
    /// per replica; a quorum of them elects it, and it reconciles the logs
    /// and starts the view.
    #[verifier::rlimit(100)]
    #[verifier::spinoff_prover]
    pub fn on_do_view_change(
        &mut self,
        view_number: usize,
        replica_id: usize,
        log: Vec<Op>,
        commit_number: usize,
    )
        requires
            old(self).wf(),
        ensures
            final(self).wf(),
            old(self).view_number <= final(self).view_number,
            old(self).applied().is_prefix_of(final(self).applied()),
            Self::do_view_change_transition(
                *old(self),
                *final(self),
                view_number,
                replica_id,
                log@,
                commit_number,
            ),
    {
        if self.config.primary_id(view_number) != self.self_id {
            return ;
        }
        if view_number < self.view_number
            || (view_number == self.view_number && self.status == Status::Normal)
            || commit_number > log.len() {
            return ;
        }
        if view_number > self.view_number {
            self.view_number = view_number;
            self.status = Status::ViewChange;
            self.start_view_change_votes = 0;
            self.do_view_change_sent = false;
            self.do_view_change_votes = Vec::new();
        }
        let ghost pre2 = *self;
        // record the vote, unless this sender already voted
        let mut dup = false;
        let mut i: usize = 0;
        while i < self.do_view_change_votes.len()
            invariant
                i <= self.do_view_change_votes@.len(),
                *self == pre2,
                dup == exists|k: int|
                    0 <= k < i && self.do_view_change_votes@[k].replica_id == replica_id,
            decreases self.do_view_change_votes@.len() - i,
        {
            if self.do_view_change_votes[i].replica_id == replica_id {
                dup = true;
            }
            i = i + 1;
        }
        let ghost logv = log@;
        if !dup {
            self.do_view_change_votes.push(LogVote { replica_id, log, commit_number });
            proof {
                assert(vote_views(self.do_view_change_votes@) =~= vote_views(
                    pre2.do_view_change_votes@,
                ).push(VoteView { replica_id, log: logv, commit_number }));
            }
        }
        let ghost votes1 = vote_views(self.do_view_change_votes@);
        proof {
            // the recorded votes are exactly what the transition relation
            // reconstructs from the message
            let pre = *old(self);
            let votes0_s = if view_number == pre.view_number {
                vote_views(pre.do_view_change_votes@)
            } else {
                Seq::<VoteView<Op>>::empty()
            };
            let dup_s = exists|i: int|
                0 <= i < votes0_s.len() && votes0_s[i].replica_id == replica_id;
            assert(votes0_s =~= vote_views(pre2.do_view_change_votes@));
            if dup {
                let k = choose|k: int|
                    0 <= k < pre2.do_view_change_votes@.len()
                        && pre2.do_view_change_votes@[k].replica_id == replica_id;
                assert(votes0_s[k].replica_id == replica_id);
            }
            if dup_s {
                let i = choose|i: int|
                    0 <= i < votes0_s.len() && votes0_s[i].replica_id == replica_id;
                assert(pre2.do_view_change_votes@[i].replica_id == replica_id);
            }
            assert(dup == dup_s);
            assert(votes1 == Self::votes_after(votes0_s, replica_id, logv, commit_number));
        }
        let q = self.config.quorum();
        if self.do_view_change_votes.len() >= q {
            self.complete_view_change(view_number);
            proof {
                assert(Self::view_change_completion(*old(self), *self, view_number, votes1));
            }
        } else {
            proof {
                assert(Self::vote_recorded(*old(self), *self, view_number, votes1));
            }
        }
    }

    /// The new primary announces its view with `StartView`; every other
    /// replica adopts the log it carries and rejoins the protocol in the
    /// new view.
    pub fn on_start_view(
        &mut self,
        view_number: usize,
        replica_id: usize,
        log: Vec<Op>,
        commit_number: usize,
    )
        requires
            old(self).wf(),
        ensures
            final(self).wf(),
            old(self).view_number <= final(self).view_number,
            old(self).applied().is_prefix_of(final(self).applied()),
            Self::start_view_transition(
                *old(self),
                *final(self),
                view_number,
                replica_id,
                log@,
                commit_number,
            ),
    {
        if view_number < self.view_number
            || (view_number == self.view_number && self.status == Status::Normal)
            || commit_number > log.len() {
            return ;
        }
        let newlog = Self::adopt_log(&self.log, self.commit_number, &log);
        let acks = Self::ones(newlog.len());
        self.log = newlog;
        self.acks = acks;
        self.op_number = self.log.len();
        proof {
            assert(self.log@.take(self.commit_number as int) =~= old(self).log@.take(
                self.commit_number as int,
            ));
        }
        self.view_number = view_number;
        self.start_view_change_votes = 0;
        self.do_view_change_sent = false;
        self.do_view_change_votes = Vec::new();
        let target = if commit_number >= self.commit_number {
            commit_number
        } else {
            self.commit_number
        };
        self.advance_commit_to(target);
        self.status = Status::Normal;
        let message = Message::PrepareOk { view_number, op_number: self.op_number };
        self.send_msg_to_primary(message);
    }

    /// When there are no client requests, the primary uses the idle tick to
    /// gossip its commit number; a backup uses it to detect a silent
    /// primary.
    pub fn on_idle(&mut self)
        requires
            old(self).wf(),
        ensures
            final(self).wf(),
            old(self).view_number <= final(self).view_number,
            old(self).applied().is_prefix_of(final(self).applied()),
            Self::idle_transition(*old(self), *final(self)),
    {
        if self.is_primary() {
            if self.status == Status::Normal {
                let view_number = self.view_number;
                let commit_number = self.commit_number;
                self.broadcast_commit(view_number, commit_number);
            }
        } else {
            let ticks = if self.backup_idle_ticks < usize::MAX {
                self.backup_idle_ticks + 1
            } else {
                self.backup_idle_ticks
            };
            self.backup_idle_ticks = ticks;
            if ticks > BACKUP_IDLE_TICKS_MAX && self.view_number < usize::MAX {
                self.view_change();
            }
        }
    }

    pub fn new(self_id: usize, config: Config, state_machine: SM) -> (r: Replica<Op, SM>)
        requires
            config.wf(),
            config.n() > 0,
            self_id < config.n(),
            state_machine.history() == Seq::<Op>::empty(),
        ensures
            r.wf(),
            r.config == config,
            r.self_id == self_id,
            r.status == Status::Normal,
            r.view_number == 0,
            r.op_number == 0,
            r.commit_number == 0,
            r.backup_idle_ticks == 0,
            r.applied() == Seq::<Op>::empty(),
            r.log@ == Seq::<Op>::empty(),
            r.acks@ == Seq::<usize>::empty(),
            r.start_view_change_votes == 0,
            !r.do_view_change_sent,
            r.do_view_change_votes@ == Seq::<LogVote<Op>>::empty(),
            r.sends() == Seq::<(usize, MessageView<Op>)>::empty(),
            r.responses@ == Seq::<SM::Output>::empty(),
    {
        let r = Replica {
            config,
            self_id,
            state_machine,
            status: Status::Normal,
            backup_idle_ticks: 0,
            view_number: 0,
            commit_number: 0,
            op_number: 0,
            log: Vec::new(),
            acks: Vec::new(),
            start_view_change_votes: 0,
            do_view_change_sent: false,
            do_view_change_votes: Vec::new(),
            outbox: Vec::new(),
            responses: Vec::new(),
        };
        proof {
            assert(r.log@.take(0) =~= Seq::<Op>::empty());
            assert(r.sends() =~= Seq::<(usize, MessageView<Op>)>::empty());
        }
        r
    }

    /// Whether this replica is the primary of its current view.
    pub fn is_primary(&self) -> (r: bool)
        requires
            self.wf(),
        ensures
            r == self.spec_is_primary(),
    {
        self.self_id == self.primary_id()
    }

    /// The primary of the current view.
    pub fn primary_id(&self) -> (r: usize)
        requires
            self.wf(),
        ensures
            r == self.spec_primary_id(),
    {
        self.config.primary_id(self.view_number)
    }

    /// Hands the host every outbound message recorded so far and empties the
    /// outbox.
    pub fn take_outbox(&mut self) -> (msgs: Vec<(usize, Message<Op>)>)
        ensures
            views_of(msgs@) == old(self).sends(),
            *final(self) == (Replica { outbox: final(self).outbox, ..*old(self) }),
            final(self).sends() == Seq::<(usize, MessageView<Op>)>::empty(),
    {
        let mut msgs: Vec<(usize, Message<Op>)> = Vec::new();
        core::mem::swap(&mut msgs, &mut self.outbox);
        proof {
            assert(self.sends() =~= Seq::<(usize, MessageView<Op>)>::empty());
        }
        msgs
    }

    /// Hands the host every client reply recorded so far, in commit order,
    /// and empties the queue.
    pub fn take_responses(&mut self) -> (rs: Vec<SM::Output>)
        ensures
            rs@ == old(self).responses@,
            *final(self) == (Replica { responses: final(self).responses, ..*old(self) }),
            final(self).responses@ == Seq::<SM::Output>::empty(),
    {
        let mut rs: Vec<SM::Output> = Vec::new();
        core::mem::swap(&mut rs, &mut self.responses);
        rs
    }

    // --- log plumbing ----------------------------------------------------

    /// Appends `v[from .. to]` to `dst` (operations are plain values).
    #[verifier::loop_isolation(false)]
    fn push_range(dst: &mut Vec<Op>, v: &Vec<Op>, from: usize, to: usize)
        requires
            from <= to <= v@.len(),
        ensures
            final(dst)@ == old(dst)@ + v@.subrange(from as int, to as int),
    {
        let mut i: usize = from;
        proof {
            assert(dst@ =~= old(dst)@ + v@.subrange(from as int, from as int));
        }
        while i < to
            invariant
                from <= i <= to,
                dst@ == old(dst)@ + v@.subrange(from as int, i as int),
            decreases to - i,
        {
            dst.push(v[i]);
            proof {
                assert(dst@ =~= old(dst)@ + v@.subrange(from as int, i + 1));
            }
            i = i + 1;
        }
    }

    /// A copy of `v[from ..]`.
    fn copy_suffix(v: &Vec<Op>, from: usize) -> (r: Vec<Op>)
        requires
            from <= v@.len(),
        ensures
            r@ == v@.skip(from as int),
    {
        let mut r: Vec<Op> = Vec::new();
        Self::push_range(&mut r, v, from, v.len());
        proof {
            assert(r@ =~= v@.skip(from as int));
        }
        r
    }

    /// A copy of the whole of `v`.
    fn copy_ops(v: &Vec<Op>) -> (r: Vec<Op>)
        ensures
            r@ == v@,
    {
        let r = Self::copy_suffix(v, 0);
        proof {
            assert(v@.skip(0) =~= v@);
        }
        r
    }

    /// Builds the log adopted from a peer's `incoming` log: this replica's
    /// applied prefix followed by the rest of `incoming`.
    fn adopt_log(mine: &Vec<Op>, committed: usize, incoming: &Vec<Op>) -> (r: Vec<Op>)
        requires
            committed <= mine@.len(),
        ensures
            r@ == adopted_log(mine@, committed as int, incoming@),
    {
        let mut r: Vec<Op> = Vec::new();
        Self::push_range(&mut r, mine, 0, committed);
        proof {
            assert(r@ =~= mine@.take(committed as int));
        }
        if incoming.len() > committed {
            Self::push_range(&mut r, incoming, committed, incoming.len());
            proof {
                assert(r@ =~= mine@.take(committed as int) + incoming@.skip(committed as int));
            }
        }
        r
    }

    /// A fresh ack column: one self-vote per log position.
    #[verifier::loop_isolation(false)]
    fn ones(len: usize) -> (r: Vec<usize>)
        ensures
            r@ == Seq::new(len as nat, |i: int| 1usize),
    {
        let mut r: Vec<usize> = Vec::new();
        let mut k: usize = 0;
        while k < len
            invariant
                k <= len,
                r@ == Seq::new(k as nat, |i: int| 1usize),
            decreases len - k,
        {
            r.push(1);
            proof {
                assert(r@ =~= Seq::new((k + 1) as nat, |i: int| 1usize));
            }
            k = k + 1;
        }
        r
    }

    /// Appends one operation to the log, with this replica's own ack, and
    /// keeps `op_number` equal to the log length.
    pub fn append_to_log(&mut self, op: Op)
        requires
            old(self).wf(),
        ensures
            final(self).wf(),
            old(self).view_number <= final(self).view_number,
            old(self).applied().is_prefix_of(final(self).applied()),
            *final(self) == (Replica {
                log: final(self).log,
                acks: final(self).acks,
                op_number: final(self).op_number,
                ..*old(self)
            }),
            final(self).log@ == old(self).log@.push(op),
            final(self).acks@ == old(self).acks@.push(1usize),
            final(self).op_number == old(self).op_number + 1,
    {
        self.log.push(op);
        self.acks.push(1);
        self.op_number = self.log.len();
        proof {
            assert(self.log@.take(self.commit_number as int) =~= old(self).log@.take(
                self.commit_number as int,
            ));
        }
    }

    /// Applies the log to the state machine up to position `target`, in
    /// order, without recording client replies (the backup path).
    #[verifier::loop_isolation(false)]
    fn advance_commit_to(&mut self, target: usize)
        requires
            old(self).wf(),
            target <= old(self).op_number,
        ensures
            final(self).wf(),
            old(self).view_number <= final(self).view_number,
            old(self).applied().is_prefix_of(final(self).applied()),
            *final(self) == (Replica {
                commit_number: final(self).commit_number,
                state_machine: final(self).state_machine,
                ..*old(self)
            }),
            final(self).commit_number == if target >= old(self).commit_number {
                target
            } else {
                old(self).commit_number
            },
    {
        while self.commit_number < target
            invariant
                self.wf(),
                old(self).commit_number <= self.commit_number,
                self.commit_number <= target || self.commit_number == old(self).commit_number,
                *self == (Replica {
                    commit_number: self.commit_number,
                    state_machine: self.state_machine,
                    ..*old(self)
                }),
            decreases target - self.commit_number,
        {
            let op = self.log[self.commit_number];
            let _ = self.state_machine.apply(op);
            self.commit_number = self.commit_number + 1;
            proof {
                assert(self.log@.take(self.commit_number as int) =~= self.log@.take(
                    self.commit_number - 1,
                ).push(self.log@[self.commit_number - 1]));
            }
        }
    }

    /// On the primary: applies every contiguous operation from the commit
    /// point on that a quorum is known to hold, recording one client reply
    /// per operation applied.
    #[verifier::loop_isolation(false)]
    fn commit_ready_ops(&mut self)
        requires
            old(self).wf(),
        ensures
            final(self).wf(),
            old(self).view_number <= final(self).view_number,
            old(self).applied().is_prefix_of(final(self).applied()),
            *final(self) == (Replica {
                commit_number: final(self).commit_number,
                state_machine: final(self).state_machine,
                responses: final(self).responses,
                ..*old(self)
            }),
            old(self).commit_number <= final(self).commit_number,
            forall|j: int|
                old(self).commit_number <= j < final(self).commit_number
                    ==> old(self).acks@[j] >= old(self).spec_quorum(),
            final(self).commit_number == final(self).op_number
                || final(self).acks@[final(self).commit_number as int] < final(self).spec_quorum(),
            final(self).responses@ == old(self).responses@ + Self::replies_for(
                old(self).log@,
                old(self).commit_number as int,
                final(self).commit_number as int,
            ),
    {
        let q = self.config.quorum();
        proof {
            assert(self.responses@ =~= old(self).responses@ + Self::replies_for(
                old(self).log@,
                old(self).commit_number as int,
                old(self).commit_number as int,
            ));
        }
        while self.commit_number < self.op_number && self.acks[self.commit_number] >= q
            invariant
                self.wf(),
                old(self).commit_number <= self.commit_number,
                forall|j: int|
                    old(self).commit_number <= j < self.commit_number ==> old(self).acks@[j]
                        >= old(self).spec_quorum(),
                self.responses@ == old(self).responses@ + Self::replies_for(
                    old(self).log@,
                    old(self).commit_number as int,
                    self.commit_number as int,
                ),
                *self == (Replica {
                    commit_number: self.commit_number,
                    state_machine: self.state_machine,
                    responses: self.responses,
                    ..*old(self)
                }),
            decreases self.op_number - self.commit_number,
        {
            let op = self.log[self.commit_number];
            let out = self.state_machine.apply(op);
            self.responses.push(out);
            self.commit_number = self.commit_number + 1;
            proof {
                assert(self.log@.take(self.commit_number as int) =~= self.log@.take(
                    self.commit_number - 1,
                ).push(self.log@[self.commit_number - 1]));
                assert(self.responses@ =~= old(self).responses@ + Self::replies_for(
                    old(self).log@,
                    old(self).commit_number as int,
                    self.commit_number as int,
                ));
            }
        }
    }

    // --- outbox plumbing -------------------------------------------------

    /// Records one outbound message.
    fn send_msg(&mut self, dest: usize, message: Message<Op>)
        ensures
            *final(self) == (Replica { outbox: final(self).outbox, ..*old(self) }),
            final(self).sends() == old(self).sends().push((dest, message@)),
    {
        let ghost m = message@;
        self.outbox.push((dest, message));
        proof {
            assert(self.sends() =~= old(self).sends().push((dest, m)));
        }
    }

    /// Records one outbound message addressed to the primary of the current
    /// view.
    fn send_msg_to_primary(&mut self, message: Message<Op>)
        requires
            old(self).wf(),
        ensures
            *final(self) == (Replica { outbox: final(self).outbox, ..*old(self) }),
            final(self).sends() == old(self).sends().push(
                (old(self).spec_primary_id(), message@),
            ),
    {
        let primary_id = self.primary_id();
        self.send_msg(primary_id, message);
    }

    /// Broadcasts a `Prepare` to every other replica.
    #[verifier::loop_isolation(false)]
    fn broadcast_prepare(
        &mut self,
        view_number: usize,
        op_number: usize,
        op: Op,
        commit_number: usize,
    )
        requires
            old(self).wf(),
        ensures
            *final(self) == (Replica { outbox: final(self).outbox, ..*old(self) }),
            final(self).sends() == old(self).sends() + Self::spec_broadcast(
                old(self).config.n(),
                old(self).self_id,
                MessageView::Prepare { view_number, op_number, op, commit_number },
            ),
    {
        let ghost m = MessageView::<Op>::Prepare { view_number, op_number, op, commit_number };
        let ghost bcast = Self::spec_broadcast(self.config.n(), self.self_id, m);
        proof {
            assert(old(self).sends() + bcast.take(0) =~= old(self).sends());
        }
        let n = self.config.replicas.len();
        let mut i: usize = 0;
        while i < n
            invariant
                i <= n,
                *self == (Replica { outbox: self.outbox, ..*old(self) }),
                self.sends() == old(self).sends() + bcast.take(
                    if i <= self.self_id { i as int } else { i - 1 },
                ),
            decreases n - i,
        {
            if i != self.self_id {
                let ghost p: int = if i <= self.self_id { i as int } else { i - 1 };
                proof {
                    assert(bcast[p] == (i, m));
                }
                self.send_msg(i, Message::Prepare { view_number, op_number, op, commit_number });
                proof {
                    assert(self.sends() =~= old(self).sends() + bcast.take(p + 1));
                }
            }
            i = i + 1;
        }
        proof {
            assert(bcast.take(bcast.len() as int) =~= bcast);
        }
    }

    /// Broadcasts a `Commit` to every other replica.
    #[verifier::loop_isolation(false)]
    fn broadcast_commit(&mut self, view_number: usize, commit_number: usize)
        requires
            old(self).wf(),
        ensures
            *final(self) == (Replica { outbox: final(self).outbox, ..*old(self) }),
            final(self).sends() == old(self).sends() + Self::spec_broadcast(
                old(self).config.n(),
                old(self).self_id,
                MessageView::Commit { view_number, commit_number },
            ),
    {
        let ghost m = MessageView::<Op>::Commit { view_number, commit_number };
        let ghost bcast = Self::spec_broadcast(self.config.n(), self.self_id, m);
        proof {
            assert(old(self).sends() + bcast.take(0) =~= old(self).sends());
        }
        let n = self.config.replicas.len();
        let mut i: usize = 0;
        while i < n
            invariant
                i <= n,
                *self == (Replica { outbox: self.outbox, ..*old(self) }),
                self.sends() == old(self).sends() + bcast.take(
                    if i <= self.self_id { i as int } else { i - 1 },
                ),
            decreases n - i,
        {
            if i != self.self_id {
                let ghost p: int = if i <= self.self_id { i as int } else { i - 1 };
                proof {
                    assert(bcast[p] == (i, m));
                }
                self.send_msg(i, Message::Commit { view_number, commit_number });
                proof {
                    assert(self.sends() =~= old(self).sends() + bcast.take(p + 1));
                }
            }
            i = i + 1;
        }
        proof {
            assert(bcast.take(bcast.len() as int) =~= bcast);
        }
    }

    /// Broadcasts a `StartViewChange` to every other replica.
    #[verifier::loop_isolation(false)]
    fn broadcast_start_view_change(&mut self, view_number: usize)
        requires
            old(self).wf(),
        ensures
            *final(self) == (Replica { outbox: final(self).outbox, ..*old(self) }),
            final(self).sends() == old(self).sends() + Self::spec_broadcast(
                old(self).config.n(),
                old(self).self_id,
                MessageView::StartViewChange { view_number, replica_id: old(self).self_id },
            ),
    {
        let ghost m = MessageView::<Op>::StartViewChange { view_number, replica_id: self.self_id };
        let ghost bcast = Self::spec_broadcast(self.config.n(), self.self_id, m);
        proof {
            assert(old(self).sends() + bcast.take(0) =~= old(self).sends());
        }
        let n = self.config.replicas.len();
        let mut i: usize = 0;
        while i < n
            invariant
                i <= n,
                *self == (Replica { outbox: self.outbox, ..*old(self) }),
                self.sends() == old(self).sends() + bcast.take(
                    if i <= self.self_id { i as int } else { i - 1 },
                ),
            decreases n - i,
        {
            if i != self.self_id {
                let ghost p: int = if i <= self.self_id { i as int } else { i - 1 };
                proof {
                    assert(bcast[p] == (i, m));
                }
                self.send_msg(
                    i,
                    Message::StartViewChange { view_number, replica_id: self.self_id },
                );
                proof {
                    assert(self.sends() =~= old(self).sends() + bcast.take(p + 1));
                }
            }
            i = i + 1;
        }
        proof {
            assert(bcast.take(bcast.len() as int) =~= bcast);
        }
    }

    /// Broadcasts a `StartView` carrying this replica's (new) log to every
    /// other replica.
    #[verifier::loop_isolation(false)]
    fn broadcast_start_view(&mut self, view_number: usize, commit_number: usize)
        requires
            old(self).wf(),
        ensures
            *final(self) == (Replica { outbox: final(self).outbox, ..*old(self) }),
            final(self).sends() == old(self).sends() + Self::spec_broadcast(
                old(self).config.n(),
                old(self).self_id,
                MessageView::StartView {
                    view_number,
                    replica_id: old(self).self_id,
                    log: old(self).log@,
                    commit_number,
                },
            ),
    {
        let ghost m = MessageView::<Op>::StartView {
            view_number,
            replica_id: self.self_id,
            log: self.log@,
            commit_number,
        };
        let ghost bcast = Self::spec_broadcast(self.config.n(), self.self_id, m);
        proof {
            assert(old(self).sends() + bcast.take(0) =~= old(self).sends());
        }
        let n = self.config.replicas.len();
        let mut i: usize = 0;
        while i < n
            invariant
                i <= n,
                *self == (Replica { outbox: self.outbox, ..*old(self) }),
                self.sends() == old(self).sends() + bcast.take(
                    if i <= self.self_id { i as int } else { i - 1 },
                ),
            decreases n - i,
        {
            if i != self.self_id {
                let ghost p: int = if i <= self.self_id { i as int } else { i - 1 };
                proof {
                    assert(bcast[p] == (i, m));
                }
                let log = Self::copy_ops(&self.log);
                self.send_msg(
                    i,
                    Message::StartView {
                        view_number,
                        replica_id: self.self_id,
                        log,
                        commit_number,
                    },
                );
                proof {
                    assert(self.sends() =~= old(self).sends() + bcast.take(p + 1));
                }
            }
            i = i + 1;
        }
        proof {
            assert(bcast.take(bcast.len() as int) =~= bcast);
        }
    }
}

} // verus!
