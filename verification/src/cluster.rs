//! A mathematical model of a whole cluster under normal-case operation,
//! and the proof that agreement holds in it: any two replicas agree on
//! every position both have committed.
//!
//! The model is a ghost one — a sequence of replicas and the set of every
//! message ever sent. Its step relation reuses the very transition
//! relations that `Replica::on_message` and `Replica::on_idle` are verified
//! against, so what is proved here holds of the executable engine. The
//! network is a grow-only set: a message may be delivered never, once, or
//! many times, in any order — loss, duplication and reordering are all
//! runs of this relation.
//!
//! Client requests are modeled as an ordered trace delivered to the
//! primary one at a time — the hypothesis under which the protocol owes
//! the client an oracle-consistent state. The inter-replica traffic, where
//! the protocol earns its keep, is fully adversarial.
//!
//! The scope is a fixed view whose primary is up: no replica's idle
//! timeout fires, so no view change begins. Without per-operation view
//! stamps the protocol's log choice across views is too coarse to carry
//! this argument through a view change.

use crate::message::MessageView;
use crate::replica::{Replica, Status};
use crate::state_machine::StateMachine;
use vstd::prelude::*;

verus! {

/// A cluster frozen in time: every replica's state, and every message that
/// was ever handed to the transport, with its destination.
#[verifier::reject_recursive_types(Op)]
#[verifier::reject_recursive_types(SM)]
pub struct Cluster<Op, SM: StateMachine<Op>> {
    pub replicas: Seq<Replica<Op, SM>>,
    pub network: Set<(usize, MessageView<Op>)>,
    /// Every operation the clients have submitted, in submission order.
    pub submitted: Seq<Op>,
    /// How many of those have reached the primary so far.
    pub delivered_requests: int,
}

impl<Op: Copy, SM: StateMachine<Op>> Cluster<Op, SM> {
    /// The primary of the one view the model runs in.
    pub open spec fn primary(&self) -> Replica<Op, SM> {
        self.replicas[0]
    }

    /// What must hold of one addressed message for the invariant to be
    /// inductive: everything the primary ever said about its log was true
    /// of it, commit numbers never outrun the primary's, and no view
    /// change message exists.
    pub open spec fn msg_ok(&self, dm: (usize, MessageView<Op>)) -> bool {
        match dm.1 {
            MessageView::Request { client_id, request_number, op } => false,
            MessageView::Prepare { view_number, op_number, op, commit_number } => {
                view_number == 0 ==> {
                    &&& 1 <= op_number <= self.primary().log@.len()
                    &&& self.primary().log@[op_number - 1] == op
                    &&& commit_number <= self.primary().commit_number
                }
            },
            MessageView::PrepareOk { view_number, op_number } => true,
            MessageView::Commit { view_number, commit_number } => view_number == 0
                ==> commit_number <= self.primary().commit_number,
            MessageView::GetState { replica_id, view_number, op_number } => true,
            MessageView::NewState {
                view_number,
                log,
                op_number_start,
                op_number_end,
                commit_number,
            } => {
                // only a reply whose bounds line up is ever accepted; of
                // those, the content is a true slice of the primary's log
                (view_number == 0 && op_number_end == op_number_start + log.len()) ==> {
                    &&& op_number_end <= self.primary().log@.len()
                    &&& log == self.primary().log@.subrange(
                        op_number_start as int,
                        op_number_end as int,
                    )
                    &&& commit_number <= self.primary().commit_number
                }
            },
            MessageView::StartViewChange { view_number, replica_id } => false,
            MessageView::DoViewChange { view_number, replica_id, log, commit_number } => false,
            MessageView::StartView { view_number, replica_id, log, commit_number } => false,
        }
    }

    /// The per-replica half of the invariant: everyone is in the first
    /// view and not changing it, every log is a prefix of the primary's,
    /// and nobody's commit point outruns the primary's.
    pub open spec fn replicas_ok(&self) -> bool {
        &&& self.replicas.len() > 0
        &&& self.primary().status == Status::Normal
        &&& forall|i: int|
            0 <= i < self.replicas.len() ==> (#[trigger] self.replicas[i]).wf()
        &&& forall|i: int|
            0 <= i < self.replicas.len() ==> (#[trigger] self.replicas[i]).config.n()
                == self.replicas.len()
        &&& forall|i: int|
            0 <= i < self.replicas.len() ==> (#[trigger] self.replicas[i]).self_id == i
        &&& forall|i: int|
            0 <= i < self.replicas.len() ==> (#[trigger] self.replicas[i]).view_number == 0
        &&& forall|i: int|
            0 <= i < self.replicas.len() ==> (#[trigger] self.replicas[i]).status
                != Status::ViewChange
        &&& forall|i: int|
            0 <= i < self.replicas.len() ==> (#[trigger] self.replicas[i]).log@.is_prefix_of(
                self.primary().log@,
            )
        &&& forall|i: int|
            0 <= i < self.replicas.len() ==> (#[trigger] self.replicas[i]).commit_number
                <= self.primary().commit_number
    }

    /// The inductive invariant of normal-case operation: the replicas are
    /// in order, the primary's log is exactly the delivered prefix of the
    /// client trace, and every message in flight is truthful.
    pub open spec fn inv(&self) -> bool {
        &&& self.replicas_ok()
        &&& 0 <= self.delivered_requests <= self.submitted.len()
        &&& self.primary().log@ == self.submitted.take(self.delivered_requests)
        &&& forall|dm: (usize, MessageView<Op>)|
            self.network.contains(dm) ==> self.msg_ok(dm)
    }

    /// The messages a handler just recorded: whatever stands in the outbox
    /// past what was there before.
    pub open spec fn new_sends(
        pre: Replica<Op, SM>,
        post: Replica<Op, SM>,
    ) -> Set<(usize, MessageView<Op>)> {
        post.sends().skip(pre.sends().len() as int).to_set()
    }

    /// One message delivery: a replica handles a message the transport
    /// holds for it, and what it sent joins the network. The network keeps
    /// the delivered message, so the same delivery may happen again.
    pub open spec fn deliver_step(pre: Self, post: Self, i: int, m: MessageView<Op>) -> bool {
        &&& 0 <= i < pre.replicas.len()
        &&& pre.network.contains((i as usize, m))
        &&& Replica::message_transition(pre.replicas[i], post.replicas[i], m)
        &&& post.replicas.len() == pre.replicas.len()
        &&& forall|j: int|
            0 <= j < pre.replicas.len() && j != i ==> (#[trigger] post.replicas[j])
                == pre.replicas[j]
        &&& post.network == pre.network.union(Self::new_sends(pre.replicas[i], post.replicas[i]))
        &&& post.submitted == pre.submitted
        &&& post.delivered_requests == pre.delivered_requests
    }

    /// A client submits one more operation to the back of the trace.
    pub open spec fn submit_step(pre: Self, post: Self, op: Op) -> bool {
        post == (Cluster { submitted: pre.submitted.push(op), ..pre })
    }

    /// The next submitted operation reaches the primary as a `Request`.
    pub open spec fn deliver_request_step(
        pre: Self,
        post: Self,
        client_id: usize,
        request_number: usize,
    ) -> bool {
        &&& 0 < pre.replicas.len()
        &&& pre.delivered_requests < pre.submitted.len()
        &&& Replica::message_transition(
            pre.replicas[0],
            post.replicas[0],
            MessageView::Request {
                client_id,
                request_number,
                op: pre.submitted[pre.delivered_requests],
            },
        )
        &&& post.replicas.len() == pre.replicas.len()
        &&& forall|j: int|
            0 < j < pre.replicas.len() ==> (#[trigger] post.replicas[j]) == pre.replicas[j]
        &&& post.network == pre.network.union(Self::new_sends(pre.replicas[0], post.replicas[0]))
        &&& post.submitted == pre.submitted
        &&& post.delivered_requests == pre.delivered_requests + 1
    }

    /// One idle tick at a replica whose patience has not run out — the
    /// primary gossips its commit point, a backup only counts the silence.
    pub open spec fn idle_step(pre: Self, post: Self, i: int) -> bool {
        &&& 0 <= i < pre.replicas.len()
        &&& pre.replicas[i].spec_is_primary() || crate::replica::saturating_incr(
            pre.replicas[i].backup_idle_ticks,
        ) <= crate::replica::BACKUP_IDLE_TICKS_MAX
        &&& Replica::idle_transition(pre.replicas[i], post.replicas[i])
        &&& post.replicas.len() == pre.replicas.len()
        &&& forall|j: int|
            0 <= j < pre.replicas.len() && j != i ==> (#[trigger] post.replicas[j])
                == pre.replicas[j]
        &&& post.network == pre.network.union(Self::new_sends(pre.replicas[i], post.replicas[i]))
        &&& post.submitted == pre.submitted
        &&& post.delivered_requests == pre.delivered_requests
    }

    // --- what one handler adds to the network ---------------------------

    proof fn lemma_no_new_sends(a: Replica<Op, SM>, b: Replica<Op, SM>)
        requires
            b.sends() == a.sends(),
        ensures
            Self::new_sends(a, b) == Set::<(usize, MessageView<Op>)>::empty(),
    {
        assert(b.sends().skip(a.sends().len() as int) =~= Seq::<
            (usize, MessageView<Op>),
        >::empty());
        assert(Self::new_sends(a, b) =~= Set::<(usize, MessageView<Op>)>::empty());
    }

    proof fn lemma_one_new_send(a: Replica<Op, SM>, b: Replica<Op, SM>, x: (usize, MessageView<Op>))
        requires
            b.sends() == a.sends().push(x),
        ensures
            Self::new_sends(a, b) == set![x],
    {
        let s = seq![x];
        assert(b.sends().skip(a.sends().len() as int) =~= s);
        assert(s[0] == x);
        assert(s.contains(x));
        assert(Self::new_sends(a, b) =~= set![x]);
    }

    proof fn lemma_two_new_sends(
        a: Replica<Op, SM>,
        b: Replica<Op, SM>,
        x: (usize, MessageView<Op>),
        y: (usize, MessageView<Op>),
    )
        requires
            b.sends() == a.sends().push(x).push(y),
        ensures
            Self::new_sends(a, b) == set![x, y],
    {
        let s = seq![x, y];
        assert(b.sends().skip(a.sends().len() as int) =~= s);
        assert(s[0] == x);
        assert(s[1] == y);
        assert(s.contains(x));
        assert(s.contains(y));
        assert(Self::new_sends(a, b) =~= set![x, y]);
    }

    proof fn lemma_broadcast_new_sends(
        a: Replica<Op, SM>,
        b: Replica<Op, SM>,
        n: nat,
        id: usize,
        msg: MessageView<Op>,
    )
        requires
            b.sends() == a.sends() + Replica::<Op, SM>::spec_broadcast(n, id, msg),
        ensures
            forall|dm: (usize, MessageView<Op>)|
                Self::new_sends(a, b).contains(dm) ==> dm.1 == msg,
    {
        let bcast = Replica::<Op, SM>::spec_broadcast(n, id, msg);
        assert(b.sends().skip(a.sends().len() as int) =~= bcast);
        assert forall|dm: (usize, MessageView<Op>)|
            Self::new_sends(a, b).contains(dm) implies dm.1 == msg by {
            let k = choose|k: int| 0 <= k < bcast.len() && bcast[k] == dm;
        }
    }

    /// A message that was truthful stays truthful while the primary's log
    /// grows and its commit point advances.
    proof fn lemma_msg_ok_extends(pre: Self, post: Self, dm: (usize, MessageView<Op>))
        requires
            pre.msg_ok(dm),
            pre.primary().log@.is_prefix_of(post.primary().log@),
            pre.primary().commit_number <= post.primary().commit_number,
        ensures
            post.msg_ok(dm),
    {
        let l0 = pre.primary().log@;
        let l1 = post.primary().log@;
        match dm.1 {
            MessageView::Prepare { view_number, op_number, op, commit_number } => {
                if view_number == 0 {
                    assert(l1[op_number - 1] == l0[op_number - 1]);
                }
            },
            MessageView::NewState {
                view_number,
                log,
                op_number_start,
                op_number_end,
                commit_number,
            } => {
                if view_number == 0 && op_number_end == op_number_start + log.len() {
                    assert(l1.subrange(op_number_start as int, op_number_end as int) =~= l0
                        .subrange(op_number_start as int, op_number_end as int));
                }
            },
            _ => {},
        }
    }
    /// Every sequence is a prefix of itself.
    proof fn lemma_prefix_refl(s: Seq<Op>)
        ensures
            s.is_prefix_of(s),
    {
        assert(s =~= s.subrange(0, s.len() as int));
    }

    /// The per-replica half of the invariant survives a step at replica
    /// `i`, given what the step left of that replica.
    proof fn lemma_replicas_ok_preserved(pre: Self, post: Self, i: int)
        requires
            pre.inv(),
            0 <= i < pre.replicas.len(),
            post.replicas.len() == pre.replicas.len(),
            forall|j: int|
                0 <= j < pre.replicas.len() && j != i ==> (#[trigger] post.replicas[j])
                    == pre.replicas[j],
            post.replicas[i].wf(),
            post.replicas[i].config == pre.replicas[i].config,
            post.replicas[i].self_id == pre.replicas[i].self_id,
            post.replicas[i].view_number == 0,
            post.replicas[i].status != Status::ViewChange,
            i == 0 ==> post.replicas[0].status == Status::Normal,
            i == 0 ==> pre.primary().log@.is_prefix_of(post.primary().log@),
            i == 0 ==> pre.primary().commit_number <= post.primary().commit_number,
            i != 0 ==> post.replicas[i].log@.is_prefix_of(pre.primary().log@),
            i != 0 ==> post.replicas[i].commit_number <= pre.primary().commit_number,
        ensures
            post.replicas_ok(),
    {
        if i == 0 {
            assert forall|j: int|
                0 <= j < post.replicas.len() implies (#[trigger] post.replicas[j]).log@
                .is_prefix_of(post.primary().log@) by {
                if j != 0 {
                    assert(post.replicas[j].log@ =~= post.primary().log@.subrange(
                        0,
                        post.replicas[j].log@.len() as int,
                    ));
                }
            }
        } else {
            assert(post.primary() == pre.primary());
        }
    }

    /// The network half of the invariant survives a step: old messages
    /// stay truthful while the primary only grows, and the step's own
    /// messages are truthful by assumption.
    proof fn lemma_network_ok(pre: Self, post: Self, new_msgs: Set<(usize, MessageView<Op>)>)
        requires
            pre.inv(),
            post.network == pre.network.union(new_msgs),
            pre.primary().log@.is_prefix_of(post.primary().log@),
            pre.primary().commit_number <= post.primary().commit_number,
            forall|dm: (usize, MessageView<Op>)|
                new_msgs.contains(dm) ==> post.msg_ok(dm),
        ensures
            forall|dm: (usize, MessageView<Op>)|
                post.network.contains(dm) ==> post.msg_ok(dm),
    {
        assert forall|dm: (usize, MessageView<Op>)|
            post.network.contains(dm) implies post.msg_ok(dm) by {
            if pre.network.contains(dm) {
                Self::lemma_msg_ok_extends(pre, post, dm);
            }
        }
    }

    // --- the invariant holds of every reachable state -------------------

    /// A cluster starts in the invariant: fresh replicas, nothing sent.
    pub proof fn lemma_init(c: Self)
        requires
            c.replicas.len() > 0,
            forall|i: int|
                0 <= i < c.replicas.len() ==> (#[trigger] c.replicas[i]).wf()
                    && c.replicas[i].config.n() == c.replicas.len() && c.replicas[i].self_id == i
                    && c.replicas[i].view_number == 0 && c.replicas[i].status == Status::Normal
                    && c.replicas[i].log@ == Seq::<Op>::empty() && c.replicas[i].commit_number
                    == 0,
            c.network == Set::<(usize, MessageView<Op>)>::empty(),
            c.delivered_requests == 0,
        ensures
            c.inv(),
    {
        assert forall|i: int|
            0 <= i < c.replicas.len() implies (#[trigger] c.replicas[i]).log@.is_prefix_of(
            c.primary().log@,
        ) by {
            assert(c.replicas[i].log@ =~= c.primary().log@.subrange(0, 0));
        }
        assert(c.primary().log@ =~= c.submitted.take(0));
    }

    /// Submitting one more operation preserves the invariant.
    pub proof fn lemma_submit_preserves(pre: Self, post: Self, op: Op)
        requires
            pre.inv(),
            Self::submit_step(pre, post, op),
        ensures
            post.inv(),
    {
        assert(post.primary().log@ =~= post.submitted.take(post.delivered_requests));
    }

    /// Delivering the next client request to the primary preserves the
    /// invariant: the primary appends exactly the next submitted operation
    /// and announces it with a truthful `Prepare`.
    pub proof fn lemma_deliver_request_preserves(
        pre: Self,
        post: Self,
        client_id: usize,
        request_number: usize,
    )
        requires
            pre.inv(),
            Self::deliver_request_step(pre, post, client_id, request_number),
        ensures
            post.inv(),
    {
        let pr = pre.replicas[0];
        let po = post.replicas[0];
        let p0 = pre.primary();
        let op = pre.submitted[pre.delivered_requests];
        let delta = Self::new_sends(pr, po);
        assert(pre.replicas[0].wf() && pre.replicas[0].view_number == 0 && pre.replicas[0].self_id
            == 0);
        assert(pr.spec_primary_id() == 0);
        let mv = MessageView::<Op>::Prepare {
            view_number: 0,
            op_number: (pr.op_number + 1) as usize,
            op,
            commit_number: pr.commit_number,
        };
        Self::lemma_broadcast_new_sends(pr, po, pr.config.n(), pr.self_id, mv);
        assert(p0.log@.is_prefix_of(po.log@)) by {
            assert(p0.log@ =~= po.log@.subrange(0, p0.log@.len() as int));
        }
        assert(po.log@.take(po.commit_number as int) =~= pr.log@.take(pr.commit_number as int));
        assert forall|dm: (usize, MessageView<Op>)|
            delta.contains(dm) implies post.msg_ok(dm) by {
            assert(dm.1 == mv);
            assert(post.primary().log@[po.op_number - 1] == op);
        }
        Self::lemma_network_ok(pre, post, delta);
        Self::lemma_replicas_ok_preserved(pre, post, 0);
        assert(post.primary().log@ =~= post.submitted.take(post.delivered_requests));
    }

    /// An idle tick that starts no view change preserves the invariant.
    pub proof fn lemma_idle_preserves(pre: Self, post: Self, i: int)
        requires
            pre.inv(),
            Self::idle_step(pre, post, i),
        ensures
            post.inv(),
    {
        let pr = pre.replicas[i];
        let po = post.replicas[i];
        if pr.spec_is_primary() {
            // the primary gossips its commit point to everyone else
            Self::lemma_broadcast_new_sends(
                pr,
                po,
                pr.config.n(),
                pr.self_id,
                MessageView::Commit {
                    view_number: pr.view_number,
                    commit_number: pr.commit_number,
                },
            );
        } else {
            Self::lemma_no_new_sends(pr, po);
        }
    }

    /// Delivering any message the transport holds preserves the
    /// invariant, whichever replica it reaches and however often it was
    /// delivered before.
    pub proof fn lemma_deliver_preserves(pre: Self, post: Self, i: int, m: MessageView<Op>)
        requires
            pre.inv(),
            Self::deliver_step(pre, post, i, m),
        ensures
            post.inv(),
    {
        let pr = pre.replicas[i];
        let po = post.replicas[i];
        let p0 = pre.primary();
        let delta = Self::new_sends(pr, po);
        assert(pre.msg_ok((i as usize, m)));
        // the primary of view 0 is replica 0
        assert(pr.spec_primary_id() == 0);
        assert(pr.spec_is_primary() <==> i == 0);
        match m {
            MessageView::Request { client_id, request_number, op } => {
                // requests travel the ordered client trace, not the network
                assert(false);
            },
            MessageView::Prepare { view_number, op_number, op, commit_number } => {
                if i == 0 {
                    // the primary never takes a Prepare
                    Self::lemma_no_new_sends(pr, po);
                    Self::lemma_prefix_refl(p0.log@);
                } else if pr.status != Status::Normal || view_number != pr.view_number {
                    Self::lemma_no_new_sends(pr, po);
                } else if op_number <= pr.op_number {
                    // duplicate: one more PrepareOk
                    Self::lemma_one_new_send(
                        pr,
                        po,
                        (
                            pr.spec_primary_id(),
                            MessageView::PrepareOk { view_number, op_number },
                        ),
                    );
                } else if op_number > pr.op_number + 1 {
                    // gap: one GetState
                    Self::lemma_one_new_send(
                        pr,
                        po,
                        (
                            pr.spec_primary_id(),
                            MessageView::GetState {
                                replica_id: pr.self_id,
                                view_number,
                                op_number: pr.op_number,
                            },
                        ),
                    );
                } else {
                    // accepted: the appended operation is the primary's, so
                    // the log stays a prefix of the primary's
                    assert(pr.log@ =~= p0.log@.subrange(0, pr.log@.len() as int));
                    assert(po.log@ =~= p0.log@.subrange(0, op_number as int));
                    assert(po.log@.is_prefix_of(p0.log@));
                    if commit_number <= op_number {
                        Self::lemma_one_new_send(
                            pr,
                            po,
                            (
                                pr.spec_primary_id(),
                                MessageView::PrepareOk { view_number, op_number },
                            ),
                        );
                    } else {
                        Self::lemma_two_new_sends(
                            pr,
                            po,
                            (
                                pr.spec_primary_id(),
                                MessageView::PrepareOk { view_number, op_number },
                            ),
                            (
                                pr.spec_primary_id(),
                                MessageView::GetState {
                                    replica_id: pr.self_id,
                                    view_number,
                                    op_number,
                                },
                            ),
                        );
                    }
                }
            },
            MessageView::PrepareOk { view_number, op_number } => {
                // at most the primary's commit point moves, forwards
                Self::lemma_no_new_sends(pr, po);
                Self::lemma_prefix_refl(pr.log@);
            },
            MessageView::Commit { view_number, commit_number } => {
                if i == 0 || pr.status != Status::Normal || view_number != pr.view_number {
                    Self::lemma_no_new_sends(pr, po);
                    Self::lemma_prefix_refl(p0.log@);
                } else if commit_number > pr.op_number {
                    Self::lemma_one_new_send(
                        pr,
                        po,
                        (
                            pr.spec_primary_id(),
                            MessageView::GetState {
                                replica_id: pr.self_id,
                                view_number,
                                op_number: pr.op_number,
                            },
                        ),
                    );
                } else {
                    // commits what it already holds, no further than the
                    // primary has committed
                    Self::lemma_no_new_sends(pr, po);
                }
            },
            MessageView::GetState { replica_id, view_number, op_number } => {
                if pr.status != Status::ViewChange && view_number == pr.view_number && op_number
                    <= pr.op_number && replica_id < pr.config.n() {
                    // answers with a true slice of its own log, which is a
                    // true slice of the primary's
                    let reply = MessageView::<Op>::NewState {
                        view_number,
                        log: pr.log@.skip(op_number as int),
                        op_number_start: op_number,
                        op_number_end: pr.op_number,
                        commit_number: pr.commit_number,
                    };
                    Self::lemma_one_new_send(pr, po, (replica_id, reply));
                    assert(pr.log@ =~= p0.log@.subrange(0, pr.log@.len() as int));
                    assert(pr.log@.skip(op_number as int) =~= p0.log@.subrange(
                        op_number as int,
                        pr.op_number as int,
                    ));
                    if i == 0 {
                        Self::lemma_prefix_refl(p0.log@);
                    }
                } else {
                    Self::lemma_no_new_sends(pr, po);
                    Self::lemma_prefix_refl(p0.log@);
                }
            },
            MessageView::NewState {
                view_number,
                log,
                op_number_start,
                op_number_end,
                commit_number,
            } => {
                if pr.status == Status::Recovery && view_number == pr.view_number
                    && op_number_start == pr.op_number && op_number_end == op_number_start
                    + log.len() && commit_number <= op_number_end {
                    // the repaired log is exactly a longer prefix of the
                    // primary's log
                    Self::lemma_one_new_send(
                        pr,
                        po,
                        (
                            pr.spec_primary_id(),
                            MessageView::PrepareOk { view_number, op_number: op_number_end },
                        ),
                    );
                    assert(pr.log@ =~= p0.log@.subrange(0, pr.log@.len() as int));
                    assert(po.log@ =~= p0.log@.subrange(0, op_number_end as int));
                    assert(po.log@.is_prefix_of(p0.log@));
                } else {
                    Self::lemma_no_new_sends(pr, po);
                    Self::lemma_prefix_refl(p0.log@);
                }
            },
            MessageView::StartViewChange { view_number, replica_id } => {
                assert(false);
            },
            MessageView::DoViewChange { view_number, replica_id, log, commit_number } => {
                assert(false);
            },
            MessageView::StartView { view_number, replica_id, log, commit_number } => {
                assert(false);
            },
        }
        Self::lemma_network_ok(pre, post, delta);
        Self::lemma_replicas_ok_preserved(pre, post, i);
        assert(post.primary().log@ == pre.primary().log@);
    }

    /// Anything the cluster can do in one step: a delivery, a new client
    /// request, or an idle tick.
    pub open spec fn next(pre: Self, post: Self) -> bool {
        ||| exists|i: int, m: MessageView<Op>| Self::deliver_step(pre, post, i, m)
        ||| exists|op: Op| Self::submit_step(pre, post, op)
        ||| exists|client_id: usize, request_number: usize|
            Self::deliver_request_step(pre, post, client_id, request_number)
        ||| exists|i: int| Self::idle_step(pre, post, i)
    }

    /// The invariant is inductive: it survives every step the cluster can
    /// take.
    pub proof fn lemma_next_preserves(pre: Self, post: Self)
        requires
            pre.inv(),
            Self::next(pre, post),
        ensures
            post.inv(),
    {
        if exists|i: int, m: MessageView<Op>| Self::deliver_step(pre, post, i, m) {
            let (i, m) = choose|i: int, m: MessageView<Op>| Self::deliver_step(pre, post, i, m);
            Self::lemma_deliver_preserves(pre, post, i, m);
        } else if exists|op: Op| Self::submit_step(pre, post, op) {
            let op = choose|op: Op| Self::submit_step(pre, post, op);
            Self::lemma_submit_preserves(pre, post, op);
        } else if exists|client_id: usize, request_number: usize|
            Self::deliver_request_step(pre, post, client_id, request_number) {
            let (client_id, request_number) = choose|client_id: usize, request_number: usize|
                Self::deliver_request_step(pre, post, client_id, request_number);
            Self::lemma_deliver_request_preserves(pre, post, client_id, request_number);
        } else {
            let i = choose|i: int| Self::idle_step(pre, post, i);
            Self::lemma_idle_preserves(pre, post, i);
        }
    }

    /// Agreement in the invariant: any two replicas hold the same
    /// operation at any position both have committed.
    pub proof fn lemma_agreement(c: Self, i: int, j: int, n: int)
        requires
            c.inv(),
            0 <= i < c.replicas.len(),
            0 <= j < c.replicas.len(),
            1 <= n <= c.replicas[i].commit_number,
            n <= c.replicas[j].commit_number,
        ensures
            c.replicas[i].log@[n - 1] == c.replicas[j].log@[n - 1],
    {
        assert(c.replicas[i].log@[n - 1] == c.primary().log@[n - 1]);
        assert(c.replicas[j].log@[n - 1] == c.primary().log@[n - 1]);
    }

    /// State machines never diverge in the invariant: of any two replicas,
    /// the one that has committed less has applied a prefix of what the
    /// other applied.
    pub proof fn lemma_histories_consistent(c: Self, i: int, j: int)
        requires
            c.inv(),
            0 <= i < c.replicas.len(),
            0 <= j < c.replicas.len(),
            c.replicas[i].commit_number <= c.replicas[j].commit_number,
        ensures
            c.replicas[i].applied().is_prefix_of(c.replicas[j].applied()),
    {
        let ci = c.replicas[i].commit_number as int;
        let cj = c.replicas[j].commit_number as int;
        assert(c.replicas[i].applied() =~= c.primary().log@.take(ci));
        assert(c.replicas[j].applied() =~= c.primary().log@.take(cj));
        assert(c.replicas[i].applied() =~= c.replicas[j].applied().subrange(0, ci));
    }

    /// The oracle property in the invariant: every replica's state machine
    /// — the primary's first of all — has applied exactly a prefix of the
    /// submitted operations, in client-submission order. With a
    /// deterministic machine, its state therefore equals an oracle's that
    /// applied the same prefix.
    pub proof fn lemma_applies_submitted_prefix(c: Self, i: int)
        requires
            c.inv(),
            0 <= i < c.replicas.len(),
        ensures
            c.replicas[i].applied() == c.submitted.take(c.replicas[i].commit_number as int),
    {
        let ci = c.replicas[i].commit_number as int;
        assert(c.replicas[i].applied() =~= c.primary().log@.take(ci));
        assert(c.replicas[i].applied() =~= c.submitted.take(ci));
    }
}

} // verus!
