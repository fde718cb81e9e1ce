//! The client shim: numbers requests monotonically, sends each to the
//! believed primary, and matches the response to the one pending request.

use crate::config::Config;
use crate::message::{views_of, Message, MessageView};
use vstd::prelude::*;

verus! {

/// A client of the cluster. It allows at most one request in flight;
/// callers that need pipelining use several clients.
pub struct Client<Op> {
    pub config: Config,
    pub client_id: usize,
    /// The view this client believes current (it sends to that view's
    /// primary).
    pub view_number: usize,
    /// The number the next request will carry.
    pub request_number: usize,
    /// The number of the outstanding request, if one is in flight.
    pub pending: Option<usize>,
    /// Outbound messages not yet handed to the host.
    pub outbox: Vec<(usize, Message<Op>)>,
}

impl<Op> Client<Op> {
    pub open spec fn wf(&self) -> bool {
        &&& self.config.wf()
        &&& self.config.n() > 0
    }

    /// The outbound messages recorded so far, in sending order.
    pub open spec fn sends(&self) -> Seq<(usize, MessageView<Op>)> {
        views_of(self.outbox@)
    }

    pub fn new(config: Config) -> (c: Client<Op>)
        requires
            config.wf(),
            config.n() > 0,
        ensures
            c.wf(),
            c.config == config,
            c.client_id == 0,
            c.view_number == 0,
            c.request_number == 0,
            c.pending is None,
            c.sends() == Seq::<(usize, MessageView<Op>)>::empty(),
    {
        let c = Client {
            config,
            client_id: 0,
            view_number: 0,
            request_number: 0,
            pending: None,
            outbox: Vec::new(),
        };
        proof {
            assert(c.sends() =~= Seq::<(usize, MessageView<Op>)>::empty());
        }
        c
    }

    /// Issues one request: numbers it, remembers it as pending, and sends
    /// it to the primary of the believed view. Request numbers strictly
    /// increase, by one per request.
    pub fn on_request(&mut self, op: Op)
        requires
            old(self).wf(),
            old(self).request_number < usize::MAX,
        ensures
            final(self).wf(),
            final(self).request_number == old(self).request_number + 1,
            final(self).pending == Some(final(self).request_number),
            *final(self) == (Client {
                request_number: final(self).request_number,
                pending: final(self).pending,
                outbox: final(self).outbox,
                ..*old(self)
            }),
            final(self).sends() == old(self).sends().push(
                (
                    old(self).config.spec_primary_id(old(self).view_number),
                    MessageView::Request {
                        client_id: old(self).client_id,
                        request_number: (old(self).request_number + 1) as usize,
                        op,
                    },
                ),
            ),
    {
        let request_number = self.request_number + 1;
        self.request_number = request_number;
        self.pending = Some(request_number);
        let primary_id = self.config.primary_id(self.view_number);
        let ghost m = MessageView::<Op>::Request {
            client_id: self.client_id,
            request_number,
            op,
        };
        self.outbox.push(
            (primary_id, Message::Request { client_id: self.client_id, request_number, op }),
        );
        proof {
            assert(self.sends() =~= old(self).sends().push((primary_id, m)));
        }
    }

    /// A response arrived: clears the pending request and returns its
    /// number, for the host to drive whatever waited on it.
    pub fn on_message(&mut self) -> (r: Option<usize>)
        ensures
            r == old(self).pending,
            *final(self) == (Client { pending: None, ..*old(self) }),
    {
        let r = self.pending;
        self.pending = None;
        r
    }

    /// Hands the host every outbound message recorded so far and empties
    /// the outbox.
    pub fn take_outbox(&mut self) -> (msgs: Vec<(usize, Message<Op>)>)
        ensures
            views_of(msgs@) == old(self).sends(),
            *final(self) == (Client { outbox: final(self).outbox, ..*old(self) }),
            final(self).sends() == Seq::<(usize, MessageView<Op>)>::empty(),
    {
        let mut msgs: Vec<(usize, Message<Op>)> = Vec::new();
        core::mem::swap(&mut msgs, &mut self.outbox);
        proof {
            assert(self.sends() =~= Seq::<(usize, MessageView<Op>)>::empty());
        }
        msgs
    }
}

} // verus!
