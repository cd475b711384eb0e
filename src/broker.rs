//! The session with the agent: which requests await a response, how each
//! message from the agent is routed, and what ending the session releases.
use vstd::prelude::*;
use crate::protocol::{is_initialize, Message, Notification, Request, RequestIds, RequestMethods, Response};

verus! {

#[derive(Debug, Clone, Copy, PartialEq, Eq, Structural)]
pub enum SessionState {
    Starting,
    Running,
    Draining,
    Closed,
}

#[derive(Debug, Clone, Copy, PartialEq, Eq, Structural)]
pub enum BrokerError {
    /// The session has not sent `initialize` yet.
    NotStarted,
    /// The session has sent `initialize` already.
    AlreadyStarted,
    /// The agent's output has ended or the session is closed.
    AgentDisconnected,
    /// Every request id has been used.
    IdsExhausted,
}

/// Where a message from the agent goes.
#[derive(Debug, Clone)]
pub enum Delivery {
    /// To the waiter of request `waiter`, which is the response's own id.
    Deliver { waiter: usize, response: Response },
    /// To the editor.
    Forward(Notification),
    /// Nowhere: nobody waits for it.
    Discard,
}

/// The correlation state of one agent session.
pub struct Broker {
    state: SessionState,
    waiting: Vec<usize>,
    ids: RequestIds,
}

/// What happens to the pending set when the response with id `id` arrives,
/// and whose waiter gets it.
pub open spec fn route_response(pending: Set<usize>, id: usize) -> (Set<usize>, Option<usize>) {
    if pending.contains(id) {
        (pending.remove(id), Some(id))
    } else {
        (pending, None)
    }
}

/// The waiters that a run of responses reaches, in arrival order.
pub open spec fn route_all(pending: Set<usize>, arrivals: Seq<usize>) -> Seq<Option<usize>>
    decreases arrivals.len(),
{
    if arrivals.len() == 0 {
        seq![]
    } else {
        let (rest, waiter) = route_response(pending, arrivals[0]);
        seq![waiter] + route_all(rest, arrivals.drop_first())
    }
}

/// Responses to distinct outstanding requests, in whatever order they arrive,
/// each reach the waiter of their own id, and none is dropped.
pub proof fn lemma_correlation(pending: Set<usize>, arrivals: Seq<usize>)
    requires
        arrivals.no_duplicates(),
        forall|i: int| 0 <= i < arrivals.len() ==> pending.contains(#[trigger] arrivals[i]),
    ensures
        route_all(pending, arrivals) == arrivals.map_values(|id: usize| Some(id)),
    decreases arrivals.len(),
{
    if arrivals.len() > 0 {
        let first = arrivals[0];
        let tail = arrivals.drop_first();
        let rest = pending.remove(first);
        assert forall|i: int| 0 <= i < tail.len() implies rest.contains(#[trigger] tail[i]) by {
            assert(tail[i] == arrivals[i + 1]);
            assert(arrivals[i + 1] != arrivals[0]);
        }
        assert(tail.no_duplicates()) by {
            assert forall|i: int, j: int| 0 <= i < tail.len() && 0 <= j < tail.len() && i != j implies tail[i]
                != tail[j] by {
                assert(tail[i] == arrivals[i + 1]);
                assert(tail[j] == arrivals[j + 1]);
            }
        }
        lemma_correlation(rest, tail);
        assert(route_all(pending, arrivals) =~= arrivals.map_values(|id: usize| Some(id)));
    } else {
        assert(route_all(pending, arrivals) =~= arrivals.map_values(|id: usize| Some(id)));
    }
}

proof fn lemma_remove_waiter(before: Seq<usize>, after: Seq<usize>, i: int, bound: usize)
    requires
        0 <= i < before.len(),
        after == before.remove(i),
        before.no_duplicates(),
        forall|k: int| 0 <= k < before.len() ==> before[k] < bound,
    ensures
        after.no_duplicates(),
        forall|k: int| 0 <= k < after.len() ==> after[k] < bound,
        forall|x: usize| after.contains(x) <==> before.contains(x) && x != before[i],
{
    assert forall|x: usize| after.contains(x) implies before.contains(x) && x != before[i] by {
        let k = choose|k: int| 0 <= k < after.len() && after[k] == x;
        if k < i {
            assert(before[k] == x);
        } else {
            assert(before[k + 1] == x);
        }
    }
    assert forall|x: usize| before.contains(x) && x != before[i] implies after.contains(x) by {
        let k = choose|k: int| 0 <= k < before.len() && before[k] == x;
        if k < i {
            assert(after[k] == x);
        } else {
            assert(after[k - 1] == x);
        }
    }
    assert forall|a: int, b: int| 0 <= a < after.len() && 0 <= b < after.len() && a != b implies after[a] != after[b] by {
        let a2 = if a < i { a } else { a + 1 };
        let b2 = if b < i { b } else { b + 1 };
        assert(after[a] == before[a2]);
        assert(after[b] == before[b2]);
    }
    assert forall|k: int| 0 <= k < after.len() implies after[k] < bound by {
        let k2 = if k < i { k } else { k + 1 };
        assert(after[k] == before[k2]);
    }
}

impl Broker {
    /// The ids of the requests that await a response.
    pub closed spec fn pending(&self) -> Set<usize> {
        Set::new(|id: usize| self.waiting@.contains(id))
    }

    pub closed spec fn state_of(&self) -> SessionState {
        self.state
    }

    /// The id that the next request gets.
    pub closed spec fn next_id_of(&self) -> usize {
        self.ids.next_id()
    }

    pub closed spec fn wf(&self) -> bool {
        &&& self.waiting@.no_duplicates()
        &&& forall|i: int| 0 <= i < self.waiting@.len() ==> self.waiting@[i] < self.ids.next_id()
        &&& (self.state == SessionState::Starting ==> self.waiting@.len() == 0 && self.ids.next_id() == 0)
        &&& (self.state == SessionState::Draining || self.state == SessionState::Closed) ==> self.waiting@.len() == 0
    }

    pub fn new() -> (r: Broker)
        ensures
            r.wf(),
            r.state_of() == SessionState::Starting,
            r.pending() == Set::<usize>::empty(),
            r.next_id_of() == 0,
    {
        let r = Broker { state: SessionState::Starting, waiting: Vec::new(), ids: RequestIds::new() };
        assert(r.pending() =~= Set::<usize>::empty());
        r
    }

    pub fn state(&self) -> (r: SessionState)
        ensures
            r == self.state_of(),
    {
        self.state
    }

    /// Opens the session: the `initialize` request, which must be the first
    /// message to the agent. Its response is awaited like any other.
    pub fn start(&mut self, workspace_root_path: String) -> (r: Result<Message, BrokerError>)
        requires
            old(self).wf(),
        ensures
            final(self).wf(),
            old(self).state_of() == SessionState::Starting <==> r is Ok,
            r is Ok ==> is_initialize(r->Ok_0, 0, workspace_root_path@) && final(self).state_of()
                == SessionState::Running && final(self).pending() == set![0usize] && final(self).next_id_of() == 1,
            r is Err ==> *final(self) == *old(self),
            r matches Err(e) ==> e == (if old(self).state_of() == SessionState::Running {
                BrokerError::AlreadyStarted
            } else {
                BrokerError::AgentDisconnected
            }),
    {
        match self.state {
            SessionState::Starting => {
                let msg = match Message::initialize(&mut self.ids, workspace_root_path) {
                    Some(m) => m,
                    None => {
                        return Err(BrokerError::IdsExhausted);
                    },
                };
                self.waiting.push(0);
                self.state = SessionState::Running;
                assert(self.waiting@ =~= seq![0usize]);
                assert(self.waiting@[0] == 0usize);
                assert forall|x: usize| self.waiting@.contains(x) <==> x == 0usize by {
                    if x == 0usize {
                        assert(self.waiting@[0] == x);
                    }
                }
                assert(self.pending() =~= set![0usize]);
                Ok(msg)
            },
            SessionState::Running => Err(BrokerError::AlreadyStarted),
            _ => Err(BrokerError::AgentDisconnected),
        }
    }

    /// A new request to the agent, registered as awaiting its response.
    pub fn submit(&mut self, params: RequestMethods) -> (r: Result<Request, BrokerError>)
        requires
            old(self).wf(),
        ensures
            final(self).wf(),
            final(self).state_of() == old(self).state_of(),
            r is Ok <==> old(self).state_of() == SessionState::Running && old(self).next_id_of() < usize::MAX,
            r matches Ok(req) ==> req.id == old(self).next_id_of() && req.params == params
                && !old(self).pending().contains(req.id)
                && final(self).pending() == old(self).pending().insert(req.id)
                && final(self).next_id_of() == old(self).next_id_of() + 1,
            r matches Err(e) ==> *final(self) == *old(self) && e == (match old(self).state_of() {
                SessionState::Starting => BrokerError::NotStarted,
                SessionState::Running => BrokerError::IdsExhausted,
                _ => BrokerError::AgentDisconnected,
            }),
    {
        match self.state {
            SessionState::Starting => Err(BrokerError::NotStarted),
            SessionState::Running => {
                let request = match Request::new(&mut self.ids, params) {
                    Some(req) => req,
                    None => {
                        return Err(BrokerError::IdsExhausted);
                    },
                };
                let id = request.id;
                let ghost before = self.waiting@;
                self.waiting.push(id);
                assert(!before.contains(id));
                assert(self.waiting@.no_duplicates()) by {
                    assert forall|i: int, j: int|
                        0 <= i < self.waiting@.len() && 0 <= j < self.waiting@.len() && i != j implies self.waiting@[i]
                        != self.waiting@[j] by {
                        if i < before.len() && j < before.len() {
                            assert(self.waiting@[i] == before[i]);
                            assert(self.waiting@[j] == before[j]);
                        } else if i < before.len() {
                            assert(before[i] < id);
                        } else if j < before.len() {
                            assert(before[j] < id);
                        }
                    }
                }
                assert forall|x: usize| self.waiting@.contains(x) <==> before.contains(x) || x == id by {
                    if x == id {
                        assert(self.waiting@[before.len() as int] == x);
                    }
                    if before.contains(x) {
                        let k = choose|k: int| 0 <= k < before.len() && before[k] == x;
                        assert(self.waiting@[k] == x);
                    }
                    if self.waiting@.contains(x) && x != id {
                        let k = choose|k: int| 0 <= k < self.waiting@.len() && self.waiting@[k] == x;
                        assert(k < before.len());
                        assert(before[k] == x);
                    }
                }
                assert(self.pending() =~= old(self).pending().insert(id));
                Ok(request)
            },
            _ => Err(BrokerError::AgentDisconnected),
        }
    }

    /// Routes one message read from the agent: a response to its own waiter if
    /// one is registered, a notification to the editor, anything else nowhere.
    pub fn on_agent_message(&mut self, msg: Message) -> (r: Delivery)
        requires
            old(self).wf(),
        ensures
            final(self).wf(),
            final(self).state_of() == old(self).state_of(),
            final(self).next_id_of() == old(self).next_id_of(),
            match msg {
                Message::Response(resp) => {
                    let (rest, waiter) = route_response(old(self).pending(), resp.id);
                    &&& final(self).pending() == rest
                    &&& match waiter {
                        Some(w) => r == Delivery::Deliver { waiter: w, response: resp },
                        None => r is Discard,
                    }
                },
                Message::Notification(n) => r == Delivery::Forward(n) && final(self).pending() == old(self).pending(),
                Message::Request(_) => r is Discard && final(self).pending() == old(self).pending(),
            },
    {
        match msg {
            Message::Response(resp) => {
                let mut i: usize = 0;
                while i < self.waiting.len()
                    invariant
                        self.wf(),
                        *self == *old(self),
                        msg == Message::Response(resp),
                        0 <= i <= self.waiting@.len(),
                        forall|k: int| 0 <= k < i ==> self.waiting@[k] != resp.id,
                    decreases self.waiting@.len() - i,
                {
                    if self.waiting[i] == resp.id {
                        let ghost before = self.waiting@;
                        assert(before[i as int] == resp.id);
                        assert(old(self).pending().contains(resp.id));
                        self.waiting.remove(i);
                        proof {
                            lemma_remove_waiter(before, self.waiting@, i as int, self.ids.next_id());
                        }
                        assert(self.pending() =~= old(self).pending().remove(resp.id));
                        return Delivery::Deliver { waiter: resp.id, response: resp };
                    }
                    i = i + 1;
                }
                assert(!old(self).pending().contains(resp.id));
                Delivery::Discard
            },
            Message::Notification(n) => Delivery::Forward(n),
            Message::Request(_) => Delivery::Discard,
        }
    }

    /// Stops waiting for request `id` (its waiter gave up); a response that
    /// comes later is discarded.
    pub fn cancel(&mut self, id: usize) -> (r: bool)
        requires
            old(self).wf(),
        ensures
            final(self).wf(),
            final(self).state_of() == old(self).state_of(),
            final(self).next_id_of() == old(self).next_id_of(),
            r == old(self).pending().contains(id),
            final(self).pending() == old(self).pending().remove(id),
    {
        let mut i: usize = 0;
        while i < self.waiting.len()
            invariant
                self.wf(),
                *self == *old(self),
                0 <= i <= self.waiting@.len(),
                forall|k: int| 0 <= k < i ==> self.waiting@[k] != id,
            decreases self.waiting@.len() - i,
        {
            if self.waiting[i] == id {
                let ghost before = self.waiting@;
                assert(before[i as int] == id);
                self.waiting.remove(i);
                proof {
                    lemma_remove_waiter(before, self.waiting@, i as int, self.ids.next_id());
                }
                assert(self.pending() =~= old(self).pending().remove(id));
                return true;
            }
            i = i + 1;
        }
        assert(!old(self).pending().contains(id));
        assert(self.pending() =~= old(self).pending().remove(id));
        false
    }

    /// The agent's output has ended: every request still awaiting a response
    /// is released, to fail with `AgentDisconnected`, and no new one is taken.
    pub fn on_end_of_stream(&mut self) -> (r: Vec<usize>)
        requires
            old(self).wf(),
        ensures
            final(self).wf(),
            final(self).state_of() == (if old(self).state_of() == SessionState::Closed {
                SessionState::Closed
            } else {
                SessionState::Draining
            }),
            final(self).pending() == Set::<usize>::empty(),
            final(self).next_id_of() == old(self).next_id_of(),
            r@.no_duplicates(),
            r@.to_set() == old(self).pending(),
    {
        let mut released: Vec<usize> = Vec::new();
        std::mem::swap(&mut released, &mut self.waiting);
        if self.state != SessionState::Closed {
            self.state = SessionState::Draining;
        }
        assert(self.pending() =~= Set::<usize>::empty());
        assert(released@.to_set() =~= old(self).pending());
        released
    }

    /// Ends the session; any request still awaiting a response is released.
    pub fn close(&mut self) -> (r: Vec<usize>)
        requires
            old(self).wf(),
        ensures
            final(self).wf(),
            final(self).state_of() == SessionState::Closed,
            final(self).pending() == Set::<usize>::empty(),
            r@.no_duplicates(),
            r@.to_set() == old(self).pending(),
    {
        let mut released: Vec<usize> = Vec::new();
        std::mem::swap(&mut released, &mut self.waiting);
        self.state = SessionState::Closed;
        assert(self.pending() =~= Set::<usize>::empty());
        assert(released@.to_set() =~= old(self).pending());
        released
    }
}

} // verus!
