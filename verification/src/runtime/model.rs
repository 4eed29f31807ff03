use crate::agent::{settle, AgentId, AgentModel, HandlerOutcome, LifeCycle, State};
use crate::handler::{Envelope, HandleResult};
use crate::network::Network;
use vstd::prelude::*;

verus! {

/// The mathematical value of a runtime: its agents in the order in which the
/// scheduler visits them, and the name index as a list of bindings.
#[verifier::reject_recursive_types(L)]
#[verifier::reject_recursive_types(N)]
pub ghost struct RuntimeModel<L, N: Network> {
    pub agents: Seq<AgentModel<L, N>>,
    pub names: Seq<(Seq<char>, AgentId)>,
}

/// Whether one of `agents` has this identifier.
pub open spec fn has_id<L: LifeCycle, N: Network>(
    agents: Seq<AgentModel<L, N>>,
    id: AgentId,
) -> bool {
    exists|i: int| 0 <= i < agents.len() && (#[trigger] agents[i]).id() == id
}

/// The position of the first of `agents` that has this identifier.
pub open spec fn first_with_id<L: LifeCycle, N: Network>(
    agents: Seq<AgentModel<L, N>>,
    id: AgentId,
) -> int
    recommends
        has_id(agents, id),
{
    choose|i: int|
        0 <= i < agents.len() && (#[trigger] agents[i]).id() == id && forall|j: int|
            0 <= j < i ==> (#[trigger] agents[j]).id() != id
}

/// Every one of `agents` is well formed.
pub open spec fn all_wf<L: LifeCycle, N: Network>(agents: Seq<AgentModel<L, N>>) -> bool {
    forall|i: int| 0 <= i < agents.len() ==> (#[trigger] agents[i]).wf()
}

/// No two of `agents` share an identifier.
pub open spec fn distinct_ids<L: LifeCycle, N: Network>(agents: Seq<AgentModel<L, N>>) -> bool {
    forall|i: int, j: int|
        0 <= i < j < agents.len() ==> (#[trigger] agents[i]).id() != (#[trigger] agents[j]).id()
}

/// `after` holds, place by place, agents with the identifiers of `before`.
pub open spec fn same_ids<L: LifeCycle, N: Network>(
    before: Seq<AgentModel<L, N>>,
    after: Seq<AgentModel<L, N>>,
) -> bool {
    &&& before.len() == after.len()
    &&& forall|i: int| 0 <= i < before.len() ==> (#[trigger] after[i]).id() == before[i].id()
}

/// The outcomes of the drain pass over `agents`, agent by agent in order.
pub open spec fn collected<L: LifeCycle, N: Network>(agents: Seq<AgentModel<L, N>>) -> Seq<
    HandlerOutcome<N>,
>
    decreases agents.len(),
{
    if agents.len() == 0 {
        Seq::empty()
    } else {
        collected(agents.drop_last()) + settle(agents.last()).1
    }
}

/// The envelope goes to every agent that has a handler for its type.
pub open spec fn route<L: LifeCycle, N: Network>(
    agents: Seq<AgentModel<L, N>>,
    envelope: Envelope<N>,
) -> Seq<AgentModel<L, N>> {
    Seq::new(
        agents.len(),
        |i: int|
            if agents[i].accepts(envelope.type_id) {
                agents[i].enqueue(envelope)
            } else {
                agents[i]
            },
    )
}

/// Every reply among `outcomes` is routed, in order.
pub open spec fn fan_out<L: LifeCycle, N: Network>(
    agents: Seq<AgentModel<L, N>>,
    outcomes: Seq<HandlerOutcome<N>>,
) -> Seq<AgentModel<L, N>>
    decreases outcomes.len(),
{
    if outcomes.len() == 0 {
        agents
    } else {
        let next = match outcomes.first() {
            HandleResult::Message(envelope) => route(agents, envelope),
            _ => agents,
        };
        fan_out(next, outcomes.drop_first())
    }
}

/// The replies among `outcomes` that `agent` has a handler for, in order.
pub open spec fn replies_for<L: LifeCycle, N: Network>(
    agent: AgentModel<L, N>,
    outcomes: Seq<HandlerOutcome<N>>,
) -> Seq<Envelope<N>>
    decreases outcomes.len(),
{
    if outcomes.len() == 0 {
        Seq::empty()
    } else {
        let rest = replies_for(agent, outcomes.drop_first());
        match outcomes.first() {
            HandleResult::Message(envelope) => if agent.accepts(envelope.type_id) {
                seq![envelope] + rest
            } else {
                rest
            },
            _ => rest,
        }
    }
}

/// The agent after the fan-out of `outcomes`: unless it is stopped, the replies
/// that it has a handler for are appended to its mailbox.
pub open spec fn receive_all<L: LifeCycle, N: Network>(
    agent: AgentModel<L, N>,
    outcomes: Seq<HandlerOutcome<N>>,
) -> AgentModel<L, N> {
    if agent.state == State::Stopped {
        agent
    } else {
        AgentModel { mailbox: agent.mailbox + replies_for(agent, outcomes), ..agent }
    }
}

/// How many envelopes wait in the mailboxes of `agents`.
pub open spec fn total_mail<L: LifeCycle, N: Network>(agents: Seq<AgentModel<L, N>>) -> nat
    decreases agents.len(),
{
    if agents.len() == 0 {
        0
    } else {
        total_mail(agents.drop_last()) + agents.last().mailbox.len()
    }
}

/// How many elements of `agents` are in `state`.
pub open spec fn count_in_state<L: LifeCycle, N: Network>(
    agents: Seq<AgentModel<L, N>>,
    state: State,
) -> nat
    decreases agents.len(),
{
    if agents.len() == 0 {
        0
    } else {
        count_in_state(agents.drop_last(), state) + if agents.last().state == state {
            1nat
        } else {
            0nat
        }
    }
}

/// How many elements of `agents` are running and have mail.
pub open spec fn count_ready<L: LifeCycle, N: Network>(agents: Seq<AgentModel<L, N>>) -> nat
    decreases agents.len(),
{
    if agents.len() == 0 {
        0
    } else {
        count_ready(agents.drop_last()) + if agents.last().needs_drain() {
            1nat
        } else {
            0nat
        }
    }
}

/// The identifiers of the elements of `agents`, in order.
pub open spec fn ids_of<L: LifeCycle, N: Network>(agents: Seq<AgentModel<L, N>>) -> Seq<AgentId> {
    Seq::new(agents.len(), |i: int| agents[i].id())
}

/// The identifiers of those elements of `agents` that are in `state`, in order.
pub open spec fn ids_in_state<L: LifeCycle, N: Network>(
    agents: Seq<AgentModel<L, N>>,
    state: State,
) -> Seq<AgentId>
    decreases agents.len(),
{
    if agents.len() == 0 {
        Seq::empty()
    } else if agents.last().state == state {
        ids_in_state(agents.drop_last(), state).push(agents.last().id())
    } else {
        ids_in_state(agents.drop_last(), state)
    }
}

impl<L: LifeCycle, N: Network> RuntimeModel<L, N> {
    /// The runtime without agents and names.
    pub open spec fn empty() -> Self {
        RuntimeModel { agents: Seq::empty(), names: Seq::empty() }
    }

    /// Whether an agent with this identifier is registered.
    pub open spec fn holds(self, id: AgentId) -> bool {
        has_id(self.agents, id)
    }

    /// The position of the first agent with this identifier.
    pub open spec fn slot(self, id: AgentId) -> int
        recommends
            self.holds(id),
    {
        first_with_id(self.agents, id)
    }

    /// The agent registered under this identifier.
    pub open spec fn agent(self, id: AgentId) -> AgentModel<L, N>
        recommends
            self.holds(id),
    {
        self.agents[self.slot(id)]
    }

    /// Whether the name index has a binding for this name.
    pub open spec fn knows(self, name: Seq<char>) -> bool {
        exists|i: int| 0 <= i < self.names.len() && self.names[i].0 == name
    }

    /// The position of the first binding of this name.
    pub open spec fn binding(self, name: Seq<char>) -> int
        recommends
            self.knows(name),
    {
        choose|i: int|
            0 <= i < self.names.len() && self.names[i].0 == name && forall|j: int|
                0 <= j < i ==> (#[trigger] self.names[j]).0 != name
    }

    /// The identifier that a name resolves to.
    pub open spec fn resolve(self, name: Seq<char>) -> Option<AgentId> {
        if self.knows(name) {
            Some(self.names[self.binding(name)].1)
        } else {
            None
        }
    }

    /// Whether some name is bound to this identifier.
    pub open spec fn named(self, id: AgentId) -> bool {
        exists|i: int| 0 <= i < self.names.len() && self.names[i].1 == id
    }

    /// The position of the first binding to this identifier.
    pub open spec fn label(self, id: AgentId) -> int
        recommends
            self.named(id),
    {
        choose|i: int|
            0 <= i < self.names.len() && self.names[i].1 == id && forall|j: int|
                0 <= j < i ==> (#[trigger] self.names[j]).1 != id
    }

    /// No two agents share an identifier, every agent is well formed, and the
    /// name index is a one-to-one map from names to registered identifiers.
    pub open spec fn wf(self) -> bool {
        &&& all_wf(self.agents)
        &&& distinct_ids(self.agents)
        &&& forall|i: int, j: int|
            0 <= i < j < self.names.len() ==> (#[trigger] self.names[i]).0 != (
            #[trigger] self.names[j]).0
        &&& forall|i: int, j: int|
            0 <= i < j < self.names.len() ==> (#[trigger] self.names[i]).1 != (
            #[trigger] self.names[j]).1
        &&& forall|i: int| 0 <= i < self.names.len() ==> self.holds((#[trigger] self.names[i]).1)
    }

    /// The agent with this identifier is replaced by `agent`.
    pub open spec fn put(self, id: AgentId, agent: AgentModel<L, N>) -> Self
        recommends
            self.holds(id),
    {
        RuntimeModel { agents: self.agents.update(self.slot(id), agent), ..self }
    }

    /// The agent with this identifier leaves, and with it the name bound to it.
    pub open spec fn remove(self, id: AgentId) -> Self {
        RuntimeModel {
            agents: if self.holds(id) {
                self.agents.remove(self.slot(id))
            } else {
                self.agents
            },
            names: if self.named(id) {
                self.names.remove(self.label(id))
            } else {
                self.names
            },
        }
    }

    /// What a lifecycle or routing call by name does: the name is resolved,
    /// and `change` is applied to the agent it resolves to.
    pub open spec fn put_named(
        self,
        name: Seq<char>,
        change: spec_fn(AgentModel<L, N>) -> AgentModel<L, N>,
    ) -> Self {
        match self.resolve(name) {
            Some(id) => if self.holds(id) {
                self.put(id, change(self.agent(id)))
            } else {
                self
            },
            None => self,
        }
    }

    /// The binding of this name leaves the name index.
    pub open spec fn forget(self, name: Seq<char>) -> Self {
        RuntimeModel {
            names: if self.knows(name) {
                self.names.remove(self.binding(name))
            } else {
                self.names
            },
            ..self
        }
    }

    /// The agent joins the runtime. An agent that held the same identifier
    /// leaves first.
    pub open spec fn register(self, agent: AgentModel<L, N>) -> Self {
        let cleared = self.remove(agent.id());
        RuntimeModel { agents: cleared.agents.push(agent), ..cleared }
    }

    /// The agent joins the runtime under a name that the index does not know.
    pub open spec fn register_named(self, name: Seq<char>, agent: AgentModel<L, N>) -> Self
        recommends
            !self.knows(name),
    {
        let joined = self.register(agent);
        RuntimeModel { names: joined.names.push((name, agent.id())), ..joined }
    }

    /// The agent joins again, under the name it carries, if it carries one.
    pub open spec fn reinsert(self, agent: AgentModel<L, N>) -> Self {
        match agent.name {
            Some(name) => self.forget(name).register_named(name, agent),
            None => self.register(agent),
        }
    }

    /// The envelope goes to every agent that has a handler for its type.
    pub open spec fn broadcast(self, envelope: Envelope<N>) -> Self {
        RuntimeModel { agents: route(self.agents, envelope), ..self }
    }

    /// The agents after the drain pass of a step.
    pub open spec fn drained(self) -> Seq<AgentModel<L, N>> {
        Seq::new(self.agents.len(), |i: int| settle(self.agents[i]).0)
    }

    /// One cooperative step: every ready agent drains, then every reply that
    /// the handlers produced is routed to the agents that accept its type.
    pub open spec fn step(self) -> Self {
        RuntimeModel { agents: fan_out(self.drained(), collected(self.agents)), ..self }
    }

    /// `n` steps, one after the other.
    pub open spec fn steps(self, n: nat) -> Self
        decreases n,
    {
        if n == 0 {
            self
        } else {
            self.step().steps((n - 1) as nat)
        }
    }

    /// How many agents are running and have mail.
    pub open spec fn needing_processing(self) -> nat {
        count_ready(self.agents)
    }

    /// Whether a step would find an agent to drain.
    pub open spec fn has_pending_work(self) -> bool {
        self.needing_processing() > 0
    }

    /// Steps are taken while there is work, at most `rounds` of them. The
    /// number is the count of handler outcomes over all those steps.
    pub open spec fn settle_all(self, rounds: nat) -> (Self, nat)
        decreases rounds,
    {
        if rounds == 0 || !self.has_pending_work() {
            (self, 0)
        } else {
            let (last, handled) = self.step().settle_all((rounds - 1) as nat);
            (last, collected(self.agents).len() + handled)
        }
    }

    /// How many steps `settle_all` takes.
    pub open spec fn rounds_taken(self, rounds: nat) -> nat
        decreases rounds,
    {
        if rounds == 0 || !self.has_pending_work() {
            0
        } else {
            1 + self.step().rounds_taken((rounds - 1) as nat)
        }
    }

    /// Every agent after `start`.
    pub open spec fn start_all(self) -> Self {
        RuntimeModel {
            agents: Seq::new(self.agents.len(), |i: int| self.agents[i].start()),
            ..self
        }
    }

    /// Every agent after `pause`.
    pub open spec fn pause_all(self) -> Self {
        RuntimeModel {
            agents: Seq::new(self.agents.len(), |i: int| self.agents[i].pause()),
            ..self
        }
    }

    /// Every agent after `stop`.
    pub open spec fn stop_all(self) -> Self {
        RuntimeModel {
            agents: Seq::new(self.agents.len(), |i: int| self.agents[i].stop()),
            ..self
        }
    }

    /// Every paused agent resumes and works off its backlog. The outcomes of
    /// these drains are not routed.
    pub open spec fn resume_all(self) -> Self {
        RuntimeModel {
            agents: Seq::new(self.agents.len(), |i: int| self.agents[i].resume().0),
            ..self
        }
    }

    /// The agent with this identifier resumes and works off its backlog. The
    /// outcomes of that drain are not routed.
    pub open spec fn resume(self, id: AgentId) -> Self
        recommends
            self.holds(id),
    {
        self.put(id, self.agent(id).resume().0)
    }
}

} // verus!
