pub mod model;
pub mod wasm;

use crate::agent::{
    settle, Agent, AgentId, AgentModel, HandlerOutcome, LifeCycle, State,
};
use crate::handler::{Envelope, HandleResult, Message, Package};
use crate::laws::mailbox::run_frame;
use crate::laws::registry::{
    changed_in_place, forget_wf, register_named_wf, register_reads, register_wf, reinsert_wf,
    remove_wf,
};
use crate::laws::scheduler::{
    broadcast_keeps_wf, bulk_keeps_wf, settle_all_frame, settle_frame, step_frame,
};
use crate::network::Network;
use crate::runtime::model::{
    collected, count_in_state, count_ready, fan_out, ids_in_state, ids_of, route, RuntimeModel,
};
use crate::text::{decimal, decimal_text};
use vstd::prelude::*;
use vstd::string::StringExecFns;

verus! {

/// Why a routing or lifecycle call on the runtime was refused.
#[derive(Debug)]
pub enum RuntimeError {
    /// No agent is registered under this identifier.
    UnknownId(AgentId),
    /// The name index has no binding for this name.
    UnknownName(String),
    /// The name index already has a binding for this name.
    DuplicateName(String),
}

impl RuntimeError {
    /// What the refusal says, in words.
    pub open spec fn message_spec(&self) -> Seq<char> {
        match self {
            RuntimeError::UnknownId(id) => "Agent with ID "@ + decimal(id.value as nat)
                + " not found"@,
            RuntimeError::UnknownName(name) => "Agent '"@ + name@ + "' not found"@,
            RuntimeError::DuplicateName(name) => "Agent name '"@ + name@ + "' already exists"@,
        }
    }

    /// What the refusal says, in words.
    pub fn message(&self) -> (text: String)
        ensures
            text@ == self.message_spec(),
    {
        match self {
            RuntimeError::UnknownId(id) => {
                let mut text = String::from_str("Agent with ID ");
                let number = decimal_text(id.value());
                text.append(number.as_str());
                text.append(" not found");
                text
            },
            RuntimeError::UnknownName(name) => {
                let mut text = String::from_str("Agent '");
                text.append(name.as_str());
                text.append("' not found");
                text
            },
            RuntimeError::DuplicateName(name) => {
                let mut text = String::from_str("Agent name '");
                text.append(name.as_str());
                text.append("' already exists");
                text
            },
        }
    }
}

/// How many agents a runtime holds, in all and by what they are doing.
#[derive(Clone, Copy, Debug, PartialEq, Eq, Structural)]
pub struct RuntimeStatistics {
    pub total_agents: usize,
    pub running_agents: usize,
    pub paused_agents: usize,
    pub stopped_agents: usize,
    pub agents_with_pending_messages: usize,
}

/// Owns a set of agents, routes messages to them and drains their mailboxes in
/// cooperative steps.
///
/// The agents of one runtime share the type of their user state. Where agents
/// of several kinds live together, the kinds are the variants of that type.
/// A step visits the agents in the order in which they were registered.
#[verifier::reject_recursive_types(L)]
#[verifier::reject_recursive_types(N)]
pub struct Runtime<L: LifeCycle, N: Network> {
    agents: Vec<Agent<L, N>>,
    names: Vec<(String, AgentId)>,
}

impl<L: LifeCycle, N: Network> View for Runtime<L, N> {
    type V = RuntimeModel<L, N>;

    closed spec fn view(&self) -> RuntimeModel<L, N> {
        RuntimeModel {
            agents: Seq::new(self.agents@.len(), |i: int| self.agents@[i]@),
            names: Seq::new(self.names@.len(), |i: int| (self.names@[i].0@, self.names@[i].1)),
        }
    }
}

impl<L: LifeCycle, N: Network> Default for Runtime<L, N> {
    fn default() -> (runtime: Self)
        ensures
            runtime@ == RuntimeModel::<L, N>::empty(),
            runtime@.wf(),
    {
        Self::new()
    }
}

impl<L: LifeCycle, N: Network> Runtime<L, N> {
    /// A runtime without agents.
    pub fn new() -> (runtime: Self)
        ensures
            runtime@ == RuntimeModel::<L, N>::empty(),
            runtime@.wf(),
    {
        let runtime = Runtime { agents: Vec::new(), names: Vec::new() };
        assert(runtime@.agents =~= Seq::empty());
        assert(runtime@.names =~= Seq::empty());
        runtime
    }

    /// The position of the first agent with this identifier.
    fn find(&self, id: AgentId) -> (slot: Option<usize>)
        ensures
            match slot {
                Some(i) => self@.holds(id) && i == self@.slot(id) && i < self.agents.len(),
                None => !self@.holds(id),
            },
    {
        let mut i: usize = 0;
        while i < self.agents.len()
            invariant
                i <= self.agents.len(),
                forall|j: int| 0 <= j < i ==> (#[trigger] self@.agents[j]).id() != id,
            decreases self.agents.len() - i,
        {
            if self.agents[i].id() == id {
                assert(self@.agents[i as int].id() == id);
                return Some(i);
            }
            i += 1;
        }
        None
    }

    /// The position of the first binding of this name.
    fn find_name(&self, name: &String) -> (slot: Option<usize>)
        ensures
            match slot {
                Some(i) => self@.knows(name@) && i == self@.binding(name@) && i < self.names.len(),
                None => !self@.knows(name@),
            },
    {
        let mut i: usize = 0;
        while i < self.names.len()
            invariant
                i <= self.names.len(),
                forall|j: int| 0 <= j < i ==> (#[trigger] self@.names[j]).0 != name@,
            decreases self.names.len() - i,
        {
            if self.names[i].0 == *name {
                assert(self@.names[i as int].0 == name@);
                return Some(i);
            }
            i += 1;
        }
        None
    }

    /// The position of the first binding to this identifier.
    fn find_label(&self, id: AgentId) -> (slot: Option<usize>)
        ensures
            match slot {
                Some(i) => self@.named(id) && i == self@.label(id) && i < self.names.len(),
                None => !self@.named(id),
            },
    {
        let mut i: usize = 0;
        while i < self.names.len()
            invariant
                i <= self.names.len(),
                forall|j: int| 0 <= j < i ==> (#[trigger] self@.names[j]).1 != id,
            decreases self.names.len() - i,
        {
            if self.names[i].1 == id {
                assert(self@.names[i as int].1 == id);
                return Some(i);
            }
            i += 1;
        }
        None
    }

    /// Takes the first binding to this identifier out of the name index.
    fn unbind(&mut self, id: AgentId)
        ensures
            final(self)@.agents == old(self)@.agents,
            final(self)@.names == old(self)@.remove(id).names,
    {
        match self.find_label(id) {
            Some(l) => {
                self.names.remove(l);
                assert(self@.names =~= old(self)@.names.remove(l as int));
            },
            None => {},
        }
        assert(self@.agents =~= old(self)@.agents);
    }

    /// Takes the first agent with this identifier out.
    fn take(&mut self, id: AgentId) -> (agent: Option<Agent<L, N>>)
        ensures
            final(self)@.agents == old(self)@.remove(id).agents,
            final(self)@.names == old(self)@.names,
            match agent {
                Some(a) => old(self)@.holds(id) && a@ == old(self)@.agent(id),
                None => !old(self)@.holds(id),
            },
    {
        let agent = match self.find(id) {
            Some(i) => {
                let agent = self.agents.remove(i);
                assert(self@.agents =~= old(self)@.agents.remove(i as int));
                Some(agent)
            },
            None => None,
        };
        assert(self@.names =~= old(self)@.names);
        agent
    }

    /// Takes the agent with this identifier out, and the name bound to it.
    fn evict(&mut self, id: AgentId) -> (agent: Option<Agent<L, N>>)
        ensures
            final(self)@ == old(self)@.remove(id),
            match agent {
                Some(a) => old(self)@.holds(id) && a@ == old(self)@.agent(id),
                None => !old(self)@.holds(id),
            },
            old(self)@.wf() ==> final(self)@.wf(),
    {
        proof {
            if old(self)@.wf() {
                remove_wf(old(self)@, id);
            }
        }
        self.unbind(id);
        let ghost unbound = self@;
        assert(unbound.holds(id) == old(self)@.holds(id));
        assert(unbound.slot(id) == old(self)@.slot(id));
        self.take(id)
    }

    /// Takes the binding of this name out of the name index.
    fn forget(&mut self, name: &String)
        ensures
            final(self)@ == old(self)@.forget(name@),
            old(self)@.wf() ==> final(self)@.wf(),
    {
        proof {
            if old(self)@.wf() {
                forget_wf(old(self)@, name@);
            }
        }
        match self.find_name(name) {
            Some(l) => {
                self.names.remove(l);
            },
            None => {},
        }
        assert(self@.agents =~= old(self)@.forget(name@).agents);
        assert(self@.names =~= old(self)@.forget(name@).names);
    }

    /// Takes the agent in and returns its identifier. An agent that was
    /// registered under the same identifier leaves the runtime.
    pub fn register_agent(&mut self, agent: Agent<L, N>) -> (id: AgentId)
        ensures
            id == agent@.id(),
            final(self)@ == old(self)@.register(agent@),
            final(self)@.holds(id),
            old(self)@.wf() ==> final(self)@.agent(id) == agent@,
            old(self)@.wf() && agent@.wf() ==> final(self)@.wf(),
    {
        proof {
            if old(self)@.wf() && agent@.wf() {
                register_wf(old(self)@, agent@);
            }
            register_reads(old(self)@, agent@, agent@.id());
        }
        let id = agent.id();
        self.evict(id);
        self.agents.push(agent);
        assert(self@.agents =~= old(self)@.register(agent@).agents);
        assert(self@.names =~= old(self)@.register(agent@).names);
        id
    }

    /// Takes the agent in under a name. A name that is already bound is
    /// refused, and the runtime stays as it was.
    pub fn register_named_agent(&mut self, name: &str, agent: Agent<L, N>) -> (result: Result<
        AgentId,
        RuntimeError,
    >)
        ensures
            match result {
                Ok(id) => !old(self)@.knows(name@) && id == agent@.id() && final(self)@ == old(
                    self,
                )@.register_named(name@, agent@),
                Err(RuntimeError::DuplicateName(n)) => old(self)@.knows(name@) && n@ == name@
                    && final(self)@ == old(self)@,
                Err(_) => false,
            },
            old(self)@.wf() && agent@.wf() ==> final(self)@.wf(),
    {
        proof {
            if old(self)@.wf() && agent@.wf() && !old(self)@.knows(name@) {
                register_named_wf(old(self)@, name@, agent@);
            }
        }
        let key = name.to_owned();
        if self.find_name(&key).is_some() {
            return Err(RuntimeError::DuplicateName(key));
        }
        let id = self.register_agent(agent);
        self.names.push((key, id));
        assert(self@.agents =~= old(self)@.register_named(name@, agent@).agents);
        assert(self@.names =~= old(self)@.register_named(name@, agent@).names);
        Ok(id)
    }

    /// Takes an agent in again that was removed before, under the name that
    /// the agent carries, if it carries one.
    pub fn reinsert_agent(&mut self, agent: Agent<L, N>) -> (id: AgentId)
        ensures
            id == agent@.id(),
            final(self)@ == old(self)@.reinsert(agent@),
            old(self)@.wf() && agent@.wf() ==> final(self)@.wf(),
    {
        proof {
            if old(self)@.wf() && agent@.wf() {
                reinsert_wf(old(self)@, agent@);
            }
        }
        let label = match agent.name() {
            Some(n) => Some(n.to_owned()),
            None => None,
        };
        match label {
            Some(key) => {
                self.forget(&key);
                let id = self.register_agent(agent);
                self.names.push((key, id));
                assert(self@.agents =~= old(self)@.reinsert(agent@).agents);
                assert(self@.names =~= old(self)@.reinsert(agent@).names);
                id
            },
            None => self.register_agent(agent),
        }
    }

    /// Registers the agent and starts it.
    pub fn spawn_agent(&mut self, agent: Agent<L, N>) -> (id: AgentId)
        ensures
            id == agent@.id(),
            final(self)@ == old(self)@.register(agent@.start()),
            final(self)@.holds(id),
            old(self)@.wf() ==> final(self)@.agent(id) == agent@.start(),
            old(self)@.wf() && agent@.wf() ==> final(self)@.wf(),
    {
        let mut agent = agent;
        agent.start();
        self.register_agent(agent)
    }

    /// Registers the agent under a name and starts it. A name that is already
    /// bound is refused, and neither the runtime nor the agent changes.
    pub fn spawn_named_agent(&mut self, name: &str, agent: Agent<L, N>) -> (result: Result<
        AgentId,
        RuntimeError,
    >)
        ensures
            match result {
                Ok(id) => !old(self)@.knows(name@) && id == agent@.id() && final(self)@ == old(
                    self,
                )@.register_named(name@, agent@.start()),
                Err(RuntimeError::DuplicateName(n)) => old(self)@.knows(name@) && n@ == name@
                    && final(self)@ == old(self)@,
                Err(_) => false,
            },
            old(self)@.wf() && agent@.wf() ==> final(self)@.wf(),
    {
        let key = name.to_owned();
        if self.find_name(&key).is_some() {
            return Err(RuntimeError::DuplicateName(key));
        }
        let mut agent = agent;
        agent.start();
        self.register_named_agent(name, agent)
    }

    /// The identifier that the name resolves to.
    pub fn agent_id_by_name(&self, name: &str) -> (id: Option<AgentId>)
        ensures
            id == self@.resolve(name@),
    {
        let key = name.to_owned();
        match self.find_name(&key) {
            Some(i) => Some(self.names[i].1),
            None => None,
        }
    }

    /// Takes the agent with this identifier out of the runtime and hands it to
    /// the caller, untouched. The name bound to it leaves the name index.
    pub fn remove_agent_by_id(&mut self, agent_id: AgentId) -> (result: Result<
        Agent<L, N>,
        RuntimeError,
    >)
        ensures
            final(self)@ == old(self)@.remove(agent_id),
            match result {
                Ok(agent) => old(self)@.holds(agent_id) && agent@ == old(self)@.agent(agent_id),
                Err(RuntimeError::UnknownId(id)) => !old(self)@.holds(agent_id) && id == agent_id,
                Err(_) => false,
            },
            old(self)@.wf() ==> final(self)@.wf(),
    {
        match self.evict(agent_id) {
            Some(agent) => Ok(agent),
            None => Err(RuntimeError::UnknownId(agent_id)),
        }
    }

    /// How many agents the runtime holds.
    pub fn agent_count(&self) -> (count: usize)
        ensures
            count == self@.agents.len(),
    {
        self.agents.len()
    }

    /// The state of the agent with this identifier, if one is registered.
    pub fn agent_state_by_id(&self, agent_id: AgentId) -> (state: Option<State>)
        ensures
            state == if self@.holds(agent_id) {
                Some(self@.agent(agent_id).state)
            } else {
                None
            },
    {
        match self.find(agent_id) {
            Some(i) => Some(self.agents[i].state()),
            None => None,
        }
    }

    /// Starts the agent with this identifier. A start that the agent's state
    /// does not allow changes nothing and is no error.
    pub fn start_agent_by_id(&mut self, agent_id: AgentId) -> (result: Result<(), RuntimeError>)
        ensures
            old(self)@.holds(agent_id) ==> result.is_ok() && final(self)@ == old(self)@.put(
                agent_id,
                old(self)@.agent(agent_id).start(),
            ),
            old(self)@.holds(agent_id) ==> final(self)@.holds(agent_id) && final(self)@.agent(
                agent_id,
            ) == old(self)@.agent(agent_id).start(),
            !old(self)@.holds(agent_id) ==> result == Err::<(), RuntimeError>(
                RuntimeError::UnknownId(agent_id),
            ) && final(self)@ == old(self)@,
            old(self)@.wf() ==> final(self)@.wf(),
    {
        proof {
            if old(self)@.holds(agent_id) {
                changed_in_place(old(self)@, agent_id, old(self)@.agent(agent_id).start());
            }
        }
        match self.find(agent_id) {
            Some(i) => {
                self.agents[i].start();
                assert(self@.agents =~= old(self)@.agents.update(
                    i as int,
                    old(self)@.agents[i as int].start(),
                ));
                assert(self@.names =~= old(self)@.names);
                Ok(())
            },
            None => Err(RuntimeError::UnknownId(agent_id)),
        }
    }

    /// Pauses the agent with this identifier, if it is running.
    pub fn pause_agent_by_id(&mut self, agent_id: AgentId) -> (result: Result<(), RuntimeError>)
        ensures
            old(self)@.holds(agent_id) ==> result.is_ok() && final(self)@ == old(self)@.put(
                agent_id,
                old(self)@.agent(agent_id).pause(),
            ),
            old(self)@.holds(agent_id) ==> final(self)@.holds(agent_id) && final(self)@.agent(
                agent_id,
            ) == old(self)@.agent(agent_id).pause(),
            !old(self)@.holds(agent_id) ==> result == Err::<(), RuntimeError>(
                RuntimeError::UnknownId(agent_id),
            ) && final(self)@ == old(self)@,
            old(self)@.wf() ==> final(self)@.wf(),
    {
        proof {
            if old(self)@.holds(agent_id) {
                changed_in_place(old(self)@, agent_id, old(self)@.agent(agent_id).pause());
            }
        }
        match self.find(agent_id) {
            Some(i) => {
                self.agents[i].pause();
                assert(self@.agents =~= old(self)@.agents.update(
                    i as int,
                    old(self)@.agents[i as int].pause(),
                ));
                assert(self@.names =~= old(self)@.names);
                Ok(())
            },
            None => Err(RuntimeError::UnknownId(agent_id)),
        }
    }

    /// Stops the agent with this identifier, unless it is stopped already. Its
    /// mailbox is cleared.
    pub fn stop_agent_by_id(&mut self, agent_id: AgentId) -> (result: Result<(), RuntimeError>)
        ensures
            old(self)@.holds(agent_id) ==> result.is_ok() && final(self)@ == old(self)@.put(
                agent_id,
                old(self)@.agent(agent_id).stop(),
            ),
            old(self)@.holds(agent_id) ==> final(self)@.holds(agent_id) && final(self)@.agent(
                agent_id,
            ) == old(self)@.agent(agent_id).stop(),
            !old(self)@.holds(agent_id) ==> result == Err::<(), RuntimeError>(
                RuntimeError::UnknownId(agent_id),
            ) && final(self)@ == old(self)@,
            old(self)@.wf() ==> final(self)@.wf(),
    {
        proof {
            if old(self)@.holds(agent_id) {
                changed_in_place(old(self)@, agent_id, old(self)@.agent(agent_id).stop());
            }
        }
        match self.find(agent_id) {
            Some(i) => {
                self.agents[i].stop();
                assert(self@.agents =~= old(self)@.agents.update(
                    i as int,
                    old(self)@.agents[i as int].stop(),
                ));
                assert(self@.names =~= old(self)@.names);
                Ok(())
            },
            None => Err(RuntimeError::UnknownId(agent_id)),
        }
    }

    /// Resumes the agent with this identifier, if it is paused. The agent
    /// works off its backlog at once. What the handlers return in that drain is
    /// not routed, and a handler that asks to stop only ends the drain.
    pub fn resume_agent_by_id(&mut self, agent_id: AgentId) -> (result: Result<(), RuntimeError>)
        ensures
            old(self)@.holds(agent_id) ==> result.is_ok() && final(self)@ == old(self)@.put(
                agent_id,
                old(self)@.agent(agent_id).resume().0,
            ),
            old(self)@.holds(agent_id) ==> final(self)@.holds(agent_id) && final(self)@.agent(
                agent_id,
            ) == old(self)@.agent(agent_id).resume().0,
            !old(self)@.holds(agent_id) ==> result == Err::<(), RuntimeError>(
                RuntimeError::UnknownId(agent_id),
            ) && final(self)@ == old(self)@,
            old(self)@.wf() ==> final(self)@.wf(),
    {
        proof {
            if old(self)@.holds(agent_id) {
                settle_frame(old(self)@.agent(agent_id));
                run_frame(
                    AgentModel {
                        state: State::Running,
                        inner: old(self)@.agent(agent_id).inner.resumed(),
                        ..old(self)@.agent(agent_id)
                    },
                );
                changed_in_place(old(self)@, agent_id, old(self)@.agent(agent_id).resume().0);
            }
        }
        match self.find(agent_id) {
            Some(i) => {
                self.agents[i].resume();
                assert(self@.agents =~= old(self)@.agents.update(
                    i as int,
                    old(self)@.agents[i as int].resume().0,
                ));
                assert(self@.names =~= old(self)@.names);
                Ok(())
            },
            None => Err(RuntimeError::UnknownId(agent_id)),
        }
    }

    /// Hands the envelope to every agent that has a handler for its type. The
    /// recipients share the payload.
    fn route_reply_to_agents(&mut self, reply: &Envelope<N>)
        ensures
            final(self)@ == old(self)@.broadcast(*reply),
            old(self)@.wf() ==> final(self)@.wf(),
    {
        proof {
            if old(self)@.wf() {
                broadcast_keeps_wf(old(self)@, *reply);
            }
        }
        let mut i: usize = 0;
        while i < self.agents.len()
            invariant
                i <= self.agents.len(),
                self.agents.len() == old(self).agents.len(),
                self.names == old(self).names,
                forall|j: int|
                    0 <= j < i ==> (#[trigger] self.agents@[j])@ == route(
                        old(self)@.agents,
                        *reply,
                    )[j],
                forall|j: int|
                    i <= j < self.agents.len() ==> (#[trigger] self.agents@[j])
                        == old(self).agents@[j],
            decreases self.agents.len() - i,
        {
            if self.agents[i].accepts(reply.type_id) {
                self.agents[i].enqueue(reply.clone());
            }
            i += 1;
        }
        assert(self@.agents =~= route(old(self)@.agents, *reply));
        assert(self@.names =~= old(self)@.names);
    }

    /// Routes every reply among the outcomes, in order.
    fn fan_out_replies(&mut self, outcomes: &Vec<HandlerOutcome<N>>)
        ensures
            final(self)@.agents == fan_out(old(self)@.agents, outcomes@),
            final(self)@.names == old(self)@.names,
    {
        let mut k: usize = 0;
        assert(outcomes@.skip(0) =~= outcomes@);
        while k < outcomes.len()
            invariant
                k <= outcomes.len(),
                self@.names == old(self)@.names,
                fan_out(self@.agents, outcomes@.skip(k as int)) == fan_out(
                    old(self)@.agents,
                    outcomes@,
                ),
            decreases outcomes.len() - k,
        {
            proof {
                assert(outcomes@.skip(k as int).first() == outcomes@[k as int]);
                assert(outcomes@.skip(k as int).drop_first() =~= outcomes@.skip(k as int + 1));
            }
            match &outcomes[k] {
                HandleResult::Message(envelope) => {
                    self.route_reply_to_agents(envelope);
                },
                _ => {},
            }
            k += 1;
        }
        assert(outcomes@.skip(k as int).len() == 0);
    }

    /// Sends the message to every agent that has a handler for its type. The
    /// message is packaged once.
    pub fn broadcast_message<M>(&mut self, message: M) where M: Message, N::Payload: Package<M>
        ensures
            final(self)@ == old(self)@.broadcast(Envelope::<N>::packaged(message)),
            old(self)@.wf() ==> final(self)@.wf(),
    {
        let envelope = Envelope::<N>::package(message);
        self.route_reply_to_agents(&envelope);
    }

    /// Puts the message into the mailbox of the agent with this identifier,
    /// whether or not that agent has a handler for it.
    pub fn send_to_agent_by_id<M>(&mut self, agent_id: AgentId, message: M) -> (result: Result<
        (),
        RuntimeError,
    >) where M: Message, N::Payload: Package<M>
        ensures
            old(self)@.holds(agent_id) ==> result.is_ok() && final(self)@ == old(self)@.put(
                agent_id,
                old(self)@.agent(agent_id).enqueue(Envelope::<N>::packaged(message)),
            ),
            old(self)@.holds(agent_id) ==> final(self)@.holds(agent_id) && final(self)@.agent(
                agent_id,
            ) == old(self)@.agent(agent_id).enqueue(Envelope::<N>::packaged(message)),
            !old(self)@.holds(agent_id) ==> result == Err::<(), RuntimeError>(
                RuntimeError::UnknownId(agent_id),
            ) && final(self)@ == old(self)@,
            old(self)@.wf() ==> final(self)@.wf(),
    {
        proof {
            if old(self)@.holds(agent_id) {
                changed_in_place(
                    old(self)@,
                    agent_id,
                    old(self)@.agent(agent_id).enqueue(Envelope::<N>::packaged(message)),
                );
            }
        }
        match self.find(agent_id) {
            Some(i) => {
                self.agents[i].enqueue(Envelope::<N>::package(message));
                assert(self@.agents =~= old(self)@.agents.update(
                    i as int,
                    old(self)@.agents[i as int].enqueue(Envelope::<N>::packaged(message)),
                ));
                assert(self@.names =~= old(self)@.names);
                Ok(())
            },
            None => Err(RuntimeError::UnknownId(agent_id)),
        }
    }

    /// The drain pass of a step.
    fn sweep(&mut self) -> (outcomes: Vec<HandlerOutcome<N>>)
        ensures
            final(self)@.agents == old(self)@.drained(),
            final(self)@.names == old(self)@.names,
            outcomes@ == collected(old(self)@.agents),
    {
        let mut outcomes: Vec<HandlerOutcome<N>> = Vec::new();
        let mut i: usize = 0;
        assert(old(self)@.agents.take(0) =~= Seq::empty());
        while i < self.agents.len()
            invariant
                i <= self.agents.len(),
                self.agents.len() == old(self).agents.len(),
                self.names == old(self).names,
                forall|j: int|
                    0 <= j < i ==> (#[trigger] self.agents@[j])@ == settle(
                        old(self).agents@[j]@,
                    ).0,
                forall|j: int|
                    i <= j < self.agents.len() ==> (#[trigger] self.agents@[j])
                        == old(self).agents@[j],
                outcomes@ == collected(old(self)@.agents.take(i as int)),
            decreases self.agents.len() - i,
        {
            proof {
                let prefix = old(self)@.agents.take(i as int + 1);
                assert(prefix.drop_last() =~= old(self)@.agents.take(i as int));
                assert(prefix.last() == old(self)@.agents[i as int]);
            }
            if self.agents[i].needs_drain() {
                let mut produced = self.agents[i].drain();
                if produced.len() > 0 && produced[produced.len() - 1].is_stop() {
                    self.agents[i].stop();
                }
                outcomes.append(&mut produced);
            } else {
                assert(outcomes@ + Seq::<HandlerOutcome<N>>::empty() == outcomes@);
            }
            i += 1;
        }
        assert(old(self)@.agents.take(i as int) =~= old(self)@.agents);
        assert(self@.agents =~= old(self)@.drained());
        assert(self@.names =~= old(self)@.names);
        outcomes
    }

    /// One cooperative step. Every running agent with mail drains its mailbox;
    /// then every reply is routed to the agents that accept its type. What the
    /// routed replies cause is work for the next step.
    pub fn step(&mut self)
        ensures
            final(self)@ == old(self)@.step(),
            old(self)@.wf() ==> final(self)@.wf(),
    {
        proof {
            step_frame(old(self)@);
        }
        let outcomes = self.sweep();
        self.fan_out_replies(&outcomes);
    }

    /// The agent with this identifier, for inspection.
    pub fn agent(&self, agent_id: AgentId) -> (agent: Option<&Agent<L, N>>)
        ensures
            match agent {
                Some(a) => self@.holds(agent_id) && a@ == self@.agent(agent_id),
                None => !self@.holds(agent_id),
            },
    {
        match self.find(agent_id) {
            Some(i) => Some(&self.agents[i]),
            None => None,
        }
    }

    /// The state of the agent that the name resolves to.
    pub fn agent_state_by_name(&self, agent_name: &str) -> (state: Option<State>)
        ensures
            state == match self@.resolve(agent_name@) {
                Some(id) => if self@.holds(id) {
                    Some(self@.agent(id).state)
                } else {
                    None
                },
                None => None,
            },
    {
        match self.agent_id_by_name(agent_name) {
            Some(id) => self.agent_state_by_id(id),
            None => None,
        }
    }

    /// How many agents are in `state`.
    fn count_state(&self, state: State) -> (n: usize)
        ensures
            n == count_in_state(self@.agents, state),
    {
        let mut n: usize = 0;
        let mut i: usize = 0;
        assert(self@.agents.take(0) =~= Seq::empty());
        while i < self.agents.len()
            invariant
                i <= self.agents.len(),
                n <= i,
                n == count_in_state(self@.agents.take(i as int), state),
            decreases self.agents.len() - i,
        {
            proof {
                let prefix = self@.agents.take(i as int + 1);
                assert(prefix.drop_last() =~= self@.agents.take(i as int));
                assert(prefix.last() == self@.agents[i as int]);
            }
            if self.agents[i].state() == state {
                n += 1;
            }
            i += 1;
        }
        assert(self@.agents.take(i as int) =~= self@.agents);
        n
    }

    /// How many agents are running and have mail.
    pub fn agents_needing_processing(&self) -> (n: usize)
        ensures
            n == self@.needing_processing(),
    {
        let mut n: usize = 0;
        let mut i: usize = 0;
        assert(self@.agents.take(0) =~= Seq::empty());
        while i < self.agents.len()
            invariant
                i <= self.agents.len(),
                n <= i,
                n == count_ready(self@.agents.take(i as int)),
            decreases self.agents.len() - i,
        {
            proof {
                let prefix = self@.agents.take(i as int + 1);
                assert(prefix.drop_last() =~= self@.agents.take(i as int));
                assert(prefix.last() == self@.agents[i as int]);
            }
            if self.agents[i].needs_drain() {
                n += 1;
            }
            i += 1;
        }
        assert(self@.agents.take(i as int) =~= self@.agents);
        n
    }

    /// Whether a step would find an agent to drain.
    pub fn has_pending_work(&self) -> (pending: bool)
        ensures
            pending == self@.has_pending_work(),
    {
        self.agents_needing_processing() > 0
    }

    /// How many agents there are, in all, in each state, and with work waiting.
    pub fn statistics(&self) -> (stats: RuntimeStatistics)
        ensures
            stats.total_agents == self@.agents.len(),
            stats.running_agents == count_in_state(self@.agents, State::Running),
            stats.paused_agents == count_in_state(self@.agents, State::Paused),
            stats.stopped_agents == count_in_state(self@.agents, State::Stopped),
            stats.agents_with_pending_messages == self@.needing_processing(),
    {
        RuntimeStatistics {
            total_agents: self.agents.len(),
            running_agents: self.count_state(State::Running),
            paused_agents: self.count_state(State::Paused),
            stopped_agents: self.count_state(State::Stopped),
            agents_with_pending_messages: self.agents_needing_processing(),
        }
    }

    /// The identifiers of all agents, in the order in which a step visits them.
    pub fn agent_ids(&self) -> (ids: Vec<AgentId>)
        ensures
            ids@ == ids_of(self@.agents),
    {
        let mut ids: Vec<AgentId> = Vec::new();
        let mut i: usize = 0;
        while i < self.agents.len()
            invariant
                i <= self.agents.len(),
                ids@.len() == i,
                forall|j: int| 0 <= j < i ==> ids@[j] == (#[trigger] self@.agents[j]).id(),
            decreases self.agents.len() - i,
        {
            ids.push(self.agents[i].id());
            i += 1;
        }
        assert(ids@ =~= ids_of(self@.agents));
        ids
    }

    /// The identifiers of the agents that are in `state`, in the order in which
    /// a step visits them.
    pub fn agents_by_state(&self, state: State) -> (ids: Vec<AgentId>)
        ensures
            ids@ == ids_in_state(self@.agents, state),
    {
        let mut ids: Vec<AgentId> = Vec::new();
        let mut i: usize = 0;
        assert(self@.agents.take(0) =~= Seq::empty());
        while i < self.agents.len()
            invariant
                i <= self.agents.len(),
                ids@ == ids_in_state(self@.agents.take(i as int), state),
            decreases self.agents.len() - i,
        {
            proof {
                let prefix = self@.agents.take(i as int + 1);
                assert(prefix.drop_last() =~= self@.agents.take(i as int));
                assert(prefix.last() == self@.agents[i as int]);
            }
            if self.agents[i].state() == state {
                ids.push(self.agents[i].id());
            }
            i += 1;
        }
        assert(self@.agents.take(i as int) =~= self@.agents);
        ids
    }

    /// The names that the name index knows, oldest binding first.
    pub fn agent_names(&self) -> (names: Vec<&String>)
        ensures
            names@.len() == self@.names.len(),
            forall|i: int| 0 <= i < names@.len() ==> (#[trigger] names@[i])@ == self@.names[i].0,
    {
        let mut names: Vec<&String> = Vec::new();
        let mut i: usize = 0;
        while i < self.names.len()
            invariant
                i <= self.names.len(),
                names@.len() == i,
                forall|j: int| 0 <= j < i ==> (#[trigger] names@[j])@ == self@.names[j].0,
            decreases self.names.len() - i,
        {
            names.push(&self.names[i].0);
            i += 1;
        }
        names
    }

    /// Starts the agent that the name resolves to.
    pub fn start_agent_by_name(&mut self, agent_name: &str) -> (result: Result<(), RuntimeError>)
        ensures
            final(self)@ == old(self)@.put_named(agent_name@, |a: AgentModel<L, N>| a.start()),
            match result {
                Ok(_) => old(self)@.resolve(agent_name@) matches Some(id) && old(self)@.holds(id),
                Err(RuntimeError::UnknownName(n)) => old(self)@.resolve(agent_name@).is_none()
                    && n@ == agent_name@,
                Err(RuntimeError::UnknownId(id)) => old(self)@.resolve(agent_name@) == Some(id)
                    && !old(self)@.holds(id),
                Err(_) => false,
            },
            old(self)@.wf() ==> final(self)@.wf(),
    {
        match self.agent_id_by_name(agent_name) {
            Some(id) => self.start_agent_by_id(id),
            None => Err(RuntimeError::UnknownName(agent_name.to_owned())),
        }
    }

    /// Pauses the agent that the name resolves to.
    pub fn pause_agent_by_name(&mut self, agent_name: &str) -> (result: Result<(), RuntimeError>)
        ensures
            final(self)@ == old(self)@.put_named(agent_name@, |a: AgentModel<L, N>| a.pause()),
            match result {
                Ok(_) => old(self)@.resolve(agent_name@) matches Some(id) && old(self)@.holds(id),
                Err(RuntimeError::UnknownName(n)) => old(self)@.resolve(agent_name@).is_none()
                    && n@ == agent_name@,
                Err(RuntimeError::UnknownId(id)) => old(self)@.resolve(agent_name@) == Some(id)
                    && !old(self)@.holds(id),
                Err(_) => false,
            },
            old(self)@.wf() ==> final(self)@.wf(),
    {
        match self.agent_id_by_name(agent_name) {
            Some(id) => self.pause_agent_by_id(id),
            None => Err(RuntimeError::UnknownName(agent_name.to_owned())),
        }
    }

    /// Stops the agent that the name resolves to.
    pub fn stop_agent_by_name(&mut self, agent_name: &str) -> (result: Result<(), RuntimeError>)
        ensures
            final(self)@ == old(self)@.put_named(agent_name@, |a: AgentModel<L, N>| a.stop()),
            match result {
                Ok(_) => old(self)@.resolve(agent_name@) matches Some(id) && old(self)@.holds(id),
                Err(RuntimeError::UnknownName(n)) => old(self)@.resolve(agent_name@).is_none()
                    && n@ == agent_name@,
                Err(RuntimeError::UnknownId(id)) => old(self)@.resolve(agent_name@) == Some(id)
                    && !old(self)@.holds(id),
                Err(_) => false,
            },
            old(self)@.wf() ==> final(self)@.wf(),
    {
        match self.agent_id_by_name(agent_name) {
            Some(id) => self.stop_agent_by_id(id),
            None => Err(RuntimeError::UnknownName(agent_name.to_owned())),
        }
    }

    /// Resumes the agent that the name resolves to.
    pub fn resume_agent_by_name(&mut self, agent_name: &str) -> (result: Result<(), RuntimeError>)
        ensures
            final(self)@ == old(self)@.put_named(
                agent_name@,
                |a: AgentModel<L, N>| a.resume().0,
            ),
            match result {
                Ok(_) => old(self)@.resolve(agent_name@) matches Some(id) && old(self)@.holds(id),
                Err(RuntimeError::UnknownName(n)) => old(self)@.resolve(agent_name@).is_none()
                    && n@ == agent_name@,
                Err(RuntimeError::UnknownId(id)) => old(self)@.resolve(agent_name@) == Some(id)
                    && !old(self)@.holds(id),
                Err(_) => false,
            },
            old(self)@.wf() ==> final(self)@.wf(),
    {
        match self.agent_id_by_name(agent_name) {
            Some(id) => self.resume_agent_by_id(id),
            None => Err(RuntimeError::UnknownName(agent_name.to_owned())),
        }
    }

    /// Puts the message into the mailbox of the agent that the name resolves to.
    pub fn send_to_agent_by_name<M>(&mut self, agent_name: &str, message: M) -> (result: Result<
        (),
        RuntimeError,
    >) where M: Message, N::Payload: Package<M>
        ensures
            final(self)@ == old(self)@.put_named(
                agent_name@,
                |a: AgentModel<L, N>| a.enqueue(Envelope::<N>::packaged(message)),
            ),
            match result {
                Ok(_) => old(self)@.resolve(agent_name@) matches Some(id) && old(self)@.holds(id),
                Err(RuntimeError::UnknownName(n)) => old(self)@.resolve(agent_name@).is_none()
                    && n@ == agent_name@,
                Err(RuntimeError::UnknownId(id)) => old(self)@.resolve(agent_name@) == Some(id)
                    && !old(self)@.holds(id),
                Err(_) => false,
            },
            old(self)@.wf() ==> final(self)@.wf(),
    {
        match self.agent_id_by_name(agent_name) {
            Some(id) => self.send_to_agent_by_id(id, message),
            None => Err(RuntimeError::UnknownName(agent_name.to_owned())),
        }
    }

    /// Takes the agent that the name resolves to out of the runtime and hands
    /// it to the caller, untouched. The name leaves the name index.
    pub fn remove_agent_by_name(&mut self, agent_name: &str) -> (result: Result<
        Agent<L, N>,
        RuntimeError,
    >)
        ensures
            final(self)@ == match old(self)@.resolve(agent_name@) {
                Some(id) => old(self)@.forget(agent_name@).remove(id),
                None => old(self)@,
            },
            match result {
                Ok(agent) => old(self)@.resolve(agent_name@) matches Some(id) && old(self)@.holds(
                    id,
                ) && agent@ == old(self)@.agent(id),
                Err(RuntimeError::UnknownName(n)) => old(self)@.resolve(agent_name@).is_none()
                    && n@ == agent_name@,
                Err(RuntimeError::UnknownId(id)) => old(self)@.resolve(agent_name@) == Some(id)
                    && !old(self)@.holds(id),
                Err(_) => false,
            },
            old(self)@.wf() ==> final(self)@.wf(),
    {
        proof {
            if old(self)@.wf() {
                forget_wf(old(self)@, agent_name@);
                match old(self)@.resolve(agent_name@) {
                    Some(id) => remove_wf(old(self)@.forget(agent_name@), id),
                    None => {},
                }
            }
        }
        let key = agent_name.to_owned();
        match self.find_name(&key) {
            Some(i) => {
                let id = self.names[i].1;
                self.forget(&key);
                self.remove_agent_by_id(id)
            },
            None => Err(RuntimeError::UnknownName(key)),
        }
    }

    /// Starts every stopped agent and returns how many there were.
    pub fn start_all_agents(&mut self) -> (started: usize)
        ensures
            final(self)@ == old(self)@.start_all(),
            started == count_in_state(old(self)@.agents, State::Stopped),
            old(self)@.wf() ==> final(self)@.wf(),
    {
        proof {
            if old(self)@.wf() {
                bulk_keeps_wf(old(self)@);
            }
        }
        let mut started: usize = 0;
        let mut i: usize = 0;
        assert(old(self)@.agents.take(0) =~= Seq::empty());
        while i < self.agents.len()
            invariant
                i <= self.agents.len(),
                self.agents.len() == old(self).agents.len(),
                self.names == old(self).names,
                started <= i,
                started == count_in_state(old(self)@.agents.take(i as int), State::Stopped),
                forall|j: int|
                    0 <= j < i ==> (#[trigger] self.agents@[j])@ == old(self).agents@[j]@.start(),
                forall|j: int|
                    i <= j < self.agents.len() ==> (#[trigger] self.agents@[j])
                        == old(self).agents@[j],
            decreases self.agents.len() - i,
        {
            proof {
                let prefix = old(self)@.agents.take(i as int + 1);
                assert(prefix.drop_last() =~= old(self)@.agents.take(i as int));
                assert(prefix.last() == old(self)@.agents[i as int]);
            }
            if self.agents[i].start().is_some() {
                started += 1;
            }
            i += 1;
        }
        assert(old(self)@.agents.take(i as int) =~= old(self)@.agents);
        assert(self@.agents =~= old(self)@.start_all().agents);
        assert(self@.names =~= old(self)@.names);
        started
    }

    /// Pauses every running agent and returns how many there were.
    pub fn pause_all_agents(&mut self) -> (paused: usize)
        ensures
            final(self)@ == old(self)@.pause_all(),
            paused == count_in_state(old(self)@.agents, State::Running),
            old(self)@.wf() ==> final(self)@.wf(),
    {
        proof {
            if old(self)@.wf() {
                bulk_keeps_wf(old(self)@);
            }
        }
        let mut paused: usize = 0;
        let mut i: usize = 0;
        assert(old(self)@.agents.take(0) =~= Seq::empty());
        while i < self.agents.len()
            invariant
                i <= self.agents.len(),
                self.agents.len() == old(self).agents.len(),
                self.names == old(self).names,
                paused <= i,
                paused == count_in_state(old(self)@.agents.take(i as int), State::Running),
                forall|j: int|
                    0 <= j < i ==> (#[trigger] self.agents@[j])@ == old(self).agents@[j]@.pause(),
                forall|j: int|
                    i <= j < self.agents.len() ==> (#[trigger] self.agents@[j])
                        == old(self).agents@[j],
            decreases self.agents.len() - i,
        {
            proof {
                let prefix = old(self)@.agents.take(i as int + 1);
                assert(prefix.drop_last() =~= old(self)@.agents.take(i as int));
                assert(prefix.last() == old(self)@.agents[i as int]);
            }
            if self.agents[i].pause() {
                paused += 1;
            }
            i += 1;
        }
        assert(old(self)@.agents.take(i as int) =~= old(self)@.agents);
        assert(self@.agents =~= old(self)@.pause_all().agents);
        assert(self@.names =~= old(self)@.names);
        paused
    }

    /// Stops every agent that is not stopped and returns how many there were.
    pub fn stop_all_agents(&mut self) -> (stopped: usize)
        ensures
            final(self)@ == old(self)@.stop_all(),
            stopped == old(self)@.agents.len() - count_in_state(
                old(self)@.agents,
                State::Stopped,
            ),
            old(self)@.wf() ==> final(self)@.wf(),
    {
        proof {
            if old(self)@.wf() {
                bulk_keeps_wf(old(self)@);
            }
        }
        let mut stopped: usize = 0;
        let mut i: usize = 0;
        assert(old(self)@.agents.take(0) =~= Seq::empty());
        while i < self.agents.len()
            invariant
                i <= self.agents.len(),
                self.agents.len() == old(self).agents.len(),
                self.names == old(self).names,
                stopped <= i,
                stopped == i - count_in_state(old(self)@.agents.take(i as int), State::Stopped),
                forall|j: int|
                    0 <= j < i ==> (#[trigger] self.agents@[j])@ == old(self).agents@[j]@.stop(),
                forall|j: int|
                    i <= j < self.agents.len() ==> (#[trigger] self.agents@[j])
                        == old(self).agents@[j],
            decreases self.agents.len() - i,
        {
            proof {
                let prefix = old(self)@.agents.take(i as int + 1);
                assert(prefix.drop_last() =~= old(self)@.agents.take(i as int));
                assert(prefix.last() == old(self)@.agents[i as int]);
            }
            if self.agents[i].stop().is_some() {
                stopped += 1;
            }
            i += 1;
        }
        assert(old(self)@.agents.take(i as int) =~= old(self)@.agents);
        assert(self@.agents =~= old(self)@.stop_all().agents);
        assert(self@.names =~= old(self)@.names);
        stopped
    }

    /// Resumes every paused agent and returns how many there were. Each works
    /// off its backlog at once. What the handlers return in these drains is
    /// not routed.
    pub fn resume_all_agents(&mut self) -> (resumed: usize)
        ensures
            final(self)@ == old(self)@.resume_all(),
            resumed == count_in_state(old(self)@.agents, State::Paused),
            old(self)@.wf() ==> final(self)@.wf(),
    {
        proof {
            if old(self)@.wf() {
                bulk_keeps_wf(old(self)@);
            }
        }
        let mut resumed: usize = 0;
        let mut i: usize = 0;
        assert(old(self)@.agents.take(0) =~= Seq::empty());
        while i < self.agents.len()
            invariant
                i <= self.agents.len(),
                self.agents.len() == old(self).agents.len(),
                self.names == old(self).names,
                resumed <= i,
                resumed == count_in_state(old(self)@.agents.take(i as int), State::Paused),
                forall|j: int|
                    0 <= j < i ==> (#[trigger] self.agents@[j])@
                        == old(self).agents@[j]@.resume().0,
                forall|j: int|
                    i <= j < self.agents.len() ==> (#[trigger] self.agents@[j])
                        == old(self).agents@[j],
            decreases self.agents.len() - i,
        {
            proof {
                let prefix = old(self)@.agents.take(i as int + 1);
                assert(prefix.drop_last() =~= old(self)@.agents.take(i as int));
                assert(prefix.last() == old(self)@.agents[i as int]);
            }
            if self.agents[i].state() == State::Paused {
                self.agents[i].resume();
                resumed += 1;
            }
            i += 1;
        }
        assert(old(self)@.agents.take(i as int) =~= old(self)@.agents);
        assert(self@.agents =~= old(self)@.resume_all().agents);
        assert(self@.names =~= old(self)@.names);
        resumed
    }

    /// Takes every agent out of the runtime and hands them to the caller, each
    /// with its identifier, in the order in which a step visited them. The
    /// name index is emptied.
    pub fn remove_all_agents(&mut self) -> (removed: Vec<(AgentId, Agent<L, N>)>)
        ensures
            final(self)@ == RuntimeModel::<L, N>::empty(),
            removed@.len() == old(self)@.agents.len(),
            forall|i: int|
                0 <= i < removed@.len() ==> (#[trigger] removed@[i]).0 == old(self)@.agents[i].id()
                    && removed@[i].1@ == old(self)@.agents[i],
            final(self)@.wf(),
    {
        self.names.clear();
        let mut removed: Vec<(AgentId, Agent<L, N>)> = Vec::new();
        while self.agents.len() > 0
            invariant
                self.names@.len() == 0,
                removed@.len() + self.agents@.len() == old(self).agents@.len(),
                forall|i: int|
                    0 <= i < removed@.len() ==> (#[trigger] removed@[i]).0 == old(
                        self,
                    ).agents@[i]@.id() && removed@[i].1@ == old(self).agents@[i]@,
                forall|i: int|
                    0 <= i < self.agents@.len() ==> (#[trigger] self.agents@[i]) == old(
                        self,
                    ).agents@[removed@.len() + i],
            decreases self.agents.len(),
        {
            let agent = self.agents.remove(0);
            removed.push((agent.id(), agent));
        }
        assert(self@.agents =~= Seq::empty());
        assert(self@.names =~= Seq::empty());
        removed
    }

    /// Takes steps while there is work, at most `usize::MAX` of them, and
    /// returns how many handler outcomes the steps produced (at most
    /// `usize::MAX` is reported).
    pub fn process_all_pending_messages(&mut self) -> (handled: usize)
        ensures
            final(self)@ == old(self)@.settle_all(usize::MAX as nat).0,
            handled == if old(self)@.settle_all(usize::MAX as nat).1 <= usize::MAX {
                old(self)@.settle_all(usize::MAX as nat).1
            } else {
                usize::MAX as nat
            },
            final(self)@ == old(self)@.steps(old(self)@.rounds_taken(usize::MAX as nat)),
            final(self)@.has_pending_work() ==> old(self)@.rounds_taken(usize::MAX as nat)
                == usize::MAX,
            old(self)@.wf() ==> final(self)@.wf(),
    {
        proof {
            settle_all_frame(old(self)@, usize::MAX as nat);
        }
        let mut handled: usize = 0;
        let mut rounds: usize = 0;
        let ghost mut total: nat = 0;
        while rounds < usize::MAX && self.has_pending_work()
            invariant
                old(self)@.settle_all(usize::MAX as nat).0 == self@.settle_all(
                    (usize::MAX - rounds) as nat,
                ).0,
                old(self)@.settle_all(usize::MAX as nat).1 == total + self@.settle_all(
                    (usize::MAX - rounds) as nat,
                ).1,
                handled == if total <= usize::MAX {
                    total
                } else {
                    usize::MAX as nat
                },
            decreases usize::MAX - rounds,
        {
            let ghost before = self@;
            let outcomes = self.sweep();
            self.fan_out_replies(&outcomes);
            assert(self@.names =~= before.names);
            assert(self@ == before.step());
            let produced = outcomes.len();
            if produced > usize::MAX - handled {
                handled = usize::MAX;
            } else {
                handled += produced;
            }
            proof {
                total = total + produced as nat;
            }
            rounds += 1;
        }
        handled
    }
}

} // verus!
