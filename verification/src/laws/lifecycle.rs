use crate::agent::{AgentModel, LifeCycle, State};
use crate::laws::mailbox::run_frame;
use crate::network::Network;
use vstd::prelude::*;

verus! {

/// The four lifecycle operations.
pub enum Transition {
    Start,
    Pause,
    Resume,
    Stop,
}

/// The state that an operation leads to, where the state machine has an entry
/// for it.
pub open spec fn target(state: State, op: Transition) -> Option<State> {
    match (state, op) {
        (State::Stopped, Transition::Start) => Some(State::Running),
        (State::Running, Transition::Pause) => Some(State::Paused),
        (State::Paused, Transition::Resume) => Some(State::Running),
        (State::Running, Transition::Stop) => Some(State::Stopped),
        (State::Paused, Transition::Stop) => Some(State::Stopped),
        _ => None,
    }
}

/// What an operation does to an agent.
pub open spec fn apply<L: LifeCycle, N: Network>(
    agent: AgentModel<L, N>,
    op: Transition,
) -> AgentModel<L, N> {
    match op {
        Transition::Start => agent.start(),
        Transition::Pause => agent.pause(),
        Transition::Resume => agent.resume().0,
        Transition::Stop => agent.stop(),
    }
}

/// The user state after the callback of an operation.
pub open spec fn called_back<L: LifeCycle>(inner: L, op: Transition) -> L {
    match op {
        Transition::Start => inner.started().0,
        Transition::Pause => inner.paused(),
        Transition::Resume => inner.resumed(),
        Transition::Stop => inner.stopped().0,
    }
}

/// Where the state machine has no entry for an operation, the operation
/// changes nothing: no callback runs.
pub proof fn ignored_transition<L: LifeCycle, N: Network>(agent: AgentModel<L, N>, op: Transition)
    requires
        target(agent.state, op).is_none(),
    ensures
        apply(agent, op) == agent,
{
}

/// Where the state machine has an entry for an operation, the agent goes to
/// the entry's state and the callback of the operation runs, once. Starting and
/// pausing leave the mailbox alone and stopping empties it; resuming goes on
/// to work off the mailbox from the state that the callback left.
pub proof fn taken_transition<L: LifeCycle, N: Network>(agent: AgentModel<L, N>, op: Transition)
    requires
        target(agent.state, op).is_some(),
    ensures
        apply(agent, op).state == target(agent.state, op).unwrap(),
        op is Start || op is Pause ==> apply(agent, op) == (AgentModel {
            state: target(agent.state, op).unwrap(),
            inner: called_back(agent.inner, op),
            ..agent
        }),
        op is Stop ==> apply(agent, op) == (AgentModel {
            state: State::Stopped,
            inner: called_back(agent.inner, op),
            mailbox: Seq::empty(),
            ..agent
        }),
        op is Resume ==> apply(agent, op) == (AgentModel {
            state: State::Running,
            inner: called_back(agent.inner, op),
            ..agent
        }).run().0,
{
    if op is Resume {
        run_frame(
            AgentModel { state: State::Running, inner: agent.inner.resumed(), ..agent },
        );
    }
}

/// Every lifecycle operation keeps an agent well formed and leaves its
/// identity, its endpoint, its name and its handlers alone.
pub proof fn transition_frame<L: LifeCycle, N: Network>(agent: AgentModel<L, N>, op: Transition)
    ensures
        apply(agent, op).address == agent.address,
        apply(agent, op).network == agent.network,
        apply(agent, op).name == agent.name,
        apply(agent, op).handlers == agent.handlers,
        agent.wf() ==> apply(agent, op).wf(),
{
    run_frame(
        AgentModel { state: State::Running, inner: agent.inner.resumed(), ..agent },
    );
}

/// What a list of operations does to an agent, one after the other.
pub open spec fn apply_all<L: LifeCycle, N: Network>(
    agent: AgentModel<L, N>,
    ops: Seq<Transition>,
) -> AgentModel<L, N>
    decreases ops.len(),
{
    if ops.len() == 0 {
        agent
    } else {
        apply(apply_all(agent, ops.drop_last()), ops.last())
    }
}

/// Where the state machine leads from `state` under a list of operations, and
/// the operations of the list for which it has an entry on the way.
pub open spec fn taken(state: State, ops: Seq<Transition>) -> (State, Seq<Transition>)
    decreases ops.len(),
{
    if ops.len() == 0 {
        (state, Seq::empty())
    } else {
        let (reached, fired) = taken(state, ops.drop_last());
        match target(reached, ops.last()) {
            Some(next) => (next, fired.push(ops.last())),
            None => (reached, fired),
        }
    }
}

/// The user state after the callbacks of a list of operations, in order.
pub open spec fn replay<L: LifeCycle>(inner: L, ops: Seq<Transition>) -> L
    decreases ops.len(),
{
    if ops.len() == 0 {
        inner
    } else {
        called_back(replay(inner, ops.drop_last()), ops.last())
    }
}

/// Under any list of lifecycle operations, an agent without mail ends in the
/// state that the state machine leads to, and its user state has seen the
/// callbacks of exactly those operations for which the state machine has an
/// entry, each once and in order. Nothing else about the agent changes.
pub proof fn callbacks_follow_the_state_machine<L: LifeCycle, N: Network>(
    agent: AgentModel<L, N>,
    ops: Seq<Transition>,
)
    requires
        agent.mailbox.len() == 0,
    ensures
        apply_all(agent, ops) == (AgentModel {
            state: taken(agent.state, ops).0,
            inner: replay(agent.inner, taken(agent.state, ops).1),
            ..agent
        }),
    decreases ops.len(),
{
    if ops.len() == 0 {
    } else {
        callbacks_follow_the_state_machine(agent, ops.drop_last());
        let before = apply_all(agent, ops.drop_last());
        let (reached, fired) = taken(agent.state, ops.drop_last());
        let op = ops.last();
        assert(before.mailbox =~= Seq::empty());
        if target(reached, op).is_some() {
            taken_transition(before, op);
            assert(fired.push(op).drop_last() =~= fired);
            let woken = AgentModel {
                state: State::Running,
                inner: called_back(before.inner, op),
                ..before
            };
            assert(woken.run().0 == woken);
            assert(apply_all(agent, ops).mailbox =~= agent.mailbox);
        } else {
            ignored_transition(before, op);
        }
    }
}

} // verus!
