use crate::agent::{settle, AgentId, AgentModel, HandlerOutcome, LifeCycle, State};
use crate::handler::{Envelope, HandleResult};
use crate::laws::mailbox::{run_frame, run_keeps_wf};
use crate::laws::registry::{
    first_with_id_is_first, put_reads, reshaped_wf, same_ids_same_slots,
};
use crate::network::Network;
use crate::runtime::model::{
    all_wf, collected, fan_out, receive_all, replies_for, route, same_ids, total_mail,
    RuntimeModel,
};
use vstd::prelude::*;

verus! {

/// Which replies an agent takes depends on its handlers alone.
pub proof fn replies_go_by_handlers<L: LifeCycle, N: Network>(
    one: AgentModel<L, N>,
    other: AgentModel<L, N>,
    outcomes: Seq<HandlerOutcome<N>>,
)
    requires
        one.handlers == other.handlers,
    ensures
        replies_for(one, outcomes) == replies_for(other, outcomes),
    decreases outcomes.len(),
{
    if outcomes.len() > 0 {
        replies_go_by_handlers(one, other, outcomes.drop_first());
    }
}

/// A broadcast reaches exactly the agents that have a handler for the type of
/// the envelope. A stopped agent among them drops the envelope; every other
/// one has it as the newest envelope in its mailbox. Nothing else changes.
pub proof fn broadcast_is_selective<L: LifeCycle, N: Network>(
    runtime: RuntimeModel<L, N>,
    envelope: Envelope<N>,
    i: int,
)
    requires
        0 <= i < runtime.agents.len(),
    ensures
        runtime.broadcast(envelope).names == runtime.names,
        runtime.broadcast(envelope).agents.len() == runtime.agents.len(),
        runtime.broadcast(envelope).agents[i] == if runtime.agents[i].accepts(envelope.type_id)
            && runtime.agents[i].state != State::Stopped {
            AgentModel { mailbox: runtime.agents[i].mailbox.push(envelope), ..runtime.agents[i] }
        } else {
            runtime.agents[i]
        },
{
}

/// Routing keeps every agent at its place, under its identifier, and well
/// formed.
pub proof fn route_frame<L: LifeCycle, N: Network>(
    agents: Seq<AgentModel<L, N>>,
    envelope: Envelope<N>,
)
    ensures
        same_ids(agents, route(agents, envelope)),
        all_wf(agents) ==> all_wf(route(agents, envelope)),
{
    let routed = route(agents, envelope);
    assert forall|i: int| 0 <= i < agents.len() implies (#[trigger] routed[i]).id()
        == agents[i].id() by {}
    if all_wf(agents) {
        assert forall|i: int| 0 <= i < routed.len() implies (#[trigger] routed[i]).wf() by {
            assert(agents[i].wf());
        }
    }
}

/// After the fan-out of a list of outcomes, every agent that is not stopped
/// has, behind what its mailbox held, one envelope for each reply that it has
/// a handler for, in the order of the replies. Nothing else changes.
pub proof fn fan_out_delivers<L: LifeCycle, N: Network>(
    agents: Seq<AgentModel<L, N>>,
    outcomes: Seq<HandlerOutcome<N>>,
)
    ensures
        fan_out(agents, outcomes).len() == agents.len(),
        forall|i: int|
            0 <= i < agents.len() ==> (#[trigger] fan_out(agents, outcomes)[i]) == receive_all(
                agents[i],
                outcomes,
            ),
    decreases outcomes.len(),
{
    if outcomes.len() == 0 {
        assert forall|i: int| 0 <= i < agents.len() implies (#[trigger] fan_out(
            agents,
            outcomes,
        )[i]) == receive_all(agents[i], outcomes) by {
            assert(agents[i].mailbox + Seq::<Envelope<N>>::empty() =~= agents[i].mailbox);
        }
    } else {
        let next = match outcomes.first() {
            HandleResult::Message(envelope) => route(agents, envelope),
            _ => agents,
        };
        let rest = outcomes.drop_first();
        fan_out_delivers(next, rest);
        assert forall|i: int| 0 <= i < agents.len() implies (#[trigger] fan_out(
            agents,
            outcomes,
        )[i]) == receive_all(agents[i], outcomes) by {
            assert(fan_out(agents, outcomes)[i] == receive_all(next[i], rest));
            replies_go_by_handlers(next[i], agents[i], rest);
            match outcomes.first() {
                HandleResult::Message(envelope) => {
                    if agents[i].accepts(envelope.type_id) && agents[i].state != State::Stopped {
                        assert(agents[i].mailbox.push(envelope) + replies_for(agents[i], rest)
                            =~= agents[i].mailbox + (seq![envelope] + replies_for(
                            agents[i],
                            rest,
                        )));
                    }
                },
                _ => {},
            }
        }
    }
}

/// A fan-out keeps every agent at its place, under its identifier, and well
/// formed.
pub proof fn fan_out_frame<L: LifeCycle, N: Network>(
    agents: Seq<AgentModel<L, N>>,
    outcomes: Seq<HandlerOutcome<N>>,
)
    ensures
        same_ids(agents, fan_out(agents, outcomes)),
        all_wf(agents) ==> all_wf(fan_out(agents, outcomes)),
{
    fan_out_delivers(agents, outcomes);
    let after = fan_out(agents, outcomes);
    assert forall|i: int| 0 <= i < agents.len() implies (#[trigger] after[i]).id()
        == agents[i].id() by {}
    if all_wf(agents) {
        assert forall|i: int| 0 <= i < after.len() implies (#[trigger] after[i]).wf() by {
            assert(agents[i].wf());
        }
    }
}

/// The drain pass and a resume keep an agent under its identifier and well
/// formed. The drain pass produces at most one outcome for each envelope that
/// the agent held.
pub proof fn settle_frame<L: LifeCycle, N: Network>(agent: AgentModel<L, N>)
    ensures
        settle(agent).0.id() == agent.id(),
        settle(agent).0.handlers == agent.handlers,
        settle(agent).0.name == agent.name,
        agent.wf() ==> settle(agent).0.wf(),
        settle(agent).1.len() <= agent.mailbox.len(),
        !agent.needs_drain() ==> settle(agent) == (agent, Seq::<HandlerOutcome<N>>::empty()),
        agent.resume().0.id() == agent.id(),
        agent.resume().0.handlers == agent.handlers,
        agent.resume().0.name == agent.name,
        agent.wf() ==> agent.resume().0.wf(),
        agent.state != State::Paused ==> agent.resume() == (agent, Seq::<
            HandlerOutcome<N>,
        >::empty()),
{
    run_frame(agent);
    run_frame(AgentModel { state: State::Running, inner: agent.inner.resumed(), ..agent });
    if agent.wf() {
        run_keeps_wf(agent);
    }
}

/// One step does to every agent what the drain pass does to it, followed by
/// the delivery of the replies of all agents.
pub proof fn step_delivers<L: LifeCycle, N: Network>(runtime: RuntimeModel<L, N>, i: int)
    requires
        0 <= i < runtime.agents.len(),
    ensures
        runtime.step().names == runtime.names,
        runtime.step().agents.len() == runtime.agents.len(),
        runtime.step().agents[i] == receive_all(
            settle(runtime.agents[i]).0,
            collected(runtime.agents),
        ),
{
    fan_out_delivers(runtime.drained(), collected(runtime.agents));
}

/// A step keeps every agent at its place and under its identifier, and keeps
/// the invariant of the runtime.
pub proof fn step_frame<L: LifeCycle, N: Network>(runtime: RuntimeModel<L, N>)
    ensures
        same_ids(runtime.agents, runtime.step().agents),
        runtime.step().names == runtime.names,
        runtime.wf() ==> runtime.step().wf(),
{
    let drained = runtime.drained();
    assert forall|i: int| 0 <= i < runtime.agents.len() implies (#[trigger] drained[i]).id()
        == runtime.agents[i].id() && (runtime.agents[i].wf() ==> drained[i].wf()) by {
        settle_frame(runtime.agents[i]);
    }
    fan_out_frame(drained, collected(runtime.agents));
    let after = runtime.step().agents;
    assert forall|i: int| 0 <= i < runtime.agents.len() implies (#[trigger] after[i]).id()
        == runtime.agents[i].id() by {
        assert(after[i].id() == drained[i].id());
    }
    if runtime.wf() {
        assert forall|i: int| 0 <= i < drained.len() implies (#[trigger] drained[i]).wf() by {
            assert(runtime.agents[i].wf());
        }
        reshaped_wf(runtime, after);
    }
}

/// The handlers run at most once for each envelope that waited in a mailbox
/// when the step began.
pub proof fn step_is_bounded<L: LifeCycle, N: Network>(agents: Seq<AgentModel<L, N>>)
    ensures
        collected(agents).len() <= total_mail(agents),
    decreases agents.len(),
{
    if agents.len() > 0 {
        step_is_bounded(agents.drop_last());
        settle_frame(agents.last());
    }
}

/// A stopped agent is not touched by a step, whatever the other agents do.
pub proof fn stopped_is_silent<L: LifeCycle, N: Network>(runtime: RuntimeModel<L, N>, i: int, n: nat)
    requires
        0 <= i < runtime.agents.len(),
        runtime.agents[i].state == State::Stopped,
    ensures
        runtime.steps(n).agents.len() == runtime.agents.len(),
        runtime.steps(n).agents[i] == runtime.agents[i],
    decreases n,
{
    if n > 0 {
        step_delivers(runtime, i);
        settle_frame(runtime.agents[i]);
        stopped_is_silent(runtime.step(), i, (n - 1) as nat);
    }
}

/// A message sent to a stopped agent changes nothing, and no number of steps
/// makes the agent handle it.
pub proof fn send_to_stopped_is_lost<L: LifeCycle, N: Network>(
    runtime: RuntimeModel<L, N>,
    id: AgentId,
    envelope: Envelope<N>,
    n: nat,
)
    requires
        runtime.holds(id),
        runtime.agent(id).state == State::Stopped,
    ensures
        runtime.put(id, runtime.agent(id).enqueue(envelope)) == runtime,
        runtime.steps(n).holds(id),
        runtime.steps(n).agent(id) == runtime.agent(id),
    decreases n,
{
    first_with_id_is_first(runtime.agents, id);
    assert(runtime.agents.update(runtime.slot(id), runtime.agent(id)) =~= runtime.agents);
    stopped_is_silent(runtime, runtime.slot(id), n);
    steps_frame(runtime, n);
    same_ids_same_slots(runtime.agents, runtime.steps(n).agents, id);
}

/// Any number of steps keeps every agent at its place and under its
/// identifier, and keeps the invariant of the runtime.
pub proof fn steps_frame<L: LifeCycle, N: Network>(runtime: RuntimeModel<L, N>, n: nat)
    ensures
        same_ids(runtime.agents, runtime.steps(n).agents),
        runtime.steps(n).names == runtime.names,
        runtime.wf() ==> runtime.steps(n).wf(),
    decreases n,
{
    if n > 0 {
        step_frame(runtime);
        steps_frame(runtime.step(), (n - 1) as nat);
        let mid = runtime.step().agents;
        let after = runtime.steps(n).agents;
        assert forall|i: int| 0 <= i < runtime.agents.len() implies (#[trigger] after[i]).id()
            == runtime.agents[i].id() by {
            assert(after[i].id() == mid[i].id());
        }
    }
}

/// A paused agent is not drained by a step: its user state stays as it is, and
/// what its mailbox held stays in front, in order. It only receives the
/// replies that it has a handler for.
pub proof fn paused_waits<L: LifeCycle, N: Network>(runtime: RuntimeModel<L, N>, i: int)
    requires
        0 <= i < runtime.agents.len(),
        runtime.agents[i].state == State::Paused,
    ensures
        runtime.step().agents[i] == (AgentModel {
            mailbox: runtime.agents[i].mailbox + replies_for(
                runtime.agents[i],
                collected(runtime.agents),
            ),
            ..runtime.agents[i]
        }),
{
    step_delivers(runtime, i);
    settle_frame(runtime.agents[i]);
}

/// A broadcast keeps the invariant of the runtime.
pub proof fn broadcast_keeps_wf<L: LifeCycle, N: Network>(
    runtime: RuntimeModel<L, N>,
    envelope: Envelope<N>,
)
    requires
        runtime.wf(),
    ensures
        runtime.broadcast(envelope).wf(),
{
    route_frame(runtime.agents, envelope);
    reshaped_wf(runtime, route(runtime.agents, envelope));
}

/// The bulk operations keep the invariant of the runtime.
pub proof fn bulk_keeps_wf<L: LifeCycle, N: Network>(runtime: RuntimeModel<L, N>)
    requires
        runtime.wf(),
    ensures
        runtime.start_all().wf(),
        runtime.pause_all().wf(),
        runtime.stop_all().wf(),
        runtime.resume_all().wf(),
{
    let started = runtime.start_all().agents;
    assert forall|i: int| 0 <= i < started.len() implies (#[trigger] started[i]).wf()
        && started[i].id() == runtime.agents[i].id() by {
        assert(runtime.agents[i].wf());
    }
    reshaped_wf(runtime, started);
    let paused = runtime.pause_all().agents;
    assert forall|i: int| 0 <= i < paused.len() implies (#[trigger] paused[i]).wf()
        && paused[i].id() == runtime.agents[i].id() by {
        assert(runtime.agents[i].wf());
    }
    reshaped_wf(runtime, paused);
    let stopped = runtime.stop_all().agents;
    assert forall|i: int| 0 <= i < stopped.len() implies (#[trigger] stopped[i]).wf()
        && stopped[i].id() == runtime.agents[i].id() by {
        assert(runtime.agents[i].wf());
    }
    reshaped_wf(runtime, stopped);
    let resumed = runtime.resume_all().agents;
    assert forall|i: int| 0 <= i < resumed.len() implies (#[trigger] resumed[i]).wf()
        && resumed[i].id() == runtime.agents[i].id() by {
        assert(runtime.agents[i].wf());
        settle_frame(runtime.agents[i]);
    }
    reshaped_wf(runtime, resumed);
}

/// A resume through the runtime handles every envelope of the backlog once,
/// in the order of arrival, and leaves the mailbox empty, unless a handler asks
/// to stop. No other agent is touched: the outcomes are not routed.
pub proof fn resume_drains_the_backlog<L: LifeCycle, N: Network>(
    runtime: RuntimeModel<L, N>,
    id: AgentId,
    other: AgentId,
)
    requires
        runtime.holds(id),
        runtime.agent(id).state == State::Paused,
    ensures
        runtime.resume(id).holds(id),
        runtime.resume(id).agent(id) == runtime.agent(id).resume().0,
        runtime.resume(id).agent(id).state == State::Running,
        runtime.agent(id).resume().1.len() <= runtime.agent(id).mailbox.len(),
        !(runtime.agent(id).resume().1.len() > 0 && runtime.agent(id).resume().1.last() is Stop)
            ==> runtime.resume(id).agent(id).mailbox.len() == 0,
        other != id && runtime.holds(other) ==> runtime.resume(id).holds(other)
            && runtime.resume(id).agent(other) == runtime.agent(other),
{
    let agent = runtime.agent(id);
    first_with_id_is_first(runtime.agents, id);
    run_frame(AgentModel { state: State::Running, inner: agent.inner.resumed(), ..agent });
    put_reads(runtime, id, agent.resume().0, other);
    put_reads(runtime, id, agent.resume().0, id);
}

/// Stepping while there is work amounts to a number of steps. It ends when no
/// agent has work waiting, or else when the rounds are used up. It keeps the
/// invariant of the runtime.
pub proof fn settle_all_frame<L: LifeCycle, N: Network>(runtime: RuntimeModel<L, N>, rounds: nat)
    ensures
        runtime.rounds_taken(rounds) <= rounds,
        runtime.settle_all(rounds).0 == runtime.steps(runtime.rounds_taken(rounds)),
        runtime.settle_all(rounds).0.has_pending_work() ==> runtime.rounds_taken(rounds) == rounds,
        runtime.wf() ==> runtime.settle_all(rounds).0.wf(),
    decreases rounds,
{
    if rounds == 0 || !runtime.has_pending_work() {
    } else {
        step_frame(runtime);
        settle_all_frame(runtime.step(), (rounds - 1) as nat);
    }
}

} // verus!
