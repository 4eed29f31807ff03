use crate::agent::{AgentModel, HandlerOutcome, LifeCycle, State};
use crate::handler::{Envelope, HandleResult};
use crate::network::Network;
use vstd::prelude::*;

verus! {

/// The agent with another mailbox.
pub open spec fn with_mail<L: LifeCycle, N: Network>(
    agent: AgentModel<L, N>,
    mailbox: Seq<Envelope<N>>,
) -> AgentModel<L, N> {
    AgentModel { mailbox, ..agent }
}

/// Whether a handler asked to stop before the last outcome.
pub open spec fn stops_early<N: Network>(outcomes: Seq<HandlerOutcome<N>>) -> bool {
    exists|i: int| 0 <= i < outcomes.len() - 1 && (#[trigger] outcomes[i]) is Stop
}

/// Working off a mailbox touches nothing but the user state and the mailbox.
/// What is left in the mailbox is its tail: envelopes leave from the front, and
/// none is handled twice. There are at most as many outcomes as envelopes left
/// the mailbox. Only the last outcome can be a stop, and without a stop the
/// mailbox ends up empty.
pub proof fn run_frame<L: LifeCycle, N: Network>(agent: AgentModel<L, N>)
    ensures
        agent.run().0.address == agent.address,
        agent.run().0.network == agent.network,
        agent.run().0.name == agent.name,
        agent.run().0.state == agent.state,
        agent.run().0.handlers == agent.handlers,
        agent.run().0.mailbox.len() <= agent.mailbox.len(),
        agent.run().0.mailbox == agent.mailbox.skip(
            agent.mailbox.len() - agent.run().0.mailbox.len(),
        ),
        agent.run().1.len() <= agent.mailbox.len() - agent.run().0.mailbox.len(),
        !stops_early(agent.run().1),
        agent.run().0.mailbox.len() > 0 ==> agent.run().1.len() > 0 && agent.run().1.last() is Stop,
    decreases agent.mailbox.len(),
{
    if agent.mailbox.len() == 0 {
        assert(agent.mailbox.skip(0) =~= agent.mailbox);
    } else {
        let (next, outcome) = agent.deliver();
        run_frame(next);
        let rest = next.run();
        let left = rest.0.mailbox.len();
        assert(next.mailbox.skip(next.mailbox.len() - left) =~= agent.mailbox.skip(
            agent.mailbox.len() - left,
        ));
        match outcome {
            Some(HandleResult::Stop) => {
                assert(agent.mailbox.skip(1) =~= next.mailbox);
            },
            Some(o) => {
                let all = seq![o] + rest.1;
                assert(agent.run().1 == all);
                assert forall|i: int| 0 <= i < all.len() - 1 implies !((#[trigger] all[i]) is Stop) by {
                    if i > 0 {
                        assert(all[i] == rest.1[i - 1]);
                    }
                }
                if left > 0 {
                    assert(all.last() == rest.1.last());
                }
            },
            None => {},
        }
    }
}

/// Envelopes are handled in the order in which they arrived: working off a
/// mailbox is working off its front part and then, unless a handler asked to
/// stop, the rest from the state that the front part left.
pub proof fn run_in_order<L: LifeCycle, N: Network>(
    agent: AgentModel<L, N>,
    earlier: Seq<Envelope<N>>,
    later: Seq<Envelope<N>>,
)
    requires
        agent.mailbox == earlier + later,
    ensures
        ({
            let (first, outcomes) = with_mail(agent, earlier).run();
            if outcomes.len() > 0 && outcomes.last() is Stop {
                agent.run() == (with_mail(first, first.mailbox + later), outcomes)
            } else {
                let (second, more) = with_mail(first, later).run();
                agent.run() == (second, outcomes + more)
            }
        }),
    decreases earlier.len(),
{
    let front = with_mail(agent, earlier);
    if earlier.len() == 0 {
        assert(agent.mailbox =~= later);
        assert(with_mail(front, later) == agent);
        assert(Seq::<HandlerOutcome<N>>::empty() + agent.run().1 =~= agent.run().1);
    } else {
        let (next, outcome) = agent.deliver();
        let (front_next, front_outcome) = front.deliver();
        assert(agent.mailbox.first() == earlier.first());
        assert(agent.mailbox.drop_first() =~= earlier.drop_first() + later);
        assert(front_outcome == outcome);
        assert(front_next == with_mail(next, earlier.drop_first()));
        run_in_order(next, earlier.drop_first(), later);
        run_frame(front_next);
        let (first, outcomes) = front_next.run();
        match outcome {
            Some(HandleResult::Stop) => {
                assert(front_next.mailbox + later =~= next.mailbox);
                assert(with_mail(front_next, front_next.mailbox + later) == next);
            },
            Some(o) => {
                let all = seq![o] + outcomes;
                assert(front.run() == (first, all));
                if outcomes.len() > 0 {
                    assert(all.last() == outcomes.last());
                }
                if !(outcomes.len() > 0 && outcomes.last() is Stop) {
                    let (second, more) = with_mail(first, later).run();
                    assert(seq![o] + (outcomes + more) =~= all + more);
                }
            },
            None => {},
        }
    }
}

/// A message that arrives while the agent is paused waits in the mailbox: the
/// user state is as it was.
pub proof fn paused_defers<L: LifeCycle, N: Network>(agent: AgentModel<L, N>, envelope: Envelope<N>)
    requires
        agent.state == State::Paused,
    ensures
        agent.enqueue(envelope) == with_mail(agent, agent.mailbox.push(envelope)),
        agent.enqueue(envelope).drain() == (agent.enqueue(envelope), Seq::<
            HandlerOutcome<N>,
        >::empty()),
{
}

/// A message sent to a stopped agent has no effect at all.
pub proof fn stopped_drops<L: LifeCycle, N: Network>(agent: AgentModel<L, N>, envelope: Envelope<N>)
    requires
        agent.state == State::Stopped,
    ensures
        agent.enqueue(envelope) == agent,
        agent.drain() == (agent, Seq::<HandlerOutcome<N>>::empty()),
        agent.resume() == (agent, Seq::<HandlerOutcome<N>>::empty()),
{
}

/// Draining and resuming keep an agent well formed.
pub proof fn run_keeps_wf<L: LifeCycle, N: Network>(agent: AgentModel<L, N>)
    requires
        agent.wf(),
    ensures
        agent.run().0.wf(),
        agent.drain().0.wf(),
        agent.resume().0.wf(),
{
    run_frame(agent);
    run_frame(AgentModel { state: State::Running, inner: agent.inner.resumed(), ..agent });
    if agent.state == State::Stopped {
        assert(agent.run().0.mailbox.len() == 0);
    }
}

} // verus!
