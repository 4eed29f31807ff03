use crate::agent::{AgentId, AgentModel, LifeCycle};
use crate::network::Network;
use crate::runtime::model::{
    all_wf, distinct_ids, first_with_id, has_id, same_ids, RuntimeModel,
};
use vstd::prelude::*;

verus! {

/// Among agents that hold an identifier, there is a first one.
pub proof fn first_with_id_is_first<L: LifeCycle, N: Network>(
    agents: Seq<AgentModel<L, N>>,
    id: AgentId,
)
    requires
        has_id(agents, id),
    ensures
        0 <= first_with_id(agents, id) < agents.len(),
        agents[first_with_id(agents, id)].id() == id,
        forall|j: int| 0 <= j < first_with_id(agents, id) ==> (#[trigger] agents[j]).id() != id,
{
    let some = choose|i: int| 0 <= i < agents.len() && (#[trigger] agents[i]).id() == id;
    let least = least_with_id(agents, id, some);
    assert(0 <= least < agents.len() && agents[least].id() == id && forall|j: int|
        0 <= j < least ==> (#[trigger] agents[j]).id() != id);
}

/// The first position at or before `bound` that holds the identifier.
proof fn least_with_id<L: LifeCycle, N: Network>(
    agents: Seq<AgentModel<L, N>>,
    id: AgentId,
    bound: int,
) -> (least: int)
    requires
        0 <= bound < agents.len(),
        agents[bound].id() == id,
    ensures
        0 <= least <= bound,
        agents[least].id() == id,
        forall|j: int| 0 <= j < least ==> (#[trigger] agents[j]).id() != id,
    decreases bound,
{
    if exists|j: int| 0 <= j < bound && (#[trigger] agents[j]).id() == id {
        let j = choose|j: int| 0 <= j < bound && (#[trigger] agents[j]).id() == id;
        least_with_id(agents, id, j)
    } else {
        bound
    }
}

/// A name that the index knows has a first binding.
pub proof fn binding_is_first<L: LifeCycle, N: Network>(runtime: RuntimeModel<L, N>, name: Seq<char>)
    requires
        runtime.knows(name),
    ensures
        0 <= runtime.binding(name) < runtime.names.len(),
        runtime.names[runtime.binding(name)].0 == name,
        forall|j: int| 0 <= j < runtime.binding(name) ==> (#[trigger] runtime.names[j]).0 != name,
{
    let some = choose|i: int| 0 <= i < runtime.names.len() && runtime.names[i].0 == name;
    let least = least_binding(runtime.names, name, some);
    assert(0 <= least < runtime.names.len() && runtime.names[least].0 == name && forall|j: int|
        0 <= j < least ==> (#[trigger] runtime.names[j]).0 != name);
}

/// The first position at or before `bound` that binds the name.
proof fn least_binding(names: Seq<(Seq<char>, AgentId)>, name: Seq<char>, bound: int) -> (least:
    int)
    requires
        0 <= bound < names.len(),
        names[bound].0 == name,
    ensures
        0 <= least <= bound,
        names[least].0 == name,
        forall|j: int| 0 <= j < least ==> (#[trigger] names[j]).0 != name,
    decreases bound,
{
    if exists|j: int| 0 <= j < bound && (#[trigger] names[j]).0 == name {
        let j = choose|j: int| 0 <= j < bound && (#[trigger] names[j]).0 == name;
        least_binding(names, name, j)
    } else {
        bound
    }
}

/// An identifier that has a name has a first binding.
pub proof fn label_is_first<L: LifeCycle, N: Network>(runtime: RuntimeModel<L, N>, id: AgentId)
    requires
        runtime.named(id),
    ensures
        0 <= runtime.label(id) < runtime.names.len(),
        runtime.names[runtime.label(id)].1 == id,
        forall|j: int| 0 <= j < runtime.label(id) ==> (#[trigger] runtime.names[j]).1 != id,
{
    let some = choose|i: int| 0 <= i < runtime.names.len() && runtime.names[i].1 == id;
    let least = least_label(runtime.names, id, some);
    assert(0 <= least < runtime.names.len() && runtime.names[least].1 == id && forall|j: int|
        0 <= j < least ==> (#[trigger] runtime.names[j]).1 != id);
}

/// The first position at or before `bound` that binds a name to the identifier.
proof fn least_label(names: Seq<(Seq<char>, AgentId)>, id: AgentId, bound: int) -> (least: int)
    requires
        0 <= bound < names.len(),
        names[bound].1 == id,
    ensures
        0 <= least <= bound,
        names[least].1 == id,
        forall|j: int| 0 <= j < least ==> (#[trigger] names[j]).1 != id,
    decreases bound,
{
    if exists|j: int| 0 <= j < bound && (#[trigger] names[j]).1 == id {
        let j = choose|j: int| 0 <= j < bound && (#[trigger] names[j]).1 == id;
        least_label(names, id, j)
    } else {
        bound
    }
}

/// Agents that keep their identifiers, place by place, are found under the
/// same identifiers at the same places.
pub proof fn same_ids_same_slots<L: LifeCycle, N: Network>(
    before: Seq<AgentModel<L, N>>,
    after: Seq<AgentModel<L, N>>,
    id: AgentId,
)
    requires
        same_ids(before, after),
    ensures
        has_id(after, id) == has_id(before, id),
        has_id(before, id) ==> first_with_id(after, id) == first_with_id(before, id),
{
    if has_id(before, id) {
        first_with_id_is_first(before, id);
        let k = first_with_id(before, id);
        assert(after[k].id() == id);
        first_with_id_is_first(after, id);
        let k2 = first_with_id(after, id);
        assert(before[k2].id() == after[k2].id());
        if k2 < k {
            assert(before[k2].id() != id);
        }
        if k < k2 {
            assert(after[k].id() != id);
        }
    }
    if has_id(after, id) {
        let i = choose|i: int| 0 <= i < after.len() && (#[trigger] after[i]).id() == id;
        assert(before[i].id() == id);
    }
}

/// The invariant of a runtime survives any change that keeps every agent
/// well formed and at its place under its identifier.
pub proof fn reshaped_wf<L: LifeCycle, N: Network>(
    runtime: RuntimeModel<L, N>,
    agents: Seq<AgentModel<L, N>>,
)
    requires
        runtime.wf(),
        same_ids(runtime.agents, agents),
        all_wf(agents),
    ensures
        (RuntimeModel { agents, ..runtime }).wf(),
{
    let after = RuntimeModel { agents, ..runtime };
    assert forall|i: int, j: int| 0 <= i < j < agents.len() implies (#[trigger] agents[i]).id() != (
    #[trigger] agents[j]).id() by {
        assert(runtime.agents[i].id() != runtime.agents[j].id());
    }
    assert forall|i: int| 0 <= i < after.names.len() implies after.holds(
        (#[trigger] after.names[i]).1,
    ) by {
        assert(runtime.holds(runtime.names[i].1));
        same_ids_same_slots(runtime.agents, agents, runtime.names[i].1);
    }
}

/// Replacing a registered agent by a well-formed one with the same identifier
/// keeps the invariant.
pub proof fn put_wf<L: LifeCycle, N: Network>(
    runtime: RuntimeModel<L, N>,
    id: AgentId,
    agent: AgentModel<L, N>,
)
    requires
        runtime.wf(),
        runtime.holds(id),
        agent.id() == id,
        agent.wf(),
    ensures
        runtime.put(id, agent).wf(),
{
    first_with_id_is_first(runtime.agents, id);
    reshaped_wf(runtime, runtime.agents.update(runtime.slot(id), agent));
}

/// An agent that changes where it stands is found under its identifier
/// afterwards, the name index is as it was, and the invariant of the runtime
/// holds if the changed agent is well formed.
pub proof fn changed_in_place<L: LifeCycle, N: Network>(
    runtime: RuntimeModel<L, N>,
    id: AgentId,
    agent: AgentModel<L, N>,
)
    requires
        runtime.holds(id),
        agent.address == runtime.agent(id).address,
    ensures
        runtime.agent(id).id() == id,
        runtime.wf() ==> runtime.agent(id).wf(),
        runtime.put(id, agent).names == runtime.names,
        runtime.put(id, agent).holds(id),
        runtime.put(id, agent).agent(id) == agent,
        runtime.wf() && agent.wf() ==> runtime.put(id, agent).wf(),
{
    first_with_id_is_first(runtime.agents, id);
    put_reads(runtime, id, agent, id);
    if runtime.wf() && agent.wf() {
        put_wf(runtime, id, agent);
    }
}

/// In a runtime that satisfies its invariant, every name resolves to a
/// registered agent, and no two names resolve to the same agent.
pub proof fn names_are_one_to_one<L: LifeCycle, N: Network>(
    runtime: RuntimeModel<L, N>,
    one: Seq<char>,
    other: Seq<char>,
)
    requires
        runtime.wf(),
    ensures
        runtime.resolve(one) matches Some(id) ==> runtime.holds(id),
        runtime.resolve(one).is_some() && runtime.resolve(one) == runtime.resolve(other) ==> one
            == other,
{
    if runtime.knows(one) {
        binding_is_first(runtime, one);
        assert(runtime.holds(runtime.names[runtime.binding(one)].1));
        if runtime.knows(other) {
            binding_is_first(runtime, other);
            let i = runtime.binding(one);
            let j = runtime.binding(other);
            if runtime.names[i].1 == runtime.names[j].1 && i != j {
                if i < j {
                    assert(runtime.names[i].1 != runtime.names[j].1);
                } else {
                    assert(runtime.names[j].1 != runtime.names[i].1);
                }
            }
        }
    }
}

/// In a runtime that satisfies its invariant, an identifier belongs to one
/// agent only.
pub proof fn ids_are_unique<L: LifeCycle, N: Network>(runtime: RuntimeModel<L, N>, i: int, j: int)
    requires
        runtime.wf(),
        0 <= i < runtime.agents.len(),
        0 <= j < runtime.agents.len(),
        runtime.agents[i].id() == runtime.agents[j].id(),
    ensures
        i == j,
        runtime.slot(runtime.agents[i].id()) == i,
{
    if i < j {
        assert(runtime.agents[i].id() != runtime.agents[j].id());
    }
    if j < i {
        assert(runtime.agents[j].id() != runtime.agents[i].id());
    }
    first_with_id_is_first(runtime.agents, runtime.agents[i].id());
    let k = runtime.slot(runtime.agents[i].id());
    if k < i {
        assert(runtime.agents[k].id() != runtime.agents[i].id());
    }
}

/// Removing an agent keeps the invariant, and afterwards neither an agent nor
/// a name stands for its identifier.
pub proof fn remove_wf<L: LifeCycle, N: Network>(runtime: RuntimeModel<L, N>, id: AgentId)
    requires
        runtime.wf(),
    ensures
        runtime.remove(id).wf(),
        !runtime.remove(id).holds(id),
        !runtime.remove(id).named(id),
        forall|name: Seq<char>| runtime.remove(id).knows(name) ==> runtime.knows(name),
{
    let after = runtime.remove(id);
    let s = runtime.slot(id);
    let l = runtime.label(id);
    if runtime.holds(id) {
        first_with_id_is_first(runtime.agents, id);
    }
    if runtime.named(id) {
        label_is_first(runtime, id);
    }
    // Where an element of the result sat before the removal.
    let from = |i: int| if runtime.holds(id) && i >= s { i + 1 } else { i };
    let origin = |i: int| if runtime.named(id) && i >= l { i + 1 } else { i };
    assert forall|i: int| 0 <= i < after.agents.len() implies (#[trigger] after.agents[i])
        == runtime.agents[from(i)] && 0 <= from(i) < runtime.agents.len() by {}
    assert forall|i: int| 0 <= i < after.names.len() implies (#[trigger] after.names[i])
        == runtime.names[origin(i)] && 0 <= origin(i) < runtime.names.len() by {}
    assert forall|i: int| 0 <= i < after.agents.len() implies (#[trigger] after.agents[i]).wf() by {
        assert(runtime.agents[from(i)].wf());
    }
    assert forall|i: int, j: int| 0 <= i < j < after.agents.len() implies (
    #[trigger] after.agents[i]).id() != (#[trigger] after.agents[j]).id() by {
        assert(runtime.agents[from(i)].id() != runtime.agents[from(j)].id());
    }
    assert forall|i: int, j: int| 0 <= i < j < after.names.len() implies (
    #[trigger] after.names[i]).0 != (#[trigger] after.names[j]).0 by {
        assert(runtime.names[origin(i)].0 != runtime.names[origin(j)].0);
    }
    assert forall|i: int, j: int| 0 <= i < j < after.names.len() implies (
    #[trigger] after.names[i]).1 != (#[trigger] after.names[j]).1 by {
        assert(runtime.names[origin(i)].1 != runtime.names[origin(j)].1);
    }
    assert forall|i: int| 0 <= i < after.names.len() implies (#[trigger] after.names[i]).1
        != id by {
        let o = origin(i);
        if runtime.named(id) {
            if o < l {
                assert(runtime.names[o].1 != runtime.names[l].1);
            } else {
                assert(runtime.names[l].1 != runtime.names[o].1);
            }
        } else {
            assert(runtime.names[o].1 != id);
        }
    }
    assert forall|i: int| 0 <= i < after.agents.len() implies (#[trigger] after.agents[i]).id()
        != id by {
        let o = from(i);
        if runtime.holds(id) {
            if o < s {
                assert(runtime.agents[o].id() != runtime.agents[s].id());
            } else {
                assert(runtime.agents[s].id() != runtime.agents[o].id());
            }
        } else {
            assert(runtime.agents[o].id() != id);
        }
    }
    assert forall|i: int| 0 <= i < after.names.len() implies after.holds(
        (#[trigger] after.names[i]).1,
    ) by {
        let bound = after.names[i].1;
        assert(runtime.holds(runtime.names[origin(i)].1));
        let k = choose|k: int|
            0 <= k < runtime.agents.len() && (#[trigger] runtime.agents[k]).id() == bound;
        let k2 = if runtime.holds(id) && k > s { k - 1 } else { k };
        assert(after.agents[k2] == runtime.agents[k]);
    }
    assert forall|name: Seq<char>| after.knows(name) implies runtime.knows(name) by {
        let i = choose|i: int| 0 <= i < after.names.len() && after.names[i].0 == name;
        assert(runtime.names[origin(i)].0 == name);
    }
}

/// Forgetting a name keeps the invariant, and afterwards the index does not
/// know the name.
pub proof fn forget_wf<L: LifeCycle, N: Network>(runtime: RuntimeModel<L, N>, name: Seq<char>)
    requires
        runtime.wf(),
    ensures
        runtime.forget(name).wf(),
        !runtime.forget(name).knows(name),
{
    let after = runtime.forget(name);
    let l = runtime.binding(name);
    if runtime.knows(name) {
        binding_is_first(runtime, name);
    }
    let origin = |i: int| if runtime.knows(name) && i >= l { i + 1 } else { i };
    assert forall|i: int| 0 <= i < after.names.len() implies (#[trigger] after.names[i])
        == runtime.names[origin(i)] && 0 <= origin(i) < runtime.names.len() by {}
    assert forall|i: int, j: int| 0 <= i < j < after.names.len() implies (
    #[trigger] after.names[i]).0 != (#[trigger] after.names[j]).0 by {
        assert(runtime.names[origin(i)].0 != runtime.names[origin(j)].0);
    }
    assert forall|i: int, j: int| 0 <= i < j < after.names.len() implies (
    #[trigger] after.names[i]).1 != (#[trigger] after.names[j]).1 by {
        assert(runtime.names[origin(i)].1 != runtime.names[origin(j)].1);
    }
    assert forall|i: int| 0 <= i < after.names.len() implies after.holds(
        (#[trigger] after.names[i]).1,
    ) by {
        assert(runtime.holds(runtime.names[origin(i)].1));
    }
    assert forall|i: int| 0 <= i < after.names.len() implies (#[trigger] after.names[i]).0
        != name by {
        let o = origin(i);
        if runtime.knows(name) {
            if o < l {
                assert(runtime.names[o].0 != runtime.names[l].0);
            } else {
                assert(runtime.names[l].0 != runtime.names[o].0);
            }
        } else {
            assert(runtime.names[o].0 != name);
        }
    }
}

/// Registering a well-formed agent keeps the invariant.
pub proof fn register_wf<L: LifeCycle, N: Network>(
    runtime: RuntimeModel<L, N>,
    agent: AgentModel<L, N>,
)
    requires
        runtime.wf(),
        agent.wf(),
    ensures
        runtime.register(agent).wf(),
        runtime.register(agent).holds(agent.id()),
        !runtime.register(agent).named(agent.id()),
        forall|name: Seq<char>| runtime.register(agent).knows(name) ==> runtime.knows(name),
{
    let cleared = runtime.remove(agent.id());
    let after = runtime.register(agent);
    remove_wf(runtime, agent.id());
    let last = cleared.agents.len() as int;
    assert(after.agents[last] == agent);
    assert forall|i: int| 0 <= i < after.agents.len() implies (#[trigger] after.agents[i]).wf() by {
        if i < last {
            assert(cleared.agents[i].wf());
        }
    }
    assert forall|i: int, j: int| 0 <= i < j < after.agents.len() implies (
    #[trigger] after.agents[i]).id() != (#[trigger] after.agents[j]).id() by {
        if j < last {
            assert(cleared.agents[i].id() != cleared.agents[j].id());
        } else {
            assert(cleared.agents[i].id() != agent.id());
        }
    }
    assert forall|i: int| 0 <= i < after.names.len() implies after.holds(
        (#[trigger] after.names[i]).1,
    ) by {
        assert(cleared.holds(cleared.names[i].1));
        let k = choose|k: int|
            0 <= k < cleared.agents.len() && (#[trigger] cleared.agents[k]).id()
                == cleared.names[i].1;
        assert(after.agents[k] == cleared.agents[k]);
    }
}

/// Registering a well-formed agent under a name that the index does not know
/// keeps the invariant, and the name then resolves to the agent.
pub proof fn register_named_wf<L: LifeCycle, N: Network>(
    runtime: RuntimeModel<L, N>,
    name: Seq<char>,
    agent: AgentModel<L, N>,
)
    requires
        runtime.wf(),
        agent.wf(),
        !runtime.knows(name),
    ensures
        runtime.register_named(name, agent).wf(),
        runtime.register_named(name, agent).resolve(name) == Some(agent.id()),
        runtime.register_named(name, agent).holds(agent.id()),
{
    let joined = runtime.register(agent);
    let after = runtime.register_named(name, agent);
    register_wf(runtime, agent);
    let last = joined.names.len() as int;
    assert(after.names[last] == (name, agent.id()));
    assert forall|i: int, j: int| 0 <= i < j < after.names.len() implies (
    #[trigger] after.names[i]).0 != (#[trigger] after.names[j]).0 by {
        if j < last {
            assert(joined.names[i].0 != joined.names[j].0);
        } else {
            assert(joined.names[i].0 == after.names[i].0);
            if joined.names[i].0 == name {
                assert(joined.knows(name));
            }
        }
    }
    assert forall|i: int, j: int| 0 <= i < j < after.names.len() implies (
    #[trigger] after.names[i]).1 != (#[trigger] after.names[j]).1 by {
        if j < last {
            assert(joined.names[i].1 != joined.names[j].1);
        } else {
            assert(joined.names[i].1 == after.names[i].1);
            if joined.names[i].1 == agent.id() {
                assert(joined.named(agent.id()));
            }
        }
    }
    assert forall|i: int| 0 <= i < after.names.len() implies after.holds(
        (#[trigger] after.names[i]).1,
    ) by {
        if i < last {
            assert(joined.holds(joined.names[i].1));
        }
    }
    assert(after.knows(name));
    binding_is_first(after, name);
    let b = after.binding(name);
    if b < last {
        assert(joined.names[b].0 == name);
        assert(joined.knows(name));
    }
}

/// Taking an agent in again keeps the invariant.
pub proof fn reinsert_wf<L: LifeCycle, N: Network>(
    runtime: RuntimeModel<L, N>,
    agent: AgentModel<L, N>,
)
    requires
        runtime.wf(),
        agent.wf(),
    ensures
        runtime.reinsert(agent).wf(),
        runtime.reinsert(agent).holds(agent.id()),
{
    match agent.name {
        Some(name) => {
            forget_wf(runtime, name);
            register_named_wf(runtime.forget(name), name, agent);
        },
        None => {
            register_wf(runtime, agent);
        },
    }
}

} // verus!

verus! {

/// Replacing the agent under an identifier leaves the agents under all other
/// identifiers as they are, and the replacement is found under the identifier.
pub proof fn put_reads<L: LifeCycle, N: Network>(
    runtime: RuntimeModel<L, N>,
    id: AgentId,
    agent: AgentModel<L, N>,
    other: AgentId,
)
    requires
        runtime.holds(id),
        agent.id() == id,
    ensures
        runtime.put(id, agent).names == runtime.names,
        runtime.put(id, agent).holds(other) == runtime.holds(other),
        runtime.put(id, agent).agent(id) == agent,
        other != id && runtime.holds(other) ==> runtime.put(id, agent).agent(other)
            == runtime.agent(other),
{
    first_with_id_is_first(runtime.agents, id);
    let after = runtime.agents.update(runtime.slot(id), agent);
    assert(same_ids(runtime.agents, after));
    same_ids_same_slots(runtime.agents, after, other);
    same_ids_same_slots(runtime.agents, after, id);
    if other != id && runtime.holds(other) {
        first_with_id_is_first(runtime.agents, other);
    }
}

/// Removing the agent under an identifier leaves the agents under all other
/// identifiers as they are.
pub proof fn remove_reads<L: LifeCycle, N: Network>(
    runtime: RuntimeModel<L, N>,
    id: AgentId,
    other: AgentId,
)
    requires
        other != id,
    ensures
        runtime.remove(id).holds(other) == runtime.holds(other),
        runtime.holds(other) ==> runtime.remove(id).agent(other) == runtime.agent(other),
{
    let after = runtime.remove(id);
    if !runtime.holds(id) {
        return ;
    }
    first_with_id_is_first(runtime.agents, id);
    let s = runtime.slot(id);
    if runtime.holds(other) {
        first_with_id_is_first(runtime.agents, other);
        let k = runtime.slot(other);
        let k2 = if k > s {
            k - 1
        } else {
            k
        };
        assert(after.agents[k2] == runtime.agents[k]);
        assert(after.holds(other));
        first_with_id_is_first(after.agents, other);
        let f = after.slot(other);
        let f2 = if f >= s {
            f + 1
        } else {
            f
        };
        assert(after.agents[f] == runtime.agents[f2]);
        if f < k2 {
            assert(runtime.agents[f2].id() != other);
        }
        if k2 < f {
            assert(after.agents[k2].id() != other);
        }
    }
    if after.holds(other) {
        let i = choose|i: int| 0 <= i < after.agents.len() && (#[trigger] after.agents[i]).id() == other;
        let i2 = if i >= s {
            i + 1
        } else {
            i
        };
        assert(runtime.agents[i2] == after.agents[i]);
    }
}

/// A registered agent is found under its identifier, and the agents under all
/// other identifiers are as they were.
pub proof fn register_reads<L: LifeCycle, N: Network>(
    runtime: RuntimeModel<L, N>,
    agent: AgentModel<L, N>,
    other: AgentId,
)
    ensures
        runtime.register(agent).holds(agent.id()),
        runtime.wf() ==> runtime.register(agent).agent(agent.id()) == agent,
        other != agent.id() ==> runtime.register(agent).holds(other) == runtime.holds(other),
        other != agent.id() && runtime.holds(other) ==> runtime.register(agent).agent(other)
            == runtime.agent(other),
{
    let cleared = runtime.remove(agent.id());
    let after = runtime.register(agent);
    let last = cleared.agents.len() as int;
    assert(after.agents[last] == agent);
    first_with_id_is_first(after.agents, agent.id());
    if runtime.wf() {
        remove_wf(runtime, agent.id());
        let f = after.slot(agent.id());
        if f < last {
            assert(cleared.agents[f].id() == agent.id());
        }
    }
    if other != agent.id() {
        remove_reads(runtime, agent.id(), other);
        if cleared.holds(other) {
            first_with_id_is_first(cleared.agents, other);
            let k = cleared.slot(other);
            assert(after.agents[k] == cleared.agents[k]);
            first_with_id_is_first(after.agents, other);
            let f = after.slot(other);
            assert(f < last);
            assert(after.agents[f] == cleared.agents[f]);
            if f < k {
                assert(cleared.agents[f].id() != other);
            }
            if k < f {
                assert(after.agents[k].id() != other);
            }
        }
        if after.holds(other) {
            let i = choose|i: int|
                0 <= i < after.agents.len() && (#[trigger] after.agents[i]).id() == other;
            assert(i < last);
            assert(cleared.agents[i] == after.agents[i]);
        }
    }
}

} // verus!
