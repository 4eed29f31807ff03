use crate::agent::{AgentId, AgentModel, LifeCycle, State};
use crate::network::Network;
use crate::runtime::model::{count_in_state, ids_in_state, ids_of, RuntimeModel};
use crate::runtime::Runtime;
use crate::text::decimal;
use vstd::prelude::*;

verus! {

/// Numbers in decimal with a comma between each two.
pub open spec fn comma_separated(numbers: Seq<u64>) -> Seq<char>
    decreases numbers.len(),
{
    if numbers.len() == 0 {
        Seq::empty()
    } else if numbers.len() == 1 {
        decimal(numbers[0] as nat)
    } else {
        comma_separated(numbers.drop_last()) + ","@ + decimal(numbers.last() as nat)
    }
}

/// The JSON text of a list of integers: the numbers in decimal, with commas
/// between them, in square brackets.
pub open spec fn json_of_numbers(numbers: Seq<u64>) -> Seq<char> {
    "["@ + comma_separated(numbers) + "]"@
}

/// The JSON text that `serde_json` writes for a list of strings.
pub uninterp spec fn json_of_strings(strings: Seq<Seq<char>>) -> Seq<char>;

/// The views of a list of strings.
pub open spec fn texts(strings: Seq<&String>) -> Seq<Seq<char>> {
    Seq::new(strings.len(), |i: int| strings[i]@)
}

/// `serde_json::to_string` on a list of integers. It writes into a byte
/// vector, which takes every write, and an integer always serialises, so the
/// call succeeds. It writes `[`, each number in decimal with a comma before
/// all but the first, and `]`.
#[verifier::external_body]
fn numbers_to_json(numbers: &Vec<u64>) -> (text: Option<String>)
    ensures
        text is Some,
        text.unwrap()@ == json_of_numbers(numbers@),
{
    serde_json::to_string(numbers).ok()
}

/// `serde_json::to_string` on a list of strings. It writes into a byte
/// vector, which takes every write, and a string always serialises, so the
/// call succeeds. The text is the JSON rendering of the list, with the
/// strings escaped as JSON asks.
#[verifier::external_body]
fn strings_to_json(strings: &Vec<&String>) -> (text: Option<String>)
    ensures
        text is Some,
        text.unwrap()@ == json_of_strings(texts(strings@)),
{
    serde_json::to_string(strings).ok()
}

/// The text handed across the boundary for an encoding attempt: the encoded
/// text, or `fallback` where the encoder failed.
pub fn encoded_or(encoded: Option<String>, fallback: &str) -> (text: String)
    ensures
        match encoded {
            Some(t) => text == t,
            None => text@ == fallback@,
        },
{
    match encoded {
        Some(t) => t,
        None => fallback.to_owned(),
    }
}

/// The numbers behind a list of identifiers.
pub open spec fn values(ids: Seq<AgentId>) -> Seq<u64> {
    Seq::new(ids.len(), |i: int| ids[i].value)
}

/// The numbers behind a list of identifiers, in order.
pub fn id_values(ids: &Vec<AgentId>) -> (numbers: Vec<u64>)
    ensures
        numbers@ == values(ids@),
{
    let mut numbers: Vec<u64> = Vec::new();
    let mut i: usize = 0;
    while i < ids.len()
        invariant
            i <= ids.len(),
            numbers@.len() == i,
            forall|j: int| 0 <= j < i ==> numbers@[j] == ids@[j].value,
        decreases ids.len() - i,
    {
        numbers.push(ids[i].value());
        i += 1;
    }
    assert(numbers@ =~= values(ids@));
    numbers
}

/// The word by which a state is known across the boundary; `NotFound` where
/// there is no agent to speak of.
pub open spec fn state_word(state: Option<State>) -> Seq<char> {
    match state {
        Some(State::Running) => "Running"@,
        Some(State::Paused) => "Paused"@,
        Some(State::Stopped) => "Stopped"@,
        None => "NotFound"@,
    }
}

/// The state that a word stands for, if it stands for one.
pub open spec fn word_state(word: Seq<char>) -> Option<State> {
    if word == "Running"@ {
        Some(State::Running)
    } else if word == "Paused"@ {
        Some(State::Paused)
    } else if word == "Stopped"@ {
        Some(State::Stopped)
    } else {
        None
    }
}

/// The state that a word stands for, if it stands for one.
pub fn parse_state(word: &str) -> (state: Option<State>)
    ensures
        state == word_state(word@),
{
    let word = word.to_owned();
    if word == "Running".to_owned() {
        Some(State::Running)
    } else if word == "Paused".to_owned() {
        Some(State::Paused)
    } else if word == "Stopped".to_owned() {
        Some(State::Stopped)
    } else {
        None
    }
}

/// The surface that a scripting host drives: agents are addressed by name,
/// failures come back as `false`, `0`, `NotFound` or an empty JSON list, and
/// lists come back as JSON text.
impl<L: LifeCycle, N: Network> Runtime<L, N> {
    /// A runtime without agents.
    pub fn wasm_new() -> (runtime: Self)
        ensures
            runtime@ == RuntimeModel::<L, N>::empty(),
            runtime@.wf(),
    {
        Self::new()
    }

    /// One step.
    pub fn wasm_step(&mut self)
        ensures
            final(self)@ == old(self)@.step(),
            old(self)@.wf() ==> final(self)@.wf(),
    {
        self.step()
    }

    /// Whether a step would find an agent to drain.
    pub fn wasm_has_pending_work(&self) -> (pending: bool)
        ensures
            pending == self@.has_pending_work(),
    {
        self.has_pending_work()
    }

    /// Starts the agent with this name. The answer is whether there is one.
    pub fn wasm_start_agent(&mut self, agent_name: &str) -> (found: bool)
        ensures
            final(self)@ == old(self)@.put_named(
                agent_name@,
                |a: AgentModel<L, N>| a.start(),
            ),
            found == (old(self)@.resolve(agent_name@) matches Some(id) && old(self)@.holds(id)),
            old(self)@.wf() ==> final(self)@.wf(),
    {
        self.start_agent_by_name(agent_name).is_ok()
    }

    /// Pauses the agent with this name. The answer is whether there is one.
    pub fn wasm_pause_agent(&mut self, agent_name: &str) -> (found: bool)
        ensures
            final(self)@ == old(self)@.put_named(
                agent_name@,
                |a: AgentModel<L, N>| a.pause(),
            ),
            found == (old(self)@.resolve(agent_name@) matches Some(id) && old(self)@.holds(id)),
            old(self)@.wf() ==> final(self)@.wf(),
    {
        self.pause_agent_by_name(agent_name).is_ok()
    }

    /// Resumes the agent with this name. The answer is whether there is one.
    pub fn wasm_resume_agent(&mut self, agent_name: &str) -> (found: bool)
        ensures
            final(self)@ == old(self)@.put_named(
                agent_name@,
                |a: AgentModel<L, N>| a.resume().0,
            ),
            found == (old(self)@.resolve(agent_name@) matches Some(id) && old(self)@.holds(id)),
            old(self)@.wf() ==> final(self)@.wf(),
    {
        self.resume_agent_by_name(agent_name).is_ok()
    }

    /// Stops the agent with this name. The answer is whether there is one.
    pub fn wasm_stop_agent(&mut self, agent_name: &str) -> (found: bool)
        ensures
            final(self)@ == old(self)@.put_named(
                agent_name@,
                |a: AgentModel<L, N>| a.stop(),
            ),
            found == (old(self)@.resolve(agent_name@) matches Some(id) && old(self)@.holds(id)),
            old(self)@.wf() ==> final(self)@.wf(),
    {
        self.stop_agent_by_name(agent_name).is_ok()
    }

    /// Removes the agent with this name and drops it. The answer is whether
    /// there was one.
    pub fn wasm_remove_agent(&mut self, agent_name: &str) -> (found: bool)
        ensures
            final(self)@ == match old(self)@.resolve(agent_name@) {
                Some(id) => old(self)@.forget(agent_name@).remove(id),
                None => old(self)@,
            },
            found == (old(self)@.resolve(agent_name@) matches Some(id) && old(self)@.holds(id)),
            old(self)@.wf() ==> final(self)@.wf(),
    {
        self.remove_agent_by_name(agent_name).is_ok()
    }

    /// Starts every stopped agent. The answer is how many there were.
    pub fn wasm_start_all_agents(&mut self) -> (started: usize)
        ensures
            final(self)@ == old(self)@.start_all(),
            started == count_in_state(old(self)@.agents, State::Stopped),
            old(self)@.wf() ==> final(self)@.wf(),
    {
        self.start_all_agents()
    }

    /// Pauses every running agent. The answer is how many there were.
    pub fn wasm_pause_all_agents(&mut self) -> (paused: usize)
        ensures
            final(self)@ == old(self)@.pause_all(),
            paused == count_in_state(old(self)@.agents, State::Running),
            old(self)@.wf() ==> final(self)@.wf(),
    {
        self.pause_all_agents()
    }

    /// Resumes every paused agent. The answer is how many there were.
    pub fn wasm_resume_all_agents(&mut self) -> (resumed: usize)
        ensures
            final(self)@ == old(self)@.resume_all(),
            resumed == count_in_state(old(self)@.agents, State::Paused),
            old(self)@.wf() ==> final(self)@.wf(),
    {
        self.resume_all_agents()
    }

    /// Stops every agent that is not stopped. The answer is how many there were.
    pub fn wasm_stop_all_agents(&mut self) -> (stopped: usize)
        ensures
            final(self)@ == old(self)@.stop_all(),
            stopped == old(self)@.agents.len() - count_in_state(
                old(self)@.agents,
                State::Stopped,
            ),
            old(self)@.wf() ==> final(self)@.wf(),
    {
        self.stop_all_agents()
    }

    /// Removes all agents and drops them. The answer is how many there were.
    pub fn wasm_remove_all_agents(&mut self) -> (removed: usize)
        ensures
            final(self)@ == RuntimeModel::<L, N>::empty(),
            removed == old(self)@.agents.len(),
    {
        self.remove_all_agents().len()
    }

    /// How many agents the runtime holds.
    pub fn wasm_agent_count(&self) -> (count: usize)
        ensures
            count == self@.agents.len(),
    {
        self.agent_count()
    }

    /// How many agents are running and have mail.
    pub fn wasm_agents_needing_processing(&self) -> (n: usize)
        ensures
            n == self@.needing_processing(),
    {
        self.agents_needing_processing()
    }

    /// The state of the agent with this name as a word: `Running`, `Paused` or
    /// `Stopped`, and `NotFound` where the name leads to no agent.
    pub fn wasm_agent_state(&self, agent_name: &str) -> (word: String)
        ensures
            word@ == state_word(
                match self@.resolve(agent_name@) {
                    Some(id) => if self@.holds(id) {
                        Some(self@.agent(id).state)
                    } else {
                        None
                    },
                    None => None,
                },
            ),
    {
        match self.agent_state_by_name(agent_name) {
            Some(State::Running) => "Running".to_owned(),
            Some(State::Paused) => "Paused".to_owned(),
            Some(State::Stopped) => "Stopped".to_owned(),
            None => "NotFound".to_owned(),
        }
    }

    /// The number behind the identifier that the name resolves to, and 0 where
    /// the name index does not know the name.
    pub fn wasm_agent_id_by_name(&self, name: &str) -> (value: u64)
        ensures
            value == match self@.resolve(name@) {
                Some(id) => id.value,
                None => 0,
            },
    {
        match self.agent_id_by_name(name) {
            Some(id) => id.value(),
            None => 0,
        }
    }

    /// The names that the name index knows, as a JSON list.
    pub fn wasm_agent_names(&self) -> (text: String)
        ensures
            text@ == json_of_strings(self@.names.map_values(|b: (Seq<char>, AgentId)| b.0)),
    {
        let names = self.agent_names();
        assert(texts(names@) =~= self@.names.map_values(|b: (Seq<char>, AgentId)| b.0));
        encoded_or(strings_to_json(&names), "[]")
    }

    /// The identifiers of all agents, as a JSON list of numbers.
    pub fn wasm_agent_ids(&self) -> (text: String)
        ensures
            text@ == json_of_numbers(values(ids_of(self@.agents))),
    {
        let ids = self.agent_ids();
        let numbers = id_values(&ids);
        encoded_or(numbers_to_json(&numbers), "[]")
    }

    /// The identifiers of the agents in the state that the word stands for, as
    /// a JSON list of numbers. A word that stands for no state gives an empty
    /// list.
    pub fn wasm_agents_by_state(&self, state_str: &str) -> (text: String)
        ensures
            match word_state(state_str@) {
                Some(state) => text@ == json_of_numbers(values(ids_in_state(self@.agents, state))),
                None => text@ == "[]"@,
            },
    {
        match parse_state(state_str) {
            Some(state) => {
                let ids = self.agents_by_state(state);
                let numbers = id_values(&ids);
                encoded_or(numbers_to_json(&numbers), "[]")
            },
            None => "[]".to_owned(),
        }
    }

    /// Takes steps while there is work. The answer is how many handler outcomes
    /// the steps produced.
    pub fn wasm_process_all_pending_messages(&mut self) -> (handled: usize)
        ensures
            final(self)@ == old(self)@.settle_all(usize::MAX as nat).0,
            handled == if old(self)@.settle_all(usize::MAX as nat).1 <= usize::MAX {
                old(self)@.settle_all(usize::MAX as nat).1
            } else {
                usize::MAX as nat
            },
            old(self)@.wf() ==> final(self)@.wf(),
    {
        self.process_all_pending_messages()
    }
}

} // verus!
