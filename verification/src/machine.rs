use crate::environment::Database;
use crate::error::ArbiterCoreError;
use crate::messager::{MessageFrom, MessageTo};
use vstd::prelude::*;

verus! {

/// What a behaviour asks the engine to do.
pub enum Action<DB: Database> {
    StateChange(DB::Location, DB::State),
    MessageTo(MessageTo),
}

/// What the engine tells a behaviour.
pub enum Event<DB: Database> {
    StateChange(DB::Location, DB::State),
    MessageFrom(MessageFrom),
}

/// Actions in the order in which they are to be carried out.
pub struct Actions<DB: Database> {
    actions: Vec<Action<DB>>,
}

impl<DB: Database> View for Actions<DB> {
    type V = Seq<Action<DB>>;

    closed spec fn view(&self) -> Seq<Action<DB>> {
        self.actions@
    }
}

impl<DB: Database> Actions<DB> {
    /// No actions.
    pub fn new() -> (actions: Self)
        ensures
            actions@ == Seq::<Action<DB>>::empty(),
    {
        Actions { actions: Vec::new() }
    }

    /// One more action, to be carried out after those before it.
    pub fn add_action(&mut self, action: Action<DB>)
        ensures
            final(self)@ == old(self)@.push(action),
    {
        self.actions.push(action);
    }

    /// The actions as a list.
    pub fn into_vec(self) -> (actions: Vec<Action<DB>>)
        ensures
            actions@ == self@,
    {
        self.actions
    }

    /// Whether there is nothing to carry out.
    pub fn is_empty(&self) -> (empty: bool)
        ensures
            empty == (self@.len() == 0),
    {
        self.actions.len() == 0
    }
}

/// Whether a behaviour goes on after an event.
#[derive(Clone, Copy, Debug, PartialEq, Eq, Structural)]
pub enum ControlFlow {
    Halt,
    Continue,
}

/// Decides which events a behaviour gets to see.
pub trait Filter<DB: Database>: Send {
    /// Whether the filter lets the event through.
    open spec fn passes(&self, event: Event<DB>) -> bool {
        arbitrary()
    }

    /// Whether the filter lets the event through.
    fn filter(&self, event: &Event<DB>) -> (pass: bool)
        ensures
            pass == self.passes(*event),
    ;
}

/// What `startup` hands back: the filter under which the behaviour wants to
/// see events, if it wants to see any, and the actions to begin with.
pub type Startup<DB> = Result<(Option<Box<dyn Filter<DB>>>, Actions<DB>), ArbiterCoreError>;

/// What `process_event` hands back: whether the behaviour goes on, and the
/// actions that the event has caused.
pub type Processed<DB> = Result<(ControlFlow, Actions<DB>), ArbiterCoreError>;

/// A unit of an agent's logic in the engine: it starts up once and is then
/// shown the events that its filter lets through.
///
/// Both calls are described by spec functions of the behaviour before the
/// call, so that what the engine does with a list of behaviours can be stated
/// exactly.
pub trait Behavior<DB: Database>: Sized {
    /// The behaviour after `startup`, and what `startup` returns.
    open spec fn started(self) -> (Self, Startup<DB>) {
        arbitrary()
    }

    /// The behaviour after the event, and what `process_event` returns.
    open spec fn processed(self, event: Event<DB>) -> (Self, Processed<DB>) {
        arbitrary()
    }

    /// Called once, before any event.
    fn startup(&mut self) -> (result: Startup<DB>)
        ensures
            (*final(self), result) == old(self).started(),
    ;

    /// Called for every event that the filter lets through.
    fn process_event(&mut self, event: &Event<DB>) -> (result: Processed<DB>)
        ensures
            (*final(self), result) == old(self).processed(*event),
    ;
}

/// The filter that a behaviour asked for.
#[verifier::reject_recursive_types(DB)]
pub struct Gate<DB: Database> {
    pub filter: Box<dyn Filter<DB>>,
}

/// A behaviour at work, behind the filter it asked for.
#[verifier::reject_recursive_types(DB)]
pub struct Engaged<DB: Database, B: Behavior<DB>> {
    pub behavior: B,
    pub gate: Gate<DB>,
}

/// The behaviours of one agent that are at work, in the order in which they
/// were given.
#[verifier::reject_recursive_types(DB)]
pub struct Engine<DB: Database, B: Behavior<DB>> {
    engaged: Vec<Engaged<DB, B>>,
}

impl<DB: Database, B: Behavior<DB>> View for Engine<DB, B> {
    type V = Seq<Engaged<DB, B>>;

    closed spec fn view(&self) -> Seq<Engaged<DB, B>> {
        self.engaged@
    }
}

/// The behaviours that stay at work after starting up, and the actions to
/// begin with, up to the first behaviour that fails to start.
///
/// A behaviour that asks for no filter does not take part: it is dropped, and
/// so are its actions.
pub open spec fn start_all<DB: Database, B: Behavior<DB>>(behaviors: Seq<B>) -> Result<
    (Seq<Engaged<DB, B>>, Seq<Actions<DB>>),
    ArbiterCoreError,
>
    decreases behaviors.len(),
{
    if behaviors.len() == 0 {
        Ok((Seq::empty(), Seq::empty()))
    } else {
        match start_all::<DB, B>(behaviors.drop_last()) {
            Err(e) => Err(e),
            Ok((engaged, due)) => {
                let (behavior, result) = behaviors.last().started();
                match result {
                    Err(e) => Err(e),
                    Ok((Some(filter), actions)) => Ok(
                        (
                            engaged.push(Engaged { behavior, gate: Gate { filter } }),
                            due.push(actions),
                        ),
                    ),
                    Ok((None, _)) => Ok((engaged, due)),
                }
            },
        }
    }
}

/// What one behaviour at work does with an event: whether it stays at work,
/// and the actions that are due. Empty lists of actions are not due.
///
/// A behaviour whose filter holds the event back is not asked. One that fails
/// stays at work, and nothing is due.
pub open spec fn show<DB: Database, B: Behavior<DB>>(one: Engaged<DB, B>, event: Event<DB>) -> (
    Option<Engaged<DB, B>>,
    Option<Actions<DB>>,
) {
    if one.gate.filter.passes(event) {
        let (behavior, result) = one.behavior.processed(event);
        let after = Engaged { behavior, gate: one.gate };
        match result {
            Ok((flow, actions)) => (
                if flow == ControlFlow::Halt {
                    None
                } else {
                    Some(after)
                },
                if actions@.len() == 0 {
                    None
                } else {
                    Some(actions)
                },
            ),
            Err(_) => (Some(after), None),
        }
    } else {
        (Some(one), None)
    }
}

/// What the behaviours at work do with an event, one after the other: those
/// that stay at work, and the actions that are due, both in order.
pub open spec fn show_all<DB: Database, B: Behavior<DB>>(
    engaged: Seq<Engaged<DB, B>>,
    event: Event<DB>,
) -> (Seq<Engaged<DB, B>>, Seq<Actions<DB>>)
    decreases engaged.len(),
{
    if engaged.len() == 0 {
        (Seq::empty(), Seq::empty())
    } else {
        let (kept, due) = show_all(engaged.drop_last(), event);
        let (stays, actions) = show(engaged.last(), event);
        (
            match stays {
                Some(one) => kept.push(one),
                None => kept,
            },
            match actions {
                Some(a) => due.push(a),
                None => due,
            },
        )
    }
}

impl<DB: Database, B: Behavior<DB>> Engine<DB, B> {
    /// Starts the behaviours in order. Those that ask for a filter go to work,
    /// and their start-up actions are handed back to be carried out. The first
    /// behaviour that fails to start ends the start-up with its error.
    pub fn start(behaviors: Vec<B>) -> (result: Result<(Self, Vec<Actions<DB>>), ArbiterCoreError>)
        ensures
            match (result, start_all::<DB, B>(behaviors@)) {
                (Ok((engine, due)), Ok((engaged, actions))) => engine@ == engaged && due@
                    == actions,
                (Err(e), Err(expected)) => e == expected,
                _ => false,
            },
    {
        let mut rest = behaviors;
        let ghost all = rest@;
        let mut engaged: Vec<Engaged<DB, B>> = Vec::new();
        let mut due: Vec<Actions<DB>> = Vec::new();
        let ghost mut done: int = 0;
        assert(all.take(0) =~= Seq::empty());
        assert(all.skip(0) =~= all);
        while rest.len() > 0
            invariant
                all == behaviors@,
                0 <= done <= all.len(),
                rest@ == all.skip(done),
                start_all::<DB, B>(all.take(done)) == Ok::<
                    (Seq<Engaged<DB, B>>, Seq<Actions<DB>>),
                    ArbiterCoreError,
                >((engaged@, due@)),
            decreases rest.len(),
        {
            let mut behavior = rest.remove(0);
            proof {
                let prefix = all.take(done + 1);
                assert(prefix.drop_last() =~= all.take(done));
                assert(prefix.last() == all[done]);
                assert(rest@ =~= all.skip(done + 1));
                assert(behavior == all.skip(done)[0]);
            }
            match behavior.startup() {
                Err(e) => {
                    proof {
                        failed_start_fails(all, done + 1);
                    }
                    return Err(e);
                },
                Ok((Some(filter), actions)) => {
                    engaged.push(Engaged { behavior, gate: Gate { filter } });
                    due.push(actions);
                },
                Ok((None, _)) => {},
            }
            proof {
                done = done + 1;
            }
        }
        assert(all.take(done) =~= all);
        Ok((Engine { engaged }, due))
    }

    /// Whether no behaviour is at work any more.
    pub fn is_idle(&self) -> (idle: bool)
        ensures
            idle == (self@.len() == 0),
    {
        self.engaged.len() == 0
    }

    /// How many behaviours are at work.
    pub fn len(&self) -> (n: usize)
        ensures
            n == self@.len(),
    {
        self.engaged.len()
    }

    /// Shows the event to the behaviours at work, in order. A behaviour that
    /// halts leaves the engine. The actions that are due are handed back to be
    /// carried out, in the order of the behaviours.
    pub fn dispatch(&mut self, event: &Event<DB>) -> (due: Vec<Actions<DB>>)
        ensures
            (final(self)@, due@) == show_all(old(self)@, *event),
    {
        let mut due: Vec<Actions<DB>> = Vec::new();
        let ghost all = self.engaged@;
        // `i` is the place of the next behaviour to ask; `seen` counts those asked.
        let mut i: usize = 0;
        let ghost mut seen: int = 0;
        assert(all.take(0) =~= Seq::empty());
        assert(self.engaged@.take(0) =~= Seq::empty());
        assert(self.engaged@.skip(0) =~= self.engaged@);
        assert(all.skip(0) =~= all);
        while i < self.engaged.len()
            invariant
                0 <= i <= self.engaged@.len(),
                0 <= seen <= all.len(),
                self.engaged@.len() - i == all.len() - seen,
                self.engaged@.skip(i as int) == all.skip(seen),
                show_all(all.take(seen), *event) == (self.engaged@.take(i as int), due@),
            decreases self.engaged@.len() - i,
        {
            let ghost before = self.engaged@;
            proof {
                let prefix = all.take(seen + 1);
                assert(prefix.drop_last() =~= all.take(seen));
                assert(prefix.last() == all[seen]);
                assert(before.skip(i as int)[0] == all.skip(seen)[0]);
                assert(before[i as int] == all[seen]);
            }
            let mut keep = true;
            if self.engaged[i].gate.filter.filter(event) {
                match self.engaged[i].behavior.process_event(event) {
                    Ok((flow, actions)) => {
                        if !actions.is_empty() {
                            due.push(actions);
                        }
                        keep = flow != ControlFlow::Halt;
                    },
                    Err(_) => {},
                }
            }
            proof {
                assert(self.engaged@.skip(i as int + 1) =~= before.skip(i as int + 1));
                assert(before.skip(i as int + 1) =~= before.skip(i as int).drop_first());
                assert(all.skip(seen + 1) =~= all.skip(seen).drop_first());
                assert(self.engaged@.take(i as int) =~= before.take(i as int));
            }
            if keep {
                proof {
                    assert(self.engaged@.take(i as int + 1) =~= before.take(i as int).push(
                        self.engaged@[i as int],
                    ));
                }
                i += 1;
            } else {
                let ghost shown = self.engaged@;
                self.engaged.remove(i);
                proof {
                    assert(self.engaged@.take(i as int) =~= shown.take(i as int));
                    assert(self.engaged@.skip(i as int) =~= shown.skip(i as int + 1));
                }
            }
            proof {
                seen = seen + 1;
            }
        }
        assert(all.take(seen) =~= all);
        assert(self.engaged@.take(i as int) =~= self.engaged@);
        due
    }
}

/// Once a behaviour has failed to start, the start-up of every longer list
/// fails with the same error.
proof fn failed_start_fails<DB: Database, B: Behavior<DB>>(behaviors: Seq<B>, upto: int)
    requires
        0 <= upto <= behaviors.len(),
        start_all::<DB, B>(behaviors.take(upto)) is Err,
    ensures
        start_all::<DB, B>(behaviors) == start_all::<DB, B>(behaviors.take(upto)),
    decreases behaviors.len() - upto,
{
    if upto == behaviors.len() {
        assert(behaviors.take(upto) =~= behaviors);
    } else {
        let longer = behaviors.take(upto + 1);
        assert(longer.drop_last() =~= behaviors.take(upto));
        failed_start_fails(behaviors, upto + 1);
    }
}

} // verus!

