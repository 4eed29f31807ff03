use crate::error::ArbiterCoreError;
use vstd::prelude::*;

verus! {

/// The mathematical value of a universe.
pub ghost struct UniverseModel<W, R> {
    /// The worlds that wait to be run, each under its name, until they are
    /// launched.
    pub worlds: Option<Seq<(Seq<char>, W)>>,
    /// What running the worlds resulted in, once they have landed.
    pub results: Option<Seq<R>>,
}

/// The position of the first world under this name, if there is one.
pub open spec fn place<W>(worlds: Seq<(Seq<char>, W)>, id: Seq<char>) -> Option<int>
    decreases worlds.len(),
{
    if worlds.len() == 0 {
        None
    } else {
        match place(worlds.drop_last(), id) {
            Some(i) => Some(i),
            None => if worlds.last().0 == id {
                Some(worlds.len() - 1)
            } else {
                None
            },
        }
    }
}

impl<W, R> UniverseModel<W, R> {
    /// A universe that has run is online.
    pub open spec fn is_online(self) -> bool {
        self.results.is_some()
    }

    /// Whether the worlds can be launched: they have not run and are not
    /// running.
    pub open spec fn can_launch(self) -> bool {
        self.results.is_none() && self.worlds.is_some()
    }

    /// The world joins those that wait. A world that waited under the same
    /// name gives way to it. Once the worlds are launched, nothing joins.
    pub open spec fn add_world(self, id: Seq<char>, world: W) -> Self {
        match self.worlds {
            Some(worlds) => UniverseModel {
                worlds: Some(
                    match place(worlds, id) {
                        Some(i) => worlds.update(i, (id, world)),
                        None => worlds.push((id, world)),
                    },
                ),
                ..self
            },
            None => self,
        }
    }
}

/// Worlds to be run side by side. `W` is a world, and `R` is what running a
/// world results in.
pub struct Universe<W, R> {
    worlds: Option<Vec<(String, W)>>,
    world_tasks: Option<Vec<R>>,
}

impl<W, R> View for Universe<W, R> {
    type V = UniverseModel<W, R>;

    closed spec fn view(&self) -> UniverseModel<W, R> {
        UniverseModel {
            worlds: match self.worlds {
                Some(worlds) => Some(Seq::new(worlds@.len(), |i: int| (worlds@[i].0@, worlds@[i].1))),
                None => None,
            },
            results: match self.world_tasks {
                Some(results) => Some(results@),
                None => None,
            },
        }
    }
}

/// What `place` finds is a position under the name, and nothing before it is.
proof fn place_is_first<W>(worlds: Seq<(Seq<char>, W)>, id: Seq<char>)
    ensures
        match place(worlds, id) {
            Some(i) => 0 <= i < worlds.len() && worlds[i].0 == id && forall|j: int|
                0 <= j < i ==> (#[trigger] worlds[j]).0 != id,
            None => forall|j: int| 0 <= j < worlds.len() ==> (#[trigger] worlds[j]).0 != id,
        },
    decreases worlds.len(),
{
    if worlds.len() > 0 {
        place_is_first(worlds.drop_last(), id);
        assert forall|j: int| 0 <= j < worlds.len() - 1 implies (#[trigger] worlds[j])
            == worlds.drop_last()[j] by {}
    }
}

impl<W, R> Universe<W, R> {
    /// A universe without worlds, ready to take some.
    pub fn new() -> (universe: Self)
        ensures
            universe@.worlds == Some(Seq::<(Seq<char>, W)>::empty()),
            universe@.results.is_none(),
    {
        let universe = Universe { worlds: Some(Vec::new()), world_tasks: None };
        assert(universe@.worlds.unwrap() =~= Seq::empty());
        universe
    }

    /// Adds a world under its name.
    pub fn add_world(&mut self, id: &str, world: W)
        ensures
            final(self)@ == old(self)@.add_world(id@, world),
    {
        let mut worlds = match self.worlds.take() {
            Some(worlds) => worlds,
            None => {
                return ;
            },
        };
        let key = id.to_owned();
        let ghost before = old(self)@.worlds.unwrap();
        let mut i: usize = 0;
        while i < worlds.len()
            invariant
                i <= worlds.len(),
                key@ == id@,
                self.world_tasks == old(self).world_tasks,
                old(self)@.worlds == Some(before),
                before == Seq::new(worlds@.len(), |k: int| (worlds@[k].0@, worlds@[k].1)),
                forall|j: int| 0 <= j < i ==> (#[trigger] before[j]).0 != id@,
            decreases worlds.len() - i,
        {
            if worlds[i].0 == key {
                proof {
                    assert(before[i as int].0 == id@);
                    place_is_first(before, id@);
                }
                worlds[i] = (key, world);
                self.worlds = Some(worlds);
                assert(self@.worlds.unwrap() =~= before.update(i as int, (id@, world)));
                return ;
            }
            i += 1;
        }
        proof {
            place_is_first(before, id@);
            if place(before, id@).is_some() {
                assert(before[place(before, id@).unwrap()].0 == id@);
            }
        }
        worlds.push((key, world));
        self.worlds = Some(worlds);
        assert(self@.worlds.unwrap() =~= before.push((id@, world)));
    }

    /// Whether the worlds of this universe have run.
    pub fn is_online(&self) -> (online: bool)
        ensures
            online == self@.is_online(),
    {
        self.world_tasks.is_some()
    }

    /// Hands out the worlds to be run. A universe whose worlds have run, or
    /// are running, refuses.
    pub fn launch(&mut self) -> (result: Result<Vec<(String, W)>, ArbiterCoreError>)
        ensures
            match result {
                Ok(worlds) => old(self)@.can_launch() && final(self)@ == (UniverseModel {
                    worlds: None,
                    ..old(self)@
                }) && Seq::new(worlds@.len(), |i: int| (worlds@[i].0@, worlds@[i].1)) == old(self)@.worlds.unwrap(),
                Err(ArbiterCoreError::UniverseError(text)) => !old(self)@.can_launch() && final(self)@ == old(self)@ && text@ == "Universe is already running."@,
                Err(_) => false,
            },
    {
        if self.world_tasks.is_some() {
            return Err(ArbiterCoreError::UniverseError("Universe is already running.".to_owned()));
        }
        match self.worlds.take() {
            Some(worlds) => Ok(worlds),
            None => Err(ArbiterCoreError::UniverseError("Universe is already running.".to_owned())),
        }
    }

    /// Takes in what running the worlds resulted in. From now on the universe
    /// is online.
    pub fn land(&mut self, results: Vec<R>)
        ensures
            final(self)@ == (UniverseModel { results: Some(results@), ..old(self)@ }),
    {
        self.world_tasks = Some(results);
    }

    /// What running the worlds resulted in, once they have landed.
    pub fn results(&self) -> (results: Option<&Vec<R>>)
        ensures
            match results {
                Some(r) => self@.results == Some(r@),
                None => self@.results.is_none(),
            },
    {
        self.world_tasks.as_ref()
    }

    /// Runs the worlds, one after the other in the order in which they were
    /// added, and keeps what they result in.
    pub fn run_worlds<F: Fn(W) -> R>(&mut self, run: F) -> (result: Result<(), ArbiterCoreError>)
        requires
            forall|world: W| run.requires((world,)),
        ensures
            match result {
                Ok(_) => {
                    &&& old(self)@.can_launch()
                    &&& final(self)@.worlds.is_none()
                    &&& final(self)@.results.is_some()
                    &&& final(self)@.results.unwrap().len() == old(self)@.worlds.unwrap().len()
                    &&& forall|i: int|
                        0 <= i < old(self)@.worlds.unwrap().len() ==> run.ensures(
                            (old(self)@.worlds.unwrap()[i].1,),
                            #[trigger] final(self)@.results.unwrap()[i],
                        )
                },
                Err(ArbiterCoreError::UniverseError(text)) => !old(self)@.can_launch() && final(self)@ == old(self)@ && text@ == "Universe is already running."@,
                Err(_) => false,
            },
    {
        let mut worlds = match self.launch() {
            Ok(worlds) => worlds,
            Err(e) => {
                return Err(e);
            },
        };
        let ghost all = worlds@;
        let mut results: Vec<R> = Vec::new();
        while worlds.len() > 0
            invariant
                forall|world: W| run.requires((world,)),
                results@.len() + worlds@.len() == all.len(),
                forall|i: int| 0 <= i < worlds@.len() ==> worlds@[i] == all[results@.len() + i],
                forall|i: int|
                    0 <= i < results@.len() ==> run.ensures((all[i].1,), #[trigger] results@[i]),
            decreases worlds.len(),
        {
            let (_, world) = worlds.remove(0);
            let outcome = run(world);
            results.push(outcome);
        }
        self.land(results);
        Ok(())
    }
}

} // verus!
