use crate::error::ArbiterCoreError;
use std::collections::HashMap;
use std::hash::Hash;
use vstd::prelude::*;
use vstd::std_specs::hash::*;

verus! {

broadcast use vstd::std_specs::hash::group_hash_axioms;

/// A store of states by location, as a simulation's environment keeps it.
pub trait Database: Sized {
    /// Where a state is kept.
    type Location;

    /// What is kept.
    type State;

    /// What `new`, `get` and `set` fail with.
    type Error;

    /// Whether `contents` describes this kind of store. The contracts of `get`
    /// and `set` are stated for the stores of which it does.
    open spec fn described() -> bool {
        arbitrary()
    }

    /// What the store holds.
    open spec fn contents(&self) -> Map<Self::Location, Self::State> {
        arbitrary()
    }

    /// A store to begin with.
    fn new() -> Result<Self, Self::Error>;

    /// The state at a location. A state that is handed out is the state that
    /// the store holds there.
    fn get(&self, location: Self::Location) -> (state: Result<&Self::State, Self::Error>)
        ensures
            Self::described() ==> (state matches Ok(s) ==> self.contents().contains_key(location)
                && *s == self.contents()[location]),
    ;

    /// Puts a state at a location. Where this succeeds, the store holds the
    /// state there and is otherwise as it was.
    fn set(&mut self, location: Self::Location, state: Self::State) -> (done: Result<
        (),
        Self::Error,
    >)
        ensures
            Self::described() ==> (done is Ok ==> final(self).contents() == old(
                self,
            ).contents().insert(location, state)),
    ;
}

/// A store in a hash map. Its contents are described where the keys hash as
/// their values say.
pub struct MapDatabase<K, V> {
    map: HashMap<K, V>,
}

impl<K, V> View for MapDatabase<K, V> {
    type V = Map<K, V>;

    closed spec fn view(&self) -> Map<K, V> {
        self.map@
    }
}

impl<K, V> MapDatabase<K, V> {
    /// The map that holds the states.
    pub fn as_map(&self) -> (map: &HashMap<K, V>)
        ensures
            map@ == self@,
    {
        &self.map
    }
}

impl<K, V> Database for MapDatabase<K, V> where K: Eq + Hash {
    type Location = K;

    type State = V;

    type Error = ArbiterCoreError;

    open spec fn described() -> bool {
        obeys_key_model::<K>()
    }

    open spec fn contents(&self) -> Map<K, V> {
        self@
    }

    fn new() -> (db: Result<Self, Self::Error>)
        ensures
            db is Ok,
            db.unwrap()@ == Map::<K, V>::empty(),
    {
        Ok(MapDatabase { map: HashMap::new() })
    }

    /// A location without a state is an error.
    fn get(&self, location: Self::Location) -> (state: Result<&Self::State, Self::Error>)
        ensures
            obeys_key_model::<K>() ==> (state is Ok <==> self@.contains_key(location)),
    {
        match self.map.get(&location) {
            Some(state) => Ok(state),
            None => Err(ArbiterCoreError::DatabaseError("no state at this location".to_owned())),
        }
    }

    fn set(&mut self, location: Self::Location, state: Self::State) -> (done: Result<
        (),
        Self::Error,
    >)
        ensures
            done is Ok,
    {
        self.map.insert(location, state);
        Ok(())
    }
}

/// The store that has the unit state at its one location.
impl Database for () {
    type Location = ();

    type State = ();

    type Error = ();

    open spec fn described() -> bool {
        true
    }

    open spec fn contents(&self) -> Map<(), ()> {
        Map::new(|location: ()| true, |location: ()| ())
    }

    /// The unit store is always to be had.
    fn new() -> (db: Result<Self, Self::Error>)
        ensures
            db == Ok::<(), ()>(()),
    {
        Ok(())
    }

    /// The state at the one location is the unit state, always.
    fn get(&self, _location: Self::Location) -> (state: Result<&Self::State, Self::Error>)
        ensures
            state == Ok::<&(), ()>(&()),
            self.contents().contains_key(_location),
            self.contents()[_location] == (),
    {
        Ok(&())
    }

    /// Putting the unit state at the one location always succeeds and leaves
    /// the store as it is.
    fn set(&mut self, _location: Self::Location, _state: Self::State) -> (done: Result<
        (),
        Self::Error,
    >)
        ensures
            done == Ok::<(), ()>(()),
            *final(self) == *old(self),
            final(self).contents() == old(self).contents(),
    {
        assert(self.contents().insert((), ()) =~= self.contents());
        Ok(())
    }
}

} // verus!
