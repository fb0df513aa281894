//! The state that the host application hands to its pages: one value for
//! each kind, looked up by the kind's name.

use crate::text::str_eq;
use vstd::prelude::*;
use vstd::string::*;

verus! {

/// What can be stored as a state: a value that every request may read at the
/// same time, for as long as the application runs.
pub trait AnyState: Send + Sync + 'static {

}

impl<T: Send + Sync + 'static> AnyState for T {

}

/// One stored state with the name of its kind.
pub struct StateEntry<V> {
    pub kind: String,
    pub state: V,
}

/// Whether no kind occurs twice in `entries`.
pub open spec fn distinct_kinds<V>(entries: Seq<StateEntry<V>>) -> bool {
    forall|i: int, j: int|
        0 <= i < entries.len() && 0 <= j < entries.len() && i != j ==> (#[trigger] entries[i]).kind@
            != (#[trigger] entries[j]).kind@
}

/// Whether the entry at `i` is of kind `kind`.
pub open spec fn holds_kind<V>(entries: Seq<StateEntry<V>>, kind: Seq<char>, i: int) -> bool {
    0 <= i < entries.len() && entries[i].kind@ == kind
}

/// The map that a list of entries stands for.
pub open spec fn entries_map<V>(entries: Seq<StateEntry<V>>) -> Map<Seq<char>, V> {
    Map::new(
        |kind: Seq<char>| exists|i: int| holds_kind(entries, kind, i),
        |kind: Seq<char>| entries[choose|i: int| holds_kind(entries, kind, i)].state,
    )
}

/// The states of an application. `V` is what a stored state is held as.
///
/// The map is filled while the application is put together and only read
/// after that.
pub struct StatesMap<V: AnyState> {
    entries: Vec<StateEntry<V>>,
}

impl<V: AnyState> View for StatesMap<V> {
    type V = Map<Seq<char>, V>;

    closed spec fn view(&self) -> Map<Seq<char>, V> {
        entries_map(self.entries@)
    }
}

impl<V: AnyState> StatesMap<V> {
    /// Whether the map holds at most one state of each kind. Every map that
    /// this module hands out does.
    pub closed spec fn wf(&self) -> bool {
        distinct_kinds(self.entries@)
    }

    /// A map without states.
    pub fn new() -> (states: Self)
        ensures
            states.wf(),
            states@ == Map::<Seq<char>, V>::empty(),
    {
        let states = StatesMap { entries: Vec::new() };
        assert(states@ =~= Map::<Seq<char>, V>::empty());
        states
    }

    /// Where the state of kind `kind` is stored.
    fn position(&self, kind: &str) -> (at: Option<usize>)
        ensures
            match at {
                Some(i) => holds_kind(self.entries@, kind@, i as int),
                None => forall|i: int| !holds_kind(self.entries@, kind@, i),
            },
    {
        let mut i: usize = 0;
        while i < self.entries.len()
            invariant
                i <= self.entries@.len(),
                forall|j: int| 0 <= j < i ==> self.entries@[j].kind@ != kind@,
            decreases self.entries@.len() - i,
        {
            if str_eq(self.entries[i].kind.as_str(), kind) {
                return Some(i);
            }
            i += 1;
        }
        None
    }

    /// Stores `state` as the state of kind `kind` and hands back the state of
    /// that kind that was there before.
    pub fn add_state(&mut self, kind: &str, state: V) -> (previous: Option<V>)
        requires
            old(self).wf(),
        ensures
            final(self).wf(),
            final(self)@ == old(self)@.insert(kind@, state),
            match previous {
                Some(before) => old(self)@.contains_key(kind@) && old(self)@[kind@] == before,
                None => !old(self)@.contains_key(kind@),
            },
    {
        let ghost before = self.entries@;
        let at = self.position(kind);
        let previous = match at {
            Some(i) => {
                let entry = self.entries.remove(i);
                proof {
                    assert(holds_kind(before, kind@, i as int));
                    let w = choose|w: int| holds_kind(before, kind@, w);
                    assert(w == i);
                }
                Some(entry.state)
            },
            None => None,
        };
        let ghost without = self.entries@;
        let entry = StateEntry { kind: String::from_str(kind), state };
        self.entries.push(entry);
        proof {
            let after = self.entries@;
            assert forall|j: int| 0 <= j < without.len() implies (#[trigger] without[j]).kind@
                != kind@ && exists|k: int| 0 <= k < before.len() && before[k] == without[j] by {
                match at {
                    Some(i) => {
                        if j < i {
                            assert(without[j] == before[j]);
                        } else {
                            assert(without[j] == before[j + 1]);
                        }
                    },
                    None => {
                        assert(without[j] == before[j]);
                        assert(!holds_kind(before, kind@, j));
                    },
                }
            }
            assert(distinct_kinds(after)) by {
                assert forall|i: int, j: int|
                    0 <= i < after.len() && 0 <= j < after.len() && i != j implies (
                #[trigger] after[i]).kind@ != (#[trigger] after[j]).kind@ by {
                    if i < without.len() && j < without.len() {
                        match at {
                            Some(r) => {
                                let bi = if i < r { i } else { i + 1 };
                                let bj = if j < r { j } else { j + 1 };
                                assert(without[i] == before[bi]);
                                assert(without[j] == before[bj]);
                            },
                            None => {},
                        }
                    }
                }
            }
            let target = entries_map(before).insert(kind@, state);
            assert forall|k: Seq<char>| #[trigger] entries_map(after).contains_key(k)
                <==> target.contains_key(k) by {
                if entries_map(after).contains_key(k) {
                    let w = choose|w: int| holds_kind(after, k, w);
                    if w < without.len() {
                        let b = choose|b: int| 0 <= b < before.len() && before[b] == without[w];
                        assert(holds_kind(before, k, b));
                    }
                }
                if target.contains_key(k) {
                    if k == kind@ {
                        assert(holds_kind(after, k, without.len() as int));
                    } else {
                        let b = choose|b: int| holds_kind(before, k, b);
                        match at {
                            Some(r) => {
                                let a = if b < r { b } else { b - 1 };
                                assert(without[a] == before[b]);
                                assert(holds_kind(after, k, a));
                            },
                            None => {
                                assert(holds_kind(after, k, b));
                            },
                        }
                    }
                }
            }
            assert forall|k: Seq<char>| #[trigger] entries_map(after).contains_key(k) implies
                entries_map(after)[k] == target[k] by {
                let w = choose|w: int| holds_kind(after, k, w);
                if w < without.len() {
                    let b = choose|b: int| 0 <= b < before.len() && before[b] == without[w];
                    assert(holds_kind(before, k, b));
                    let c = choose|c: int| holds_kind(before, k, c);
                    assert(c == b);
                }
            }
            assert(entries_map(after) =~= target);
        }
        previous
    }

    /// The state of kind `kind`.
    pub fn get(&self, kind: &str) -> (state: Option<&V>)
        requires
            self.wf(),
        ensures
            match state {
                Some(found) => self@.contains_key(kind@) && self@[kind@] == *found,
                None => !self@.contains_key(kind@),
            },
    {
        match self.position(kind) {
            Some(i) => {
                proof {
                    let w = choose|w: int| holds_kind(self.entries@, kind@, w);
                    assert(holds_kind(self.entries@, kind@, i as int));
                    assert(w == i);
                }
                Some(&self.entries[i].state)
            },
            None => None,
        }
    }

    /// The state of kind `kind`, or the name of the kind where the map has
    /// none.
    pub fn get_state<'k>(&self, kind: &'k str) -> (state: Result<&V, &'k str>)
        requires
            self.wf(),
        ensures
            match state {
                Ok(found) => self@.contains_key(kind@) && self@[kind@] == *found,
                Err(missing) => !self@.contains_key(kind@) && missing@ == kind@,
            },
    {
        match self.get(kind) {
            Some(found) => Ok(found),
            None => Err(kind),
        }
    }

    /// Takes from the map what `T` asks for.
    pub fn extract<'r, T: ExtractState<'r, V>>(&'r self) -> (extracted: Result<T, &'static str>)
        requires
            self.wf(),
        ensures
            extracted is Ok <==> provides(self@, T::required()),
            match extracted {
                Ok(_) => true,
                Err(missing) => first_missing(self@, T::required()) == Some(missing@),
            },
    {
        T::extract(self)
    }
}

impl<V: AnyState> Default for StatesMap<V> {
    fn default() -> (states: Self)
        ensures
            states.wf(),
            states@ == Map::<Seq<char>, V>::empty(),
    {
        StatesMap::new()
    }
}

/// Whether `states` holds every kind in `required`.
pub open spec fn provides<V>(states: Map<Seq<char>, V>, required: Seq<Seq<char>>) -> bool {
    forall|i: int| 0 <= i < required.len() ==> states.contains_key(#[trigger] required[i])
}

/// The first kind in `required` that `states` does not hold.
pub open spec fn first_missing<V>(states: Map<Seq<char>, V>, required: Seq<Seq<char>>) -> Option<
    Seq<char>,
>
    decreases required.len(),
{
    if required.len() == 0 {
        None
    } else if !states.contains_key(required[0]) {
        Some(required[0])
    } else {
        first_missing(states, required.drop_first())
    }
}

/// Nothing is missing exactly where every required kind is there.
pub proof fn lemma_first_missing<V>(states: Map<Seq<char>, V>, required: Seq<Seq<char>>)
    ensures
        first_missing(states, required) is None <==> provides(states, required),
        match first_missing(states, required) {
            Some(kind) => required.contains(kind) && !states.contains_key(kind),
            None => true,
        },
    decreases required.len(),
{
    if required.len() > 0 {
        let rest = required.drop_first();
        lemma_first_missing(states, rest);
        if states.contains_key(required[0]) {
            if provides(states, rest) {
                assert forall|i: int| 0 <= i < required.len() implies states.contains_key(
                    #[trigger] required[i],
                ) by {
                    if i > 0 {
                        assert(rest[i - 1] == required[i]);
                    }
                }
            } else {
                let i = choose|i: int| 0 <= i < rest.len() && !states.contains_key(#[trigger] rest[i]);
                assert(required[i + 1] == rest[i]);
            }
            match first_missing(states, rest) {
                Some(kind) => {
                    let i = choose|i: int| 0 <= i < rest.len() && rest[i] == kind;
                    assert(required[i + 1] == kind);
                },
                None => {},
            }
        } else {
            assert(required[0] == required[0]);
        }
    }
}

/// What a page or an API route asks of the states: a shape that is taken from
/// the map before the page's own code runs.
///
/// `required` lists the kinds that the shape needs, in the order in which
/// they are looked up. Extraction succeeds exactly where the map holds them
/// all, and otherwise names the first that is missing.
pub trait ExtractState<'r, V: AnyState>: Sized + Send {
    /// The kinds that this shape needs. An implementation that gives no
    /// definition leaves open which they are.
    open spec fn required() -> Seq<Seq<char>> {
        arbitrary()
    }

    /// Takes the shape from the map.
    fn extract(states: &'r StatesMap<V>) -> (extracted: Result<Self, &'static str>)
        requires
            states.wf(),
        ensures
            extracted is Ok <==> provides(states@, Self::required()),
            match extracted {
                Ok(_) => true,
                Err(missing) => first_missing(states@, Self::required()) == Some(missing@),
            },
    ;
}

/// Marks what a page asks of the states.
pub struct State<T>(pub T);

impl<T> std::ops::Deref for State<T> {
    type Target = T;

    fn deref(&self) -> (inner: &T)
        ensures
            *inner == self.0,
    {
        &self.0
    }
}

impl<'r, V: AnyState, T: ExtractState<'r, V>> ExtractState<'r, V> for State<T> {
    open spec fn required() -> Seq<Seq<char>> {
        T::required()
    }

    fn extract(states: &'r StatesMap<V>) -> (extracted: Result<Self, &'static str>) {
        match T::extract(states) {
            Ok(inner) => Ok(State(inner)),
            Err(missing) => Err(missing),
        }
    }
}

impl<'r, V: AnyState> ExtractState<'r, V> for () {
    open spec fn required() -> Seq<Seq<char>> {
        Seq::empty()
    }

    fn extract(_states: &'r StatesMap<V>) -> (extracted: Result<Self, &'static str>) {
        Ok(())
    }
}

} // verus!
