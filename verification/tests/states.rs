use stonkks::pointers::PropsUntypedPtr;
use stonkks::resolution::{
    extract_states, page_outcome, resolve_props, serialization_outcome, ResolutionError,
};
use stonkks::states::{ExtractState, State, StatesMap};

struct Counter(u32);

struct NeedsCounter<'r>(&'r Counter);

impl<'r> ExtractState<'r, Counter> for NeedsCounter<'r> {
    fn extract(states: &'r StatesMap<Counter>) -> Result<Self, &'static str> {
        match states.get_state("counter") {
            Ok(counter) => Ok(NeedsCounter(counter)),
            Err(_) => Err("counter"),
        }
    }
}

#[test]
fn added_state_is_found_again() {
    let mut states: StatesMap<u32> = StatesMap::new();
    assert_eq!(states.add_state("counter", 1), None);
    assert_eq!(states.add_state("limit", 10), None);
    assert_eq!(states.get("counter"), Some(&1));
    assert_eq!(states.get_state("limit"), Ok(&10));
}

#[test]
fn state_of_the_same_kind_is_replaced() {
    let mut states: StatesMap<u32> = StatesMap::new();
    assert_eq!(states.add_state("counter", 1), None);
    assert_eq!(states.add_state("limit", 10), None);
    assert_eq!(states.add_state("counter", 2), Some(1));
    assert_eq!(states.get("counter"), Some(&2));
    assert_eq!(states.get("limit"), Some(&10));
    assert_eq!(states.add_state("counter", 3), Some(2));
}

#[test]
fn missing_state_is_named() {
    let states: StatesMap<u32> = StatesMap::new();
    assert_eq!(states.get("counter"), None);
    assert_eq!(states.get_state("counter"), Err("counter"));
}

#[test]
fn unit_asks_for_nothing() {
    let states: StatesMap<u32> = StatesMap::new();
    assert!(states.extract::<()>().is_ok());
    assert!(states.extract::<State<()>>().is_ok());
    assert!(extract_states::<u32, ()>(&states).is_ok());
}

#[test]
fn extraction_hands_out_what_is_stored() {
    let mut states: StatesMap<Counter> = StatesMap::new();
    states.add_state("counter", Counter(7));
    let extracted = states.extract::<State<NeedsCounter>>().ok().unwrap();
    assert_eq!((extracted.0).0 .0, 7);
}

#[test]
fn missing_state_fails_before_the_page_runs() {
    let states: StatesMap<Counter> = StatesMap::new();
    let mut ran = false;
    let resolved = resolve_props(&states, |_state: NeedsCounter| {
        ran = true;
        Ok(PropsUntypedPtr::new(45))
    });
    assert!(!ran);
    let err = resolved.err().unwrap();
    assert_eq!(err, ResolutionError::MissingState(String::from("counter")));
    assert_eq!(err.into_message(), "Missing state counter.");
}

#[test]
fn page_failure_is_told_from_a_missing_state() {
    let mut states: StatesMap<Counter> = StatesMap::new();
    states.add_state("counter", Counter(7));
    let resolved = resolve_props(&states, |_state: NeedsCounter| {
        Err(String::from("Missing state counter."))
    });
    let err = resolved.err().unwrap();
    assert_eq!(err, ResolutionError::Page(String::from("Missing state counter.")));
    assert_ne!(err, ResolutionError::MissingState(String::from("counter")));
}

#[test]
fn page_runs_where_the_states_are_there() {
    let mut states: StatesMap<Counter> = StatesMap::new();
    states.add_state("counter", Counter(7));
    let mut seen = 0;
    let resolved = resolve_props(&states, |state: NeedsCounter| {
        seen = (state.0).0;
        Ok(PropsUntypedPtr::new(seen))
    });
    assert!(resolved.is_ok());
    assert_eq!(seen, 7);
}

#[test]
fn outcomes_keep_their_text() {
    let failed = page_outcome(Err(String::from("boom")));
    assert_eq!(failed.err().unwrap().into_message(), "boom");
    assert!(page_outcome(Ok(PropsUntypedPtr::new_unit())).is_ok());
    assert_eq!(serialization_outcome(Ok(String::from("{}"))), Ok(String::from("{}")));
    assert_eq!(
        serialization_outcome(Err(String::from("bad"))),
        Err(ResolutionError::Serialization(String::from("bad")))
    );
}
