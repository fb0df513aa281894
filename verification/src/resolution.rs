//! How the props of a matched page come about: the states that the page asks
//! for are taken from the map first, and only then the page's own code runs.

use crate::pointers::PropsUntypedPtr;
use crate::states::{
    first_missing, lemma_first_missing, provides, AnyState, ExtractState, StatesMap,
};
use vstd::prelude::*;
use vstd::string::*;

verus! {

/// Why a page's props could not be had.
#[derive(Debug, PartialEq, Eq)]
pub enum ResolutionError {
    /// The states hold nothing of the kind that is named.
    MissingState(String),
    /// The page's own code failed, with this text.
    Page(String),
    /// The props could not be written or read, with this text.
    Serialization(String),
}

/// `ResolutionError`, with each text by its view.
pub enum ResolutionErrorView {
    MissingState(Seq<char>),
    Page(Seq<char>),
    Serialization(Seq<char>),
}

impl View for ResolutionError {
    type V = ResolutionErrorView;

    open spec fn view(&self) -> ResolutionErrorView {
        match self {
            ResolutionError::MissingState(kind) => ResolutionErrorView::MissingState(kind@),
            ResolutionError::Page(text) => ResolutionErrorView::Page(text@),
            ResolutionError::Serialization(text) => ResolutionErrorView::Serialization(text@),
        }
    }
}

/// The text that reports a missing state.
pub open spec fn missing_state_message(kind: Seq<char>) -> Seq<char> {
    "Missing state "@ + kind + "."@
}

impl ResolutionErrorView {
    /// The text that the error is reported with.
    pub open spec fn message(self) -> Seq<char> {
        match self {
            ResolutionErrorView::MissingState(kind) => missing_state_message(kind),
            ResolutionErrorView::Page(text) => text,
            ResolutionErrorView::Serialization(text) => text,
        }
    }
}

impl ResolutionError {
    /// The text that the error is reported with: a missing state is named,
    /// every other error brings its own text.
    pub fn into_message(self) -> (message: String)
        ensures
            message@ == self@.message(),
    {
        match self {
            ResolutionError::MissingState(kind) => {
                let mut message = String::from_str("Missing state ");
                message.append(kind.as_str());
                message.append(".");
                message
            },
            ResolutionError::Page(text) => text,
            ResolutionError::Serialization(text) => text,
        }
    }
}

/// Takes from the states what a page asks for. Where a kind is missing, the
/// error names the first such kind.
pub fn extract_states<'r, V: AnyState, S: ExtractState<'r, V>>(states: &'r StatesMap<V>) -> (extracted:
    Result<S, ResolutionError>)
    requires
        states.wf(),
    ensures
        extracted is Ok <==> provides(states@, S::required()),
        match extracted {
            Ok(_) => first_missing(states@, S::required()) is None,
            Err(err) => first_missing(states@, S::required()) matches Some(kind) && err@
                == ResolutionErrorView::MissingState(kind),
        },
{
    proof {
        lemma_first_missing(states@, S::required());
    }
    match states.extract::<S>() {
        Ok(state) => Ok(state),
        Err(missing) => Err(ResolutionError::MissingState(String::from_str(missing))),
    }
}

/// What the page's own code returned, as the outcome of the resolution: props
/// stay props, and the page's error text becomes a `Page` error.
pub fn page_outcome(outcome: Result<PropsUntypedPtr, String>) -> (resolved: Result<
    PropsUntypedPtr,
    ResolutionError,
>)
    ensures
        match outcome {
            Ok(props) => resolved == Ok::<PropsUntypedPtr, ResolutionError>(props),
            Err(text) => resolved matches Err(err) && err@ == ResolutionErrorView::Page(text@),
        },
{
    match outcome {
        Ok(props) => Ok(props),
        Err(text) => Err(ResolutionError::Page(text)),
    }
}

/// What writing or reading props returned: the text stays, and an error text
/// becomes a `Serialization` error.
pub fn serialization_outcome(outcome: Result<String, String>) -> (resolved: Result<
    String,
    ResolutionError,
>)
    ensures
        match outcome {
            Ok(text) => resolved == Ok::<String, ResolutionError>(text),
            Err(text) => resolved matches Err(err) && err@ == ResolutionErrorView::Serialization(
                text@,
            ),
        },
{
    match outcome {
        Ok(text) => Ok(text),
        Err(text) => Err(ResolutionError::Serialization(text)),
    }
}

/// Resolves the props of a matched page whose own code does not wait for
/// anything: the states are taken first, and `page` runs only where they are
/// all there.
///
/// Where a state is missing the outcome is that error, whatever `page` would
/// have returned.
pub fn resolve_props<
    'r,
    V: AnyState,
    S: ExtractState<'r, V>,
    F: FnOnce(S) -> Result<PropsUntypedPtr, String>,
>(
    states: &'r StatesMap<V>,
    page: F,
) -> (resolved: Result<PropsUntypedPtr, ResolutionError>)
    requires
        states.wf(),
        forall|state: S| page.requires((state,)),
    ensures
        match first_missing(states@, S::required()) {
            Some(kind) => resolved matches Err(err) && err@ == ResolutionErrorView::MissingState(
                kind,
            ),
            None => exists|state: S, outcome: Result<PropsUntypedPtr, String>|
                {
                    &&& #[trigger] page.ensures((state,), outcome)
                    &&& match outcome {
                        Ok(props) => resolved == Ok::<PropsUntypedPtr, ResolutionError>(props),
                        Err(text) => resolved matches Err(err) && err@
                            == ResolutionErrorView::Page(text@),
                    }
                },
        },
{
    match extract_states::<V, S>(states) {
        Ok(state) => {
            let outcome = page(state);
            page_outcome(outcome)
        },
        Err(err) => Err(err),
    }
}

/// A missing state and a failure of the page are never taken for each other,
/// and the report of a missing state names the kind.
pub proof fn lemma_missing_state_is_distinct(kind: Seq<char>, text: Seq<char>)
    ensures
        ResolutionErrorView::MissingState(kind) != ResolutionErrorView::Page(text),
        ResolutionErrorView::MissingState(kind) != ResolutionErrorView::Serialization(text),
        ResolutionErrorView::MissingState(kind).message() == missing_state_message(kind),
        missing_state_message(kind).subrange(14, 14 + kind.len() as int) == kind,
{
    reveal_strlit("Missing state ");
    reveal_strlit(".");
    let message = missing_state_message(kind);
    assert(message.subrange(14, 14 + kind.len() as int) =~= kind);
}

} // verus!
