//! Pages that are rendered ahead of time: where each one is kept, and what
//! stops a generation.

use crate::pages::StaticPageAndRoute;
use crate::routes::{DynRoutable, OwnedUrlInfos};
use std::collections::hash_map::DefaultHasher;
use std::hash::{Hash, Hasher};
use vstd::prelude::*;
use vstd::std_specs::hash::*;
use vstd::string::*;

verus! {

/// Name of the directory that holds the pages rendered ahead of time.
pub const STONKKS_FOLDER_NAME: &'static str = ".stonkks";

/// Why a generation stopped.
#[derive(Debug, PartialEq, Eq)]
pub enum StaticGenerationError {
    /// A file could not be written or read, with the text of the failure.
    Io(String),
    /// A page's own code failed, with this text.
    User(String),
    /// A page named a build route that it does not answer itself.
    RouteMismatch(String),
}

/// `StaticGenerationError`, with each text by its view.
pub enum StaticGenerationErrorView {
    Io(Seq<char>),
    User(Seq<char>),
    RouteMismatch(Seq<char>),
}

impl View for StaticGenerationError {
    type V = StaticGenerationErrorView;

    open spec fn view(&self) -> StaticGenerationErrorView {
        match self {
            StaticGenerationError::Io(text) => StaticGenerationErrorView::Io(text@),
            StaticGenerationError::User(text) => StaticGenerationErrorView::User(text@),
            StaticGenerationError::RouteMismatch(text) => StaticGenerationErrorView::RouteMismatch(
                text@,
            ),
        }
    }
}

/// The text that reports a build route which its page does not answer.
pub open spec fn route_mismatch_message(url: Seq<char>) -> Seq<char> {
    "Route "@ + url + " was provided as build route, but did not match."@
}

/// Matches a build route against the page that named it. A page that does not
/// answer its own build route stops the generation.
pub fn match_build_route<'a, 'url, P: DynRoutable + ?Sized>(
    page: &'a P,
    url_infos: &OwnedUrlInfos<'url>,
) -> (matched: Result<StaticPageAndRoute<'a, 'url, P>, StaticGenerationError>)
    ensures
        match matched {
            Ok(pair) => pair.page == page && page.route_for(url_infos@) == Some(pair.route),
            Err(err) => page.route_for(url_infos@) is None && err@
                == StaticGenerationErrorView::RouteMismatch(
                route_mismatch_message(url_infos@.url),
            ),
        },
{
    match StaticPageAndRoute::try_match_route(page, url_infos.to_shared()) {
        Some(pair) => Ok(pair),
        None => {
            let mut message = String::from_str("Route ");
            message.append(url_infos.url());
            message.append(" was provided as build route, but did not match.");
            Err(StaticGenerationError::RouteMismatch(message))
        },
    }
}

/// The first failure among `outcomes`, if there is one.
pub open spec fn first_failure(outcomes: Seq<Result<(), StaticGenerationError>>) -> Option<
    StaticGenerationError,
>
    decreases outcomes.len(),
{
    if outcomes.len() == 0 {
        None
    } else {
        match outcomes[0] {
            Err(err) => Some(err),
            Ok(_) => first_failure(outcomes.drop_first()),
        }
    }
}

/// The outcome of a whole generation from the outcomes of its pages, in the
/// order in which they ended: it succeeds where every page did, and fails
/// with the first failure otherwise.
pub fn collect_outcomes(outcomes: Vec<Result<(), StaticGenerationError>>) -> (outcome: Result<
    (),
    StaticGenerationError,
>)
    ensures
        match outcome {
            Ok(_) => first_failure(outcomes@) is None,
            Err(err) => first_failure(outcomes@) == Some(err),
        },
{
    let mut outcomes = outcomes;
    let ghost all = outcomes@;
    let mut rest: Vec<Result<(), StaticGenerationError>> = Vec::new();
    // Taken from the back, so that each outcome is moved out once.
    let mut failure: Option<StaticGenerationError> = None;
    while outcomes.len() > 0
        invariant
            outcomes@.len() <= all.len(),
            outcomes@ == all.take(outcomes@.len() as int),
            first_failure(all) == match first_failure(outcomes@) {
                Some(err) => Some(err),
                None => failure,
            },
        decreases outcomes@.len(),
    {
        let ghost before = outcomes@;
        let last = outcomes.pop();
        proof {
            lemma_first_failure_push(outcomes@, before.last());
            assert(before == outcomes@.push(before.last()));
            assert(outcomes@ == all.take(outcomes@.len() as int));
        }
        match last {
            Some(Err(err)) => {
                failure = Some(err);
            },
            _ => {},
        }
    }
    match failure {
        Some(err) => Err(err),
        None => Ok(()),
    }
}

/// The first failure of a list with one more outcome at its end.
pub proof fn lemma_first_failure_push(
    outcomes: Seq<Result<(), StaticGenerationError>>,
    last: Result<(), StaticGenerationError>,
)
    ensures
        first_failure(outcomes.push(last)) == match first_failure(outcomes) {
            Some(err) => Some(err),
            None => match last {
                Err(err) => Some(err),
                Ok(_) => None,
            },
        },
    decreases outcomes.len(),
{
    let longer = outcomes.push(last);
    reveal_with_fuel(first_failure, 2);
    if outcomes.len() == 0 {
        assert(longer[0] == last);
        assert(longer.drop_first() =~= Seq::empty());
    } else {
        assert(longer[0] == outcomes[0]);
        assert(longer.drop_first() =~= outcomes.drop_first().push(last));
        lemma_first_failure_push(outcomes.drop_first(), last);
    }
}

/// The sixteen digits of base sixteen, in order.
pub open spec fn hex_digit(d: nat) -> char {
    seq![
        '0',
        '1',
        '2',
        '3',
        '4',
        '5',
        '6',
        '7',
        '8',
        '9',
        'a',
        'b',
        'c',
        'd',
        'e',
        'f',
    ][d as int]
}

/// `n` in base sixteen, in lower case and without leading zeros.
pub open spec fn lower_hex_spec(n: nat) -> Seq<char>
    decreases n,
{
    if n < 16 {
        seq![hex_digit(n)]
    } else {
        lower_hex_spec(n / 16).push(hex_digit(n % 16))
    }
}

/// One digit of base sixteen as text.
fn hex_digit_str(d: u64) -> (digit: &'static str)
    requires
        d < 16,
    ensures
        digit@ == seq![hex_digit(d as nat)],
{
    proof {
        reveal_strlit("0");
        reveal_strlit("1");
        reveal_strlit("2");
        reveal_strlit("3");
        reveal_strlit("4");
        reveal_strlit("5");
        reveal_strlit("6");
        reveal_strlit("7");
        reveal_strlit("8");
        reveal_strlit("9");
        reveal_strlit("a");
        reveal_strlit("b");
        reveal_strlit("c");
        reveal_strlit("d");
        reveal_strlit("e");
        reveal_strlit("f");
    }
    let digit = if d == 0 {
        "0"
    } else if d == 1 {
        "1"
    } else if d == 2 {
        "2"
    } else if d == 3 {
        "3"
    } else if d == 4 {
        "4"
    } else if d == 5 {
        "5"
    } else if d == 6 {
        "6"
    } else if d == 7 {
        "7"
    } else if d == 8 {
        "8"
    } else if d == 9 {
        "9"
    } else if d == 10 {
        "a"
    } else if d == 11 {
        "b"
    } else if d == 12 {
        "c"
    } else if d == 13 {
        "d"
    } else if d == 14 {
        "e"
    } else {
        "f"
    };
    assert(digit@ =~= seq![hex_digit(d as nat)]);
    digit
}

/// Writes `n` in base sixteen behind what `out` holds.
pub fn push_lower_hex(out: &mut String, n: u64)
    ensures
        final(out)@ == old(out)@ + lower_hex_spec(n as nat),
    decreases n,
{
    if n >= 16 {
        push_lower_hex(out, n / 16);
    }
    out.append(hex_digit_str(n % 16));
    assert(final(out)@ =~= old(out)@ + lower_hex_spec(n as nat));
}

/// The bytes that a hasher is fed for a piece of text: the text's bytes, then
/// one byte that no text holds.
pub open spec fn text_writes(text: Seq<char>) -> Seq<Seq<u8>> {
    seq![vstd::utf8::encode_utf8(text), seq![0xffu8]]
}

/// The hash of a page's name, which names the page's directory.
pub open spec fn page_name_hash(page_name: Seq<char>) -> u64 {
    DefaultHasher::spec_finish(text_writes(page_name))
}

/// Hashes a page's name with the standard library's default hasher, as that
/// hasher takes text.
pub fn hash_page_name(page_name: &str) -> (hash: u64)
    ensures
        hash == page_name_hash(page_name@),
{
    let mut hasher = DefaultHasher::new();
    hasher.write(page_name.as_bytes());
    let end: [u8; 1] = [0xff];
    let end_bytes = end.as_slice();
    assert(end_bytes@ =~= seq![0xffu8]);
    hasher.write(end_bytes);
    assert(hasher@ =~= text_writes(page_name@));
    hasher.finish()
}

/// Feeds a value to a hasher, by the value's own `Hash::hash`. What is written
/// is up to that implementation.
#[verifier::external_body]
fn feed<R: Hash>(value: &R, hasher: &mut DefaultHasher) {
    value.hash(hasher)
}

/// Hashes a route with the standard library's default hasher. The hash is
/// that of whatever the route's own `Hash` feeds the hasher.
pub fn hash_route<R: Hash>(route: &R) -> (hash: u64)
    ensures
        exists|writes: Seq<Seq<u8>>| hash == DefaultHasher::spec_finish(writes),
{
    let mut hasher = DefaultHasher::new();
    feed(route, &mut hasher);
    hasher.finish()
}

/// The directory of one rendered page: one directory for each page, named by
/// the hash of the page's name, and in it one for each route, named by the
/// route's hash.
pub open spec fn static_page_dir_spec(page_name: Seq<char>, route_hash: u64) -> Seq<char> {
    "./"@ + STONKKS_FOLDER_NAME@ + "/page_"@ + lower_hex_spec(page_name_hash(page_name) as nat)
        + "/route_"@ + lower_hex_spec(route_hash as nat)
}

/// The directory of one rendered page.
pub fn static_page_dir(page_name: &str, route_hash: u64) -> (dir: String)
    ensures
        dir@ == static_page_dir_spec(page_name@, route_hash),
{
    let mut dir = String::from_str("./");
    dir.append(STONKKS_FOLDER_NAME);
    dir.append("/page_");
    push_lower_hex(&mut dir, hash_page_name(page_name));
    dir.append("/route_");
    push_lower_hex(&mut dir, route_hash);
    dir
}

/// The file that holds the markup of one rendered page.
pub fn static_page_html_path(page_name: &str, route_hash: u64) -> (path: String)
    ensures
        path@ == static_page_dir_spec(page_name@, route_hash) + "/html.html"@,
{
    let mut path = static_page_dir(page_name, route_hash);
    path.append("/html.html");
    path
}

/// The file that holds the serialized props of one rendered page.
pub fn static_page_props_path(page_name: &str, route_hash: u64) -> (path: String)
    ensures
        path@ == static_page_dir_spec(page_name@, route_hash) + "/props.json"@,
{
    let mut path = static_page_dir(page_name, route_hash);
    path.append("/props.json");
    path
}

} // verus!
