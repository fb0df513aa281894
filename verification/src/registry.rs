//! First-match lookup in a list of entries, in registration order.

use crate::pointers::RouteUntypedPtr;
use crate::routes::{DynRoutable, UrlInfos, UrlView};
use vstd::prelude::*;

verus! {

/// Whether `entry` answers `url`.
pub open spec fn answers<E: DynRoutable + ?Sized>(entry: &E, url: UrlView) -> bool {
    entry.route_for(url) is Some
}

/// Whether the entry at `i` answers `url` and no entry before it does.
pub open spec fn first_answering<E: DynRoutable + ?Sized>(
    entries: Seq<Box<E>>,
    url: UrlView,
    i: int,
) -> bool {
    &&& 0 <= i < entries.len()
    &&& answers(&*entries[i], url)
    &&& forall|j: int| 0 <= j < i ==> !answers(&*#[trigger] entries[j], url)
}

/// Whether no entry answers `url`.
pub open spec fn none_answers<E: DynRoutable + ?Sized>(entries: Seq<Box<E>>, url: UrlView) -> bool {
    forall|j: int| 0 <= j < entries.len() ==> !answers(&*#[trigger] entries[j], url)
}

/// Scans `entries` in order and stops at the first that answers the URL.
pub fn find_first<'url, E: DynRoutable + ?Sized>(
    entries: &Vec<Box<E>>,
    url_infos: UrlInfos<'_, 'url>,
) -> (found: Option<(usize, RouteUntypedPtr<'url>)>)
    ensures
        match found {
            Some((i, route)) => first_answering(entries@, url_infos@, i as int)
                && entries@[i as int].route_for(url_infos@) == Some(route),
            None => none_answers(entries@, url_infos@),
        },
{
    let mut i: usize = 0;
    while i < entries.len()
        invariant
            i <= entries@.len(),
            forall|j: int| 0 <= j < i ==> !answers(&*#[trigger] entries@[j], url_infos@),
        decreases entries@.len() - i,
    {
        match entries[i].try_match_route(url_infos) {
            Some(route) => {
                return Some((i, route));
            },
            None => {},
        }
        i += 1;
    }
    None
}

/// Registration order decides. Of two entries that both answer a URL, the
/// later one is never the first match, and the first match stands at or
/// before the earlier one.
pub proof fn lemma_earlier_entry_wins<E: DynRoutable + ?Sized>(
    entries: Seq<Box<E>>,
    url: UrlView,
    earlier: int,
    later: int,
)
    requires
        0 <= earlier < later < entries.len(),
        answers(&*entries[earlier], url),
        answers(&*entries[later], url),
    ensures
        !first_answering(entries, url, later),
        exists|k: int| 0 <= k <= earlier && first_answering(entries, url, k),
        (forall|j: int| 0 <= j < earlier ==> !answers(&*#[trigger] entries[j], url))
            ==> first_answering(entries, url, earlier),
{
    lemma_some_entry_is_first(entries, url, earlier);
}

/// Where an entry answers a URL, one at or before it is the first match.
pub proof fn lemma_some_entry_is_first<E: DynRoutable + ?Sized>(
    entries: Seq<Box<E>>,
    url: UrlView,
    i: int,
)
    requires
        0 <= i < entries.len(),
        answers(&*entries[i], url),
    ensures
        exists|k: int| 0 <= k <= i && first_answering(entries, url, k),
    decreases i,
{
    if exists|j: int| 0 <= j < i && answers(&*#[trigger] entries[j], url) {
        let j = choose|j: int| 0 <= j < i && answers(&*#[trigger] entries[j], url);
        lemma_some_entry_is_first(entries, url, j);
        let k = choose|k: int| 0 <= k <= j && first_answering(entries, url, k);
        assert(0 <= k <= i && first_answering(entries, url, k));
    } else {
        assert(first_answering(entries, url, i));
    }
}

/// At most one entry is the first match.
pub proof fn lemma_first_match_is_unique<E: DynRoutable + ?Sized>(
    entries: Seq<Box<E>>,
    url: UrlView,
    i: int,
    k: int,
)
    requires
        first_answering(entries, url, i),
        first_answering(entries, url, k),
    ensures
        i == k,
{
    if i < k {
        assert(!answers(&*entries[i], url));
    } else if k < i {
        assert(!answers(&*entries[k], url));
    }
}

/// Registering one more entry leaves every earlier first match as it was.
pub proof fn lemma_later_entry_changes_nothing<E: DynRoutable + ?Sized>(
    entries: Seq<Box<E>>,
    added: Box<E>,
    url: UrlView,
    i: int,
)
    requires
        first_answering(entries, url, i),
    ensures
        first_answering(entries.push(added), url, i),
{
    let longer = entries.push(added);
    assert(longer[i] == entries[i]);
    assert forall|j: int| 0 <= j < i implies !answers(&*#[trigger] longer[j], url) by {
        assert(longer[j] == entries[j]);
    }
}

} // verus!
