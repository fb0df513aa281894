//! The pages of an application: the lists they are registered in, the pairs
//! that a lookup hands back, and the props of the page that is shown where no
//! page answers.

use crate::pointers::{PropsUntypedPtr, RouteUntypedPtr};
use crate::registry::{find_first, first_answering, none_answers};
use crate::routes::{DynRoutable, UrlInfos};
use vstd::prelude::*;

verus! {

#[verifier::external_type_specification]
#[verifier::external_body]
pub struct ExJsonError(serde_json::Error);

/// Whether JSON skips `c` between values.
pub open spec fn is_json_space(c: char) -> bool {
    c == ' ' || c == '\n' || c == '\t' || c == '\r'
}

/// Whether `text` is the JSON value `null`, with nothing but space around it.
pub open spec fn is_json_null(text: Seq<char>) -> bool {
    exists|start: int|
        {
            &&& 0 <= start
            &&& start + 4 <= text.len()
            &&& #[trigger] text.subrange(start, start + 4) == seq!['n', 'u', 'l', 'l']
            &&& forall|k: int| 0 <= k < start ==> is_json_space(text[k])
            &&& forall|k: int| start + 4 <= k < text.len() ==> is_json_space(text[k])
        }
}

/// The JSON text of the unit value, by `serde_json::to_string`. The serializer
/// writes a unit as the four characters `null` into a buffer in memory, which
/// takes every write, so the call succeeds.
#[verifier::external_body]
fn unit_to_json() -> (json: Result<String, serde_json::Error>)
    ensures
        json is Ok,
        json->Ok_0@ == seq!['n', 'u', 'l', 'l'],
{
    serde_json::to_string(&())
}

/// Reads the unit value from JSON text, by `serde_json::from_str`. The
/// deserializer skips leading space, takes `null`, and then accepts only space
/// up to the end of the text; everything else is an error.
#[verifier::external_body]
fn unit_from_json(text: &str) -> (unit: Result<(), serde_json::Error>)
    ensures
        unit is Ok <==> is_json_null(text@),
{
    serde_json::from_str::<()>(text)
}

/// The props of the page that is shown where no page answers: there is
/// nothing in them.
#[derive(Clone, Copy, Debug, PartialEq, Eq, Structural)]
pub struct NotFoundPageProps;

impl NotFoundPageProps {
    /// The props, which are always the same.
    pub fn new() -> (props: Self)
        ensures
            props == NotFoundPageProps,
    {
        NotFoundPageProps
    }

    /// The props behind a handle.
    pub fn to_untyped(self) -> (ptr: PropsUntypedPtr)
        ensures
            ptr == PropsUntypedPtr::erased(self),
    {
        PropsUntypedPtr::new_not_found_props(self)
    }

    /// The JSON text of the props, which is `null`.
    pub fn serialize(&self) -> (json: Result<String, serde_json::Error>)
        ensures
            json is Ok,
            json->Ok_0@ == seq!['n', 'u', 'l', 'l'],
    {
        unit_to_json()
    }

    /// Reads the props back from JSON text: `null`, with nothing but space
    /// around it, and nothing else.
    pub fn deserialize(serialized_props: &str) -> (props: Result<Self, serde_json::Error>)
        ensures
            props is Ok <==> is_json_null(serialized_props@),
    {
        match unit_from_json(serialized_props) {
            Ok(_) => Ok(NotFoundPageProps),
            Err(err) => Err(err),
        }
    }
}

/// What `NotFoundPageProps::serialize` writes, `NotFoundPageProps::deserialize`
/// reads back.
pub proof fn lemma_not_found_props_round_trip()
    ensures
        is_json_null(seq!['n', 'u', 'l', 'l']),
{
    let text = seq!['n', 'u', 'l', 'l'];
    let start: int = 0;
    assert(text.subrange(start, start + 4) == text);
}

/// A page together with the route that it read from a URL.
pub struct DynPageAndRoute<'a, 'url, P: DynRoutable + ?Sized> {
    pub page: &'a P,
    pub route: RouteUntypedPtr<'url>,
}

impl<'a, 'url, P: DynRoutable + ?Sized> DynPageAndRoute<'a, 'url, P> {
    /// Pairs the page with its route where the page answers the URL.
    pub fn try_match_route(page: &'a P, url_infos: UrlInfos<'_, 'url>) -> (matched: Option<Self>)
        ensures
            match matched {
                Some(pair) => pair.page == page && page.route_for(url_infos@) == Some(pair.route),
                None => page.route_for(url_infos@) is None,
            },
    {
        match page.try_match_route(url_infos) {
            Some(route) => Some(DynPageAndRoute { page, route }),
            None => None,
        }
    }
}

/// A page that is rendered ahead of time, together with the route that it read
/// from a URL.
pub struct StaticPageAndRoute<'a, 'url, P: DynRoutable + ?Sized> {
    pub page: &'a P,
    pub route: RouteUntypedPtr<'url>,
}

impl<'a, 'url, P: DynRoutable + ?Sized> StaticPageAndRoute<'a, 'url, P> {
    /// Pairs the page with its route where the page answers the URL.
    pub fn try_match_route(page: &'a P, url_infos: UrlInfos<'_, 'url>) -> (matched: Option<Self>)
        ensures
            match matched {
                Some(pair) => pair.page == page && page.route_for(url_infos@) == Some(pair.route),
                None => page.route_for(url_infos@) is None,
            },
    {
        match page.try_match_route(url_infos) {
            Some(route) => Some(StaticPageAndRoute { page, route }),
            None => None,
        }
    }
}

/// The pages whose props are resolved for each request, in the order in which
/// they were registered. `P` is what a page is stored as: most often a trait
/// object, so that pages of many types stand in one list.
pub struct DynPages<P: DynRoutable + ?Sized> {
    pages: Vec<Box<P>>,
}

impl<P: DynRoutable + ?Sized> View for DynPages<P> {
    type V = Seq<Box<P>>;

    closed spec fn view(&self) -> Seq<Box<P>> {
        self.pages@
    }
}

impl<P: DynRoutable + ?Sized> DynPages<P> {
    /// A list without pages.
    pub fn new() -> (pages: Self)
        ensures
            pages@ == Seq::<Box<P>>::empty(),
    {
        DynPages { pages: Vec::new() }
    }

    /// The first page that answers the URL, with its route.
    pub fn find_dyn_page_and_route<'url>(&self, url_infos: UrlInfos<'_, 'url>) -> (found: Option<
        DynPageAndRoute<'_, 'url, P>,
    >)
        ensures
            match found {
                Some(pair) => {
                    &&& exists|i: int|
                        first_answering(self@, url_infos@, i) && pair.page == &*#[trigger] self@[i]
                    &&& pair.page.route_for(url_infos@) == Some(pair.route)
                },
                None => none_answers(self@, url_infos@),
            },
    {
        match find_first(&self.pages, url_infos) {
            Some((i, route)) => {
                let page: &P = &*self.pages[i];
                assert(first_answering(self@, url_infos@, i as int) && page == &*self@[i as int]);
                Some(DynPageAndRoute { page, route })
            },
            None => None,
        }
    }

    /// Registers a boxed page behind all that are there.
    pub fn add_boxed_page(&mut self, page: Box<P>)
        ensures
            final(self)@ == old(self)@.push(page),
    {
        self.pages.push(page);
    }

    /// Registers pages, in their order, behind all that are there.
    pub fn add_boxed_pages(&mut self, pages: Vec<Box<P>>)
        ensures
            final(self)@ == old(self)@ + pages@,
    {
        let mut pages = pages;
        self.pages.append(&mut pages);
    }

    /// How many pages are registered.
    pub fn len(&self) -> (n: usize)
        ensures
            n == self@.len(),
    {
        self.pages.len()
    }

    /// The page that was registered as the `i`th.
    pub fn get(&self, i: usize) -> (page: &P)
        requires
            i < self@.len(),
        ensures
            page == &*self@[i as int],
    {
        &*self.pages[i]
    }
}

impl<P: DynRoutable + ?Sized> Default for DynPages<P> {
    fn default() -> (pages: Self)
        ensures
            pages@ == Seq::<Box<P>>::empty(),
    {
        DynPages::new()
    }
}

impl<P: DynRoutable> DynPages<P> {
    /// Boxes a page and registers it behind all that are there.
    pub fn add_page(&mut self, page: P)
        ensures
            final(self)@ == old(self)@.push(Box::new(page)),
    {
        self.add_boxed_page(Box::new(page));
    }
}

/// The pages that are rendered ahead of time, in the order in which they were
/// registered.
pub struct StaticPages<P: DynRoutable + ?Sized> {
    pages: Vec<Box<P>>,
}

impl<P: DynRoutable + ?Sized> View for StaticPages<P> {
    type V = Seq<Box<P>>;

    closed spec fn view(&self) -> Seq<Box<P>> {
        self.pages@
    }
}

impl<P: DynRoutable + ?Sized> StaticPages<P> {
    /// A list without pages.
    pub fn new() -> (pages: Self)
        ensures
            pages@ == Seq::<Box<P>>::empty(),
    {
        StaticPages { pages: Vec::new() }
    }

    /// The first page that answers the URL, with its route.
    pub fn find_static_page<'url>(&self, url_infos: UrlInfos<'_, 'url>) -> (found: Option<
        StaticPageAndRoute<'_, 'url, P>,
    >)
        ensures
            match found {
                Some(pair) => {
                    &&& exists|i: int|
                        first_answering(self@, url_infos@, i) && pair.page == &*#[trigger] self@[i]
                    &&& pair.page.route_for(url_infos@) == Some(pair.route)
                },
                None => none_answers(self@, url_infos@),
            },
    {
        match find_first(&self.pages, url_infos) {
            Some((i, route)) => {
                let page: &P = &*self.pages[i];
                assert(first_answering(self@, url_infos@, i as int) && page == &*self@[i as int]);
                Some(StaticPageAndRoute { page, route })
            },
            None => None,
        }
    }

    /// Registers a boxed page behind all that are there.
    pub fn add_boxed_page(&mut self, page: Box<P>)
        ensures
            final(self)@ == old(self)@.push(page),
    {
        self.pages.push(page);
    }

    /// Registers pages, in their order, behind all that are there.
    pub fn add_boxed_pages(&mut self, pages: Vec<Box<P>>)
        ensures
            final(self)@ == old(self)@ + pages@,
    {
        let mut pages = pages;
        self.pages.append(&mut pages);
    }

    /// How many pages are registered.
    pub fn len(&self) -> (n: usize)
        ensures
            n == self@.len(),
    {
        self.pages.len()
    }

    /// The page that was registered as the `i`th.
    pub fn get(&self, i: usize) -> (page: &P)
        requires
            i < self@.len(),
        ensures
            page == &*self@[i as int],
    {
        &*self.pages[i]
    }
}

impl<P: DynRoutable + ?Sized> Default for StaticPages<P> {
    fn default() -> (pages: Self)
        ensures
            pages@ == Seq::<Box<P>>::empty(),
    {
        StaticPages::new()
    }
}

impl<P: DynRoutable> StaticPages<P> {
    /// Boxes a page and registers it behind all that are there.
    pub fn add_page(&mut self, page: P)
        ensures
            final(self)@ == old(self)@.push(Box::new(page)),
    {
        self.add_boxed_page(Box::new(page));
    }
}

/// The page that answers a URL.
pub enum FoundPage<'a, 'url, S: DynRoutable + ?Sized, D: DynRoutable + ?Sized> {
    /// A page that was rendered ahead of time.
    Static(StaticPageAndRoute<'a, 'url, S>),
    /// A page whose props are resolved now.
    Dyn(DynPageAndRoute<'a, 'url, D>),
    /// No page: the not-found page stands in.
    NotFound,
}

/// Looks a URL up in all the pages of an application: first among the pages
/// rendered ahead of time, then among the others. The not-found page stands in
/// only where none of them answers.
pub fn find_page<'a, 'url, S: DynRoutable + ?Sized, D: DynRoutable + ?Sized>(
    static_pages: &'a StaticPages<S>,
    dyn_pages: &'a DynPages<D>,
    url_infos: UrlInfos<'_, 'url>,
) -> (found: FoundPage<'a, 'url, S, D>)
    ensures
        match found {
            FoundPage::Static(pair) => {
                &&& exists|i: int|
                    first_answering(static_pages@, url_infos@, i) && pair.page
                        == &*#[trigger] static_pages@[i]
                &&& pair.page.route_for(url_infos@) == Some(pair.route)
            },
            FoundPage::Dyn(pair) => {
                &&& none_answers(static_pages@, url_infos@)
                &&& exists|i: int|
                    first_answering(dyn_pages@, url_infos@, i) && pair.page
                        == &*#[trigger] dyn_pages@[i]
                &&& pair.page.route_for(url_infos@) == Some(pair.route)
            },
            FoundPage::NotFound => none_answers(static_pages@, url_infos@) && none_answers(
                dyn_pages@,
                url_infos@,
            ),
        },
{
    match static_pages.find_static_page(url_infos) {
        Some(pair) => FoundPage::Static(pair),
        None => match dyn_pages.find_dyn_page_and_route(url_infos) {
            Some(pair) => FoundPage::Dyn(pair),
            None => FoundPage::NotFound,
        },
    }
}

} // verus!
