//! The API routes of an application, searched in registration order.

use crate::pointers::RouteUntypedPtr;
use crate::registry::{find_first, first_answering, none_answers};
use crate::routes::{DynRoutable, UrlInfos};
use vstd::prelude::*;

verus! {

/// The API routes of an application, in the order in which they were
/// registered. `A` is what an entry is stored as: most often a trait object,
/// so that routes of many types stand in one list.
pub struct ApiRoutes<A: DynRoutable + ?Sized> {
    routes: Vec<Box<A>>,
}

impl<A: DynRoutable + ?Sized> View for ApiRoutes<A> {
    type V = Seq<Box<A>>;

    closed spec fn view(&self) -> Seq<Box<A>> {
        self.routes@
    }
}

impl<A: DynRoutable + ?Sized> ApiRoutes<A> {
    /// A list without routes.
    pub fn new() -> (routes: Self)
        ensures
            routes@ == Seq::<Box<A>>::empty(),
    {
        ApiRoutes { routes: Vec::new() }
    }

    /// Registers routes, in their order, behind all that are there.
    pub fn add_routes(&mut self, routes: Vec<Box<A>>)
        ensures
            final(self)@ == old(self)@ + routes@,
    {
        let mut routes = routes;
        self.routes.append(&mut routes);
    }

    /// Registers a boxed route behind all that are there.
    pub fn add_boxed_route(&mut self, route: Box<A>)
        ensures
            final(self)@ == old(self)@.push(route),
    {
        self.routes.push(route);
    }

    /// The first route that answers the URL, with the handle of what it read
    /// from the URL.
    pub fn find_api<'url>(&self, url_infos: UrlInfos<'_, 'url>) -> (found: Option<
        (&A, RouteUntypedPtr<'url>),
    >)
        ensures
            match found {
                Some((api, route)) => {
                    &&& exists|i: int|
                        first_answering(self@, url_infos@, i) && api == &*#[trigger] self@[i]
                    &&& api.route_for(url_infos@) == Some(route)
                },
                None => none_answers(self@, url_infos@),
            },
    {
        match find_first(&self.routes, url_infos) {
            Some((i, route)) => {
                let api: &A = &*self.routes[i];
                assert(first_answering(self@, url_infos@, i as int) && api == &*self@[i as int]);
                Some((api, route))
            },
            None => None,
        }
    }
}

impl<A: DynRoutable + ?Sized> Default for ApiRoutes<A> {
    fn default() -> (routes: Self)
        ensures
            routes@ == Seq::<Box<A>>::empty(),
    {
        ApiRoutes::new()
    }
}

impl<A: DynRoutable> ApiRoutes<A> {
    /// Boxes a route and registers it behind all that are there.
    pub fn add_route(&mut self, route: A)
        ensures
            final(self)@ == old(self)@.push(Box::new(route)),
    {
        self.add_boxed_route(Box::new(route));
    }
}

} // verus!
