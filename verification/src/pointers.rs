//! Handles that carry a route or a page's props without naming their type.

use crate::pages::NotFoundPageProps;
use crate::routes::Routable;
use vstd::prelude::*;

verus! {

/// Any value that lives at least as long as `'a` and may move to another
/// thread.
pub trait DynLifetime<'a>: Send + 'a {

}

impl<'a, T: Send + 'a> DynLifetime<'a> for T {

}

/// One value on the heap, without its type but with its lifetime.
pub struct UntypedPtr<'a> {
    pub value: Box<dyn DynLifetime<'a>>,
}

impl<'a> UntypedPtr<'a> {
    /// The handle that holds `value`.
    pub open spec fn erased<T: DynLifetime<'a>>(value: T) -> Self {
        UntypedPtr { value: Box::new(value) }
    }

    /// Moves `value` to the heap and forgets its type.
    pub fn new<T: DynLifetime<'a>>(value: T) -> (ptr: Self)
        ensures
            ptr == Self::erased(value),
    {
        UntypedPtr { value: Box::new(value) }
    }
}

/// The route of a `Routable`, without its type. It may still borrow from the
/// URL.
pub struct RouteUntypedPtr<'a> {
    pub inner: UntypedPtr<'a>,
}

impl<'a> RouteUntypedPtr<'a> {
    /// The handle that holds `route`.
    pub open spec fn erased<T: Routable>(route: T::Route<'a>) -> Self {
        RouteUntypedPtr { inner: UntypedPtr::erased(route) }
    }

    /// Hides the type of a route.
    pub fn new<T: Routable>(route: T::Route<'a>) -> (ptr: Self)
        ensures
            ptr == Self::erased::<T>(route),
    {
        RouteUntypedPtr { inner: UntypedPtr::new(route) }
    }
}

/// The props of a page, without their type. Props borrow from nothing.
pub struct PropsUntypedPtr {
    pub inner: UntypedPtr<'static>,
}

impl PropsUntypedPtr {
    /// The handle that holds `props`.
    pub open spec fn erased<P: DynLifetime<'static>>(props: P) -> Self {
        PropsUntypedPtr { inner: UntypedPtr::erased(props) }
    }

    /// Hides the type of a page's props.
    pub fn new<P: DynLifetime<'static>>(props: P) -> (ptr: Self)
        ensures
            ptr == Self::erased(props),
    {
        PropsUntypedPtr { inner: UntypedPtr::new(props) }
    }

    /// The handle of the props of a page that takes none.
    pub fn new_unit() -> (ptr: Self)
        ensures
            ptr == Self::erased(()),
    {
        PropsUntypedPtr::new(())
    }

    /// The handle of the props of the page that is shown where no page
    /// answers.
    pub fn new_not_found_props(props: NotFoundPageProps) -> (ptr: Self)
        ensures
            ptr == Self::erased(props),
    {
        PropsUntypedPtr::new(props)
    }
}

} // verus!
