use std::sync::atomic::{AtomicUsize, Ordering};
use std::sync::Arc;
use stonkks::api::ApiRoutes;
use stonkks::pages::{find_page, DynPages, FoundPage, NotFoundPageProps, StaticPages};
use stonkks::pointers::{PropsUntypedPtr, RouteUntypedPtr};
use stonkks::resolution::resolve_props;
use stonkks::routes::{DynRoutable, OwnedUrlInfos, Routable, Route, UrlInfos};
use stonkks::states::StatesMap;

#[derive(Hash)]
struct CounterRoute(i32);

impl<'url> Route<'url> for CounterRoute {
    fn try_from_url(url: UrlInfos<'_, 'url>) -> Option<Self> {
        match url.segments() {
            ["counter"] => Some(CounterRoute(0)),
            ["counter", count] => Some(CounterRoute(count.parse().ok()?)),
            _ => None,
        }
    }
}

struct Counter;

impl Routable for Counter {
    type Route<'a> = CounterRoute;
}

#[derive(Hash)]
struct IndexRoute;

impl<'a> Route<'a> for IndexRoute {
    fn try_from_url(url: UrlInfos<'_, 'a>) -> Option<Self> {
        if url.segments().is_empty() {
            Some(IndexRoute)
        } else {
            None
        }
    }
}

struct Index;

impl Routable for Index {
    type Route<'a> = IndexRoute;
}

struct CounterProps {
    count: i32,
}

#[test]
fn counter_page_answers_and_not_found_stands_in() {
    let mut dyn_pages: DynPages<dyn DynRoutable> = DynPages::new();
    dyn_pages.add_boxed_page(Box::new(Counter));
    let static_pages: StaticPages<dyn DynRoutable> = StaticPages::new();
    let states: StatesMap<u32> = StatesMap::new();

    let infos = OwnedUrlInfos::parse_from_url("/counter/45");
    assert!(matches!(
        find_page(&static_pages, &dyn_pages, infos.to_shared()),
        FoundPage::Dyn(_)
    ));
    let route = <Counter as Routable>::try_match_route(infos.to_shared()).unwrap();
    let mut count = 0;
    let resolved = resolve_props(&states, |_state: ()| {
        let props = CounterProps { count: route.0 };
        count = props.count;
        Ok(PropsUntypedPtr::new(props))
    });
    assert!(resolved.is_ok());
    assert_eq!(count, 45);

    let infos = OwnedUrlInfos::parse_from_url("/unknown");
    assert!(matches!(
        find_page(&static_pages, &dyn_pages, infos.to_shared()),
        FoundPage::NotFound
    ));
    let props = NotFoundPageProps::new();
    assert_eq!(props, NotFoundPageProps);
    assert_eq!(props.serialize().unwrap(), "null");
}

#[test]
fn malformed_number_is_no_match() {
    let mut dyn_pages: DynPages<dyn DynRoutable> = DynPages::new();
    dyn_pages.add_boxed_page(Box::new(Counter));
    let infos = OwnedUrlInfos::parse_from_url("/counter/many");
    assert!(dyn_pages.find_dyn_page_and_route(infos.to_shared()).is_none());
}

#[test]
fn pages_rendered_ahead_of_time_come_first() {
    let mut dyn_pages: DynPages<dyn DynRoutable> = DynPages::new();
    dyn_pages.add_boxed_page(Box::new(Index));
    dyn_pages.add_boxed_page(Box::new(Counter));
    let mut static_pages: StaticPages<dyn DynRoutable> = StaticPages::new();
    static_pages.add_boxed_page(Box::new(Index));

    let infos = OwnedUrlInfos::parse_from_url("/");
    assert!(matches!(
        find_page(&static_pages, &dyn_pages, infos.to_shared()),
        FoundPage::Static(_)
    ));
    let infos = OwnedUrlInfos::parse_from_url("/counter");
    assert!(matches!(
        find_page(&static_pages, &dyn_pages, infos.to_shared()),
        FoundPage::Dyn(_)
    ));
}

#[test]
fn pages_are_kept_in_registration_order() {
    let mut pages: DynPages<Counter> = DynPages::new();
    assert_eq!(pages.len(), 0);
    pages.add_page(Counter);
    pages.add_boxed_pages(vec![Box::new(Counter), Box::new(Counter)]);
    assert_eq!(pages.len(), 3);
    let mut static_pages: StaticPages<Index> = StaticPages::new();
    static_pages.add_page(Index);
    static_pages.add_boxed_pages(vec![Box::new(Index)]);
    assert_eq!(static_pages.len(), 2);
    let infos = OwnedUrlInfos::parse_from_url("/");
    assert!(static_pages.find_static_page(infos.to_shared()).is_some());
    assert!(static_pages.get(1).try_match_route(infos.to_shared()).is_some());
}

#[test]
fn api_routes_are_searched_in_order() {
    let mut apis: ApiRoutes<dyn DynRoutable> = ApiRoutes::new();
    let infos = OwnedUrlInfos::parse_from_url("/counter/3");
    assert!(apis.find_api(infos.to_shared()).is_none());
    apis.add_boxed_route(Box::new(Index));
    apis.add_routes(vec![Box::new(Counter)]);
    assert!(apis.find_api(infos.to_shared()).is_some());
    let infos = OwnedUrlInfos::parse_from_url("/other");
    assert!(apis.find_api(infos.to_shared()).is_none());
    let mut typed: ApiRoutes<Counter> = ApiRoutes::new();
    typed.add_route(Counter);
    let infos = OwnedUrlInfos::parse_from_url("/counter");
    assert!(typed.find_api(infos.to_shared()).is_some());
}

#[test]
fn not_found_props_round_trip() {
    let json = NotFoundPageProps::new().serialize().unwrap();
    assert_eq!(json, "null");
    assert_eq!(NotFoundPageProps::deserialize(&json).unwrap(), NotFoundPageProps);
}

#[test]
fn not_found_props_are_read_from_null_alone() {
    assert!(NotFoundPageProps::deserialize(" null\n").is_ok());
    assert!(NotFoundPageProps::deserialize("\t\r null").is_ok());
    assert!(NotFoundPageProps::deserialize("nul").is_err());
    assert!(NotFoundPageProps::deserialize("null null").is_err());
    assert!(NotFoundPageProps::deserialize("nullx").is_err());
    assert!(NotFoundPageProps::deserialize("{}").is_err());
    assert!(NotFoundPageProps::deserialize("").is_err());
    assert!(NotFoundPageProps::deserialize("Null").is_err());
}

struct Counted(Arc<AtomicUsize>);

impl Drop for Counted {
    fn drop(&mut self) {
        self.0.fetch_add(1, Ordering::SeqCst);
    }
}

impl std::hash::Hash for Counted {
    fn hash<H: std::hash::Hasher>(&self, state: &mut H) {
        state.write_u8(1);
    }
}

impl<'url> Route<'url> for Counted {
    fn try_from_url(_url: UrlInfos<'_, 'url>) -> Option<Self> {
        None
    }
}

struct CountedPage;

impl Routable for CountedPage {
    type Route<'a> = Counted;
}

#[test]
fn dropped_handle_releases_its_route() {
    let drops = Arc::new(AtomicUsize::new(0));
    let handle = RouteUntypedPtr::new::<CountedPage>(Counted(drops.clone()));
    assert_eq!(drops.load(Ordering::SeqCst), 0);
    drop(handle);
    assert_eq!(drops.load(Ordering::SeqCst), 1);

    let props = PropsUntypedPtr::new(Counted(drops.clone()));
    let moved = props;
    assert_eq!(drops.load(Ordering::SeqCst), 1);
    drop(moved);
    assert_eq!(drops.load(Ordering::SeqCst), 2);
}

#[test]
fn unit_props_go_behind_a_handle() {
    let _unit = PropsUntypedPtr::new_unit();
    let _not_found = NotFoundPageProps::new().to_untyped();
    let _same = PropsUntypedPtr::new_not_found_props(NotFoundPageProps);
}
