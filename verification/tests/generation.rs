use std::collections::hash_map::DefaultHasher;
use std::hash::{Hash, Hasher};
use stonkks::generation::{
    collect_outcomes, hash_page_name, hash_route, match_build_route, push_lower_hex,
    static_page_dir, static_page_html_path, static_page_props_path, StaticGenerationError,
};
use stonkks::routes::{DynRoutable, OwnedUrlInfos, Routable, Route, UrlInfos};
use stonkks::server::html_document;

#[derive(Hash, PartialEq, Debug)]
struct SiteRoute<'a>(Vec<&'a str>);

impl<'a> Route<'a> for SiteRoute<'a> {
    fn try_from_url(url: UrlInfos<'_, 'a>) -> Option<Self> {
        match url.segments() {
            [] => Some(SiteRoute(Vec::new())),
            ["about"] => Some(SiteRoute(vec!["about"])),
            _ => None,
        }
    }
}

struct Site;

impl Routable for Site {
    type Route<'a> = SiteRoute<'a>;
}

fn std_hash<T: Hash + ?Sized>(value: &T) -> u64 {
    let mut hasher = DefaultHasher::new();
    value.hash(&mut hasher);
    hasher.finish()
}

#[test]
fn page_name_is_hashed_as_text() {
    assert_eq!(hash_page_name("test_client::index::Index"), std_hash("test_client::index::Index"));
    assert_eq!(hash_page_name(""), std_hash(""));
    assert_ne!(hash_page_name("a"), hash_page_name("b"));
}

#[test]
fn route_is_hashed_by_its_own_hash() {
    let route = SiteRoute(vec!["about"]);
    assert_eq!(hash_route(&route), std_hash(&route));
    assert_eq!(hash_route(&45i32), std_hash(&45i32));
}

#[test]
fn hex_is_lower_case_without_leading_zeros() {
    let cases: [(u64, &str); 7] = [
        (0, "0"),
        (9, "9"),
        (10, "a"),
        (15, "f"),
        (16, "10"),
        (0xdead_beef, "deadbeef"),
        (u64::MAX, "ffffffffffffffff"),
    ];
    for (n, expected) in cases {
        let mut out = String::from("x");
        push_lower_hex(&mut out, n);
        assert_eq!(out, format!("x{}", expected));
    }
}

#[test]
fn rendered_page_has_its_directory() {
    let name = "test_client::index::Index";
    let expected = format!("./.stonkks/page_{:x}/route_{:x}", std_hash(name), 0x2au64);
    assert_eq!(static_page_dir(name, 0x2a), expected);
    assert_eq!(static_page_html_path(name, 0x2a), format!("{}/html.html", expected));
    assert_eq!(static_page_props_path(name, 0x2a), format!("{}/props.json", expected));
}

#[test]
fn build_routes_get_entries_of_their_own() {
    let page: &dyn DynRoutable = &Site;
    let mut hashes: Vec<u64> = Vec::new();
    let mut paths: Vec<String> = Vec::new();
    for url in ["/", "/about"] {
        let infos = OwnedUrlInfos::parse_from_url(url);
        assert!(match_build_route(page, &infos).is_ok());
        let route = <Site as Routable>::try_match_route(infos.to_shared()).unwrap();
        let hash = hash_route(&route);
        paths.push(static_page_html_path("Site", hash));
        hashes.push(hash);
    }
    assert_ne!(hashes[0], hashes[1]);
    assert_ne!(paths[0], paths[1]);
}

#[test]
fn generating_twice_gives_the_same_bytes() {
    let infos = OwnedUrlInfos::parse_from_url("/about");
    let first_route = <Site as Routable>::try_match_route(infos.to_shared()).unwrap();
    let second_route = <Site as Routable>::try_match_route(infos.to_shared()).unwrap();
    assert_eq!(hash_route(&first_route), hash_route(&second_route));
    assert_eq!(
        static_page_html_path("Site", hash_route(&first_route)),
        static_page_html_path("Site", hash_route(&second_route))
    );
    let first = html_document("<head></head><body><h1>About</h1></body>");
    let second = html_document("<head></head><body><h1>About</h1></body>");
    assert_eq!(first.as_bytes(), second.as_bytes());
}

#[test]
fn build_route_that_does_not_match_stops_the_generation() {
    let page: &dyn DynRoutable = &Site;
    let infos = OwnedUrlInfos::parse_from_url("/contact");
    let err = match_build_route(page, &infos).err().unwrap();
    assert_eq!(
        err,
        StaticGenerationError::RouteMismatch(String::from(
            "Route /contact was provided as build route, but did not match."
        ))
    );
}

#[test]
fn first_failure_stops_the_whole_generation() {
    assert_eq!(collect_outcomes(Vec::new()), Ok(()));
    assert_eq!(collect_outcomes(vec![Ok(()), Ok(())]), Ok(()));
    let outcomes = vec![
        Ok(()),
        Err(StaticGenerationError::User(String::from("first"))),
        Ok(()),
        Err(StaticGenerationError::Io(String::from("second"))),
    ];
    assert_eq!(
        collect_outcomes(outcomes),
        Err(StaticGenerationError::User(String::from("first")))
    );
}
