use stonkks::client::StartupError;
use stonkks::response::{ContentType, Response};
use stonkks::routes::OwnedUrlInfos;
use stonkks::server::{classify, html_document, window_object_script, Request, ServerResponse};

#[test]
fn props_prefix_asks_for_props() {
    let infos = OwnedUrlInfos::parse_from_url("/props/counter/45");
    match classify(&infos) {
        Request::Props(rest) => assert_eq!(rest.segments(), &["counter", "45"]),
        _ => panic!("expected a request for props"),
    }
}

#[test]
fn public_prefix_is_left_to_the_host() {
    let infos = OwnedUrlInfos::parse_from_url("/public/app.wasm");
    assert!(matches!(classify(&infos), Request::StaticFile));
}

#[test]
fn api_prefix_asks_for_an_api_route() {
    let infos = OwnedUrlInfos::parse_from_url("/api/hello/world");
    match classify(&infos) {
        Request::Api(rest) => assert_eq!(rest.segments(), &["hello", "world"]),
        _ => panic!("expected a request for an API route"),
    }
}

#[test]
fn every_other_url_asks_for_a_page() {
    let infos = OwnedUrlInfos::parse_from_url("/counter/45");
    match classify(&infos) {
        Request::Page(whole) => assert_eq!(whole.segments(), &["counter", "45"]),
        _ => panic!("expected a request for a page"),
    }
    let infos = OwnedUrlInfos::parse_from_url("/");
    match classify(&infos) {
        Request::Page(whole) => assert!(whole.segments().is_empty()),
        _ => panic!("expected a request for a page"),
    }
    let infos = OwnedUrlInfos::parse_from_url("/apis");
    assert!(matches!(classify(&infos), Request::Page(_)));
}

#[test]
fn script_stores_the_props_in_the_window() {
    assert_eq!(
        window_object_script("{\"count\":45}"),
        "window.__STONKKS_OBJECT__=window.__STONKKS_OBJECT__||{};window.__STONKKS_OBJECT__.__STONKKS_SERIALIZED_PROPS__='{\"count\":45}';"
    );
}

#[test]
fn document_wraps_the_markup() {
    assert_eq!(
        html_document("<head></head><body></body>"),
        "<!DOCTYPE html><html id=\"__STONKKS_ROOT__\"><head></head><body></body></html>"
    );
}

#[test]
fn outcomes_become_responses() {
    assert_eq!(
        ServerResponse::props(Some(Ok(String::from("null")))),
        Some(Ok(ServerResponse::Props(String::from("null"))))
    );
    assert_eq!(
        ServerResponse::html(Some(Ok(String::from("<p></p>")))),
        Some(Ok(ServerResponse::Html(String::from("<p></p>"))))
    );
    assert_eq!(ServerResponse::html(Some(Err(String::from("boom")))), Some(Err(String::from("boom"))));
    assert_eq!(ServerResponse::props(None), None);
    let answer = Response::new(ContentType::Json, b"{}".to_vec());
    match ServerResponse::api(Some(Ok(answer))) {
        Some(Ok(ServerResponse::Api(response))) => {
            assert_eq!(response.content_type, ContentType::Json);
            assert_eq!(response.content, b"{}".to_vec());
        }
        _ => panic!("expected an API response"),
    }
    assert_eq!(ServerResponse::api(None), None);
}

#[test]
fn startup_errors_have_their_messages() {
    assert_eq!(StartupError::NoWindow.error_msg(), "Unable to aquire the window object.");
    assert_eq!(StartupError::NoProps.error_msg(), "No props present in the Stonkks object.");
    assert_eq!(StartupError::NoPathname.error_msg(), "Unable to get the pathname.");
    assert_eq!(StartupError::NoStonkksObject.error_msg(), "No Stonkks object.");
    assert_eq!(StartupError::PropsNotUTF8.error_msg(), "Props are not UTF8 encoded.");
}
