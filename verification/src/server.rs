//! How a server sorts its requests, and the text that wraps a rendered page.

use crate::response::Response;
use crate::routes::{OwnedUrlInfos, UrlInfos, UrlView};
use crate::text::str_eq;
use vstd::prelude::*;
use vstd::string::*;

verus! {

/// First segment of the URLs that are answered by an API route.
pub const API_ROUTE_SEGMENT: &'static str = "api";

/// First segment of the URLs of static files, which the server leaves to its
/// host.
pub const STATIC_FILES_ROUTE_SEGMENT: &'static str = "public";

/// First segment of the URLs that are answered with a page's props alone.
pub const PROPS_ROUTE_SEGMENT: &'static str = "props";

/// Key under which the serialized props stand in the window object.
pub const SERIALIZED_PROPS_KEY: &'static str = "__STONKKS_SERIALIZED_PROPS__";

/// Name of the object that the page keeps in the browser's window.
pub const STONKKS_WINDOW_OBJECT_KEY: &'static str = "__STONKKS_OBJECT__";

/// Where the browser finds the application's compiled code.
pub const CLIENT_WASM_FILE_PATH: &'static str = "/public/stonkks_wasm_app.wasm";

/// Where the browser finds the script that loads the application.
pub const CLIENT_JS_FILE_PATH: &'static str = "/public/stonkks_js_app.js";

/// Id of the element that the application is rendered into.
pub const ROOT_ELEMENT_ID: &'static str = "__STONKKS_ROOT__";

/// What a server answers a request with.
#[derive(Debug, PartialEq, Eq)]
pub enum ServerResponse {
    Props(String),
    Html(String),
    Api(Response),
}

impl ServerResponse {
    /// The answer to a request for a page's props: found props become a
    /// `Props` response, and an error and a missing page stay as they are.
    pub fn props(outcome: Option<Result<String, String>>) -> (response: Option<
        Result<ServerResponse, String>,
    >)
        ensures
            response == match outcome {
                Some(Ok(props)) => Some(Ok::<ServerResponse, String>(ServerResponse::Props(props))),
                Some(Err(err)) => Some(Err(err)),
                None => None,
            },
    {
        match outcome {
            Some(Ok(props)) => Some(Ok(ServerResponse::Props(props))),
            Some(Err(err)) => Some(Err(err)),
            None => None,
        }
    }

    /// The answer to a request for a page: a rendered page becomes an `Html`
    /// response, and an error and a missing page stay as they are.
    pub fn html(outcome: Option<Result<String, String>>) -> (response: Option<
        Result<ServerResponse, String>,
    >)
        ensures
            response == match outcome {
                Some(Ok(html)) => Some(Ok::<ServerResponse, String>(ServerResponse::Html(html))),
                Some(Err(err)) => Some(Err(err)),
                None => None,
            },
    {
        match outcome {
            Some(Ok(html)) => Some(Ok(ServerResponse::Html(html))),
            Some(Err(err)) => Some(Err(err)),
            None => None,
        }
    }

    /// The answer to a request for an API route: what the route returned
    /// becomes an `Api` response, and an error and a missing route stay as
    /// they are.
    pub fn api(outcome: Option<Result<Response, String>>) -> (response: Option<
        Result<ServerResponse, String>,
    >)
        ensures
            response == match outcome {
                Some(Ok(answer)) => Some(Ok::<ServerResponse, String>(ServerResponse::Api(answer))),
                Some(Err(err)) => Some(Err(err)),
                None => None,
            },
    {
        match outcome {
            Some(Ok(answer)) => Some(Ok(ServerResponse::Api(answer))),
            Some(Err(err)) => Some(Err(err)),
            None => None,
        }
    }
}

/// What a request asks for, told from its first segment.
pub enum Request<'a, 'url> {
    /// The props of the page at the URL that follows the first segment.
    Props(UrlInfos<'a, 'url>),
    /// A static file, which this library does not serve.
    StaticFile,
    /// The API route at the URL that follows the first segment.
    Api(UrlInfos<'a, 'url>),
    /// The page at the whole URL.
    Page(UrlInfos<'a, 'url>),
}

/// `Request`, with each URL by its view.
pub enum RequestView {
    Props(UrlView),
    StaticFile,
    Api(UrlView),
    Page(UrlView),
}

impl<'a, 'url> View for Request<'a, 'url> {
    type V = RequestView;

    open spec fn view(&self) -> RequestView {
        match self {
            Request::Props(url) => RequestView::Props(url@),
            Request::StaticFile => RequestView::StaticFile,
            Request::Api(url) => RequestView::Api(url@),
            Request::Page(url) => RequestView::Page(url@),
        }
    }
}

/// `url` without its first segment.
pub open spec fn shifted(url: UrlView) -> UrlView {
    UrlView { url: url.url, segments: url.segments.drop_first(), params: url.params }
}

/// What a URL asks for. The reserved first segments are `props`, `public`
/// and `api`; every other URL, the empty one too, asks for a page.
pub open spec fn classify_spec(url: UrlView) -> RequestView {
    if url.segments.len() == 0 {
        RequestView::Page(url)
    } else if url.segments[0] == PROPS_ROUTE_SEGMENT@ {
        RequestView::Props(shifted(url))
    } else if url.segments[0] == STATIC_FILES_ROUTE_SEGMENT@ {
        RequestView::StaticFile
    } else if url.segments[0] == API_ROUTE_SEGMENT@ {
        RequestView::Api(shifted(url))
    } else {
        RequestView::Page(url)
    }
}

/// Tells from the first segment of a URL what the request asks for.
pub fn classify<'a, 'url>(url_infos: &'a OwnedUrlInfos<'url>) -> (request: Request<'a, 'url>)
    ensures
        request@ == classify_spec(url_infos@),
{
    match url_infos.to_shared_shifted() {
        Some((first, rest)) => {
            if str_eq(first, PROPS_ROUTE_SEGMENT) {
                Request::Props(rest)
            } else if str_eq(first, STATIC_FILES_ROUTE_SEGMENT) {
                Request::StaticFile
            } else if str_eq(first, API_ROUTE_SEGMENT) {
                Request::Api(rest)
            } else {
                Request::Page(url_infos.to_shared())
            }
        },
        None => Request::Page(url_infos.to_shared()),
    }
}

/// The script that hands the serialized props to the browser.
pub open spec fn window_object_script_spec(props: Seq<char>) -> Seq<char> {
    "window."@ + STONKKS_WINDOW_OBJECT_KEY@ + "=window."@ + STONKKS_WINDOW_OBJECT_KEY@
        + "||{};window."@ + STONKKS_WINDOW_OBJECT_KEY@ + "."@ + SERIALIZED_PROPS_KEY@ + "='"@
        + props + "';"@
}

/// Writes the script that hands the serialized props to the browser: it
/// makes sure that the window object is there and stores the props in it as
/// a string.
pub fn window_object_script(props: &str) -> (script: String)
    ensures
        script@ == window_object_script_spec(props@),
{
    let mut script = String::from_str("window.");
    script.append(STONKKS_WINDOW_OBJECT_KEY);
    script.append("=window.");
    script.append(STONKKS_WINDOW_OBJECT_KEY);
    script.append("||{};window.");
    script.append(STONKKS_WINDOW_OBJECT_KEY);
    script.append(".");
    script.append(SERIALIZED_PROPS_KEY);
    script.append("='");
    script.append(props);
    script.append("';");
    script
}

/// A whole document around rendered markup.
pub open spec fn html_document_spec(html: Seq<char>) -> Seq<char> {
    "<!DOCTYPE html><html id=\""@ + ROOT_ELEMENT_ID@ + "\">"@ + html + "</html>"@
}

/// Wraps rendered markup into a whole document, whose root element carries
/// the id that the browser side looks for.
pub fn html_document(html: &str) -> (document: String)
    ensures
        document@ == html_document_spec(html@),
{
    let mut document = String::from_str("<!DOCTYPE html><html id=\"");
    document.append(ROOT_ELEMENT_ID);
    document.append("\">");
    document.append(html);
    document.append("</html>");
    document
}

} // verus!
