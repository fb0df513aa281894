//! Request URLs: their segments and query parameters, and the traits by which
//! a page says which URLs it answers.

use crate::pointers::RouteUntypedPtr;
use crate::text::{
    lemma_encode_concat, lemma_first_index_is, lemma_first_index_none, split_char, split_once_char, split_once_spec, split_spec, str_eq,
    str_views,
};
use std::hash::Hash;
use vstd::prelude::*;
use vstd::slice::*;
use vstd::string::*;
use vstd::utf8::*;

verus! {

/// What a parsed URL holds: the text it was parsed from, its path segments in
/// order, and its query parameters where it has a query.
pub struct UrlView {
    pub url: Seq<char>,
    pub segments: Seq<Seq<char>>,
    pub params: Option<Map<Seq<char>, Seq<char>>>,
}

/// The suffix that is taken off every path segment.
pub open spec fn html_suffix() -> Seq<char> {
    seq!['.', 'h', 't', 'm', 'l']
}

/// `segment` without a trailing `.html`.
pub open spec fn strip_html_spec(segment: Seq<char>) -> Seq<char> {
    if segment.len() >= 5 && segment.subrange(segment.len() - 5, segment.len() as int)
        == html_suffix() {
        segment.subrange(0, segment.len() - 5)
    } else {
        segment
    }
}

/// The segments that a path's pieces give: empty pieces are dropped, then each
/// piece loses a trailing `.html`.
pub open spec fn segments_of(pieces: Seq<Seq<char>>) -> Seq<Seq<char>>
    decreases pieces.len(),
{
    if pieces.len() == 0 {
        Seq::empty()
    } else if pieces.last().len() == 0 {
        segments_of(pieces.drop_last())
    } else {
        segments_of(pieces.drop_last()).push(strip_html_spec(pieces.last()))
    }
}

/// The segments of a path: its pieces between `/`.
pub open spec fn spec_segments(path: Seq<char>) -> Seq<Seq<char>> {
    segments_of(split_spec(path, '/'))
}

/// The parameters that a query's pairs give: a pair without `=` is dropped, a
/// pair is cut at its first `=`, and a later pair replaces an earlier one of
/// the same name.
pub open spec fn params_of(pairs: Seq<Seq<char>>) -> Map<Seq<char>, Seq<char>>
    decreases pairs.len(),
{
    if pairs.len() == 0 {
        Map::empty()
    } else {
        match split_once_spec(pairs.last(), '=') {
            Some((name, value)) => params_of(pairs.drop_last()).insert(name, value),
            None => params_of(pairs.drop_last()),
        }
    }
}

/// The parameters of a query: its pairs between `&`.
pub open spec fn spec_params(query: Seq<char>) -> Map<Seq<char>, Seq<char>> {
    params_of(split_spec(query, '&'))
}

/// What parsing `url` gives: the URL is cut at its first `?` into a path and
/// a query, and a URL without `?` has no parameters at all.
pub open spec fn spec_parse_url(url: Seq<char>) -> UrlView {
    match split_once_spec(url, '?') {
        Some((path, query)) => UrlView {
            url,
            segments: spec_segments(path),
            params: Some(spec_params(query)),
        },
        None => UrlView { url, segments: spec_segments(url), params: None },
    }
}

/// A segment that is written with `.html` behind it parses to the segment
/// itself.
pub proof fn lemma_html_suffix_is_stripped(name: Seq<char>)
    ensures
        strip_html_spec(name + html_suffix()) == name,
{
    let whole = name + html_suffix();
    assert(whole.subrange(whole.len() - 5, whole.len() as int) == html_suffix());
    assert(whole.subrange(0, whole.len() - 5) == name);
}

/// A path of one segment, with or without a leading `/`, parses to that
/// segment alone.
pub proof fn lemma_single_segment(name: Seq<char>)
    requires
        name.len() > 0,
        forall|k: int| 0 <= k < name.len() ==> name[k] != '/',
    ensures
        spec_segments(name) == seq![strip_html_spec(name)],
        spec_segments(seq!['/'] + name) == seq![strip_html_spec(name)],
{
    lemma_first_index_none(name, '/');
    assert(split_spec(name, '/') == seq![name]);
    let pieces = seq![name];
    assert(pieces.drop_last() == Seq::<Seq<char>>::empty());
    reveal_with_fuel(segments_of, 3);
    assert(segments_of(pieces) == seq![strip_html_spec(name)]);

    let path = seq!['/'] + name;
    lemma_first_index_is(path, '/', 0);
    assert(path.subrange(0, 0) == Seq::<char>::empty());
    assert(path.subrange(1, path.len() as int) == name);
    let both = seq![Seq::<char>::empty()] + seq![name];
    assert(split_spec(path, '/') == both);
    assert(both.drop_last() == seq![Seq::<char>::empty()]);
    assert(both.last() == name);
    assert(seq![Seq::<char>::empty()].drop_last() == Seq::<Seq<char>>::empty());
    assert(segments_of(both) == seq![strip_html_spec(name)]);
}

/// A pair without `=` adds nothing to the parameters, and takes nothing from
/// them.
pub proof fn lemma_malformed_pair_is_dropped(pairs: Seq<Seq<char>>, malformed: Seq<char>)
    requires
        forall|k: int| 0 <= k < malformed.len() ==> malformed[k] != '=',
    ensures
        params_of(pairs.push(malformed)) == params_of(pairs),
{
    lemma_first_index_none(malformed, '=');
    assert(pairs.push(malformed).drop_last() == pairs);
}

/// A well-formed pair sets its name to its value, whatever came before.
pub proof fn lemma_pair_sets_its_name(pairs: Seq<Seq<char>>, name: Seq<char>, value: Seq<char>)
    requires
        forall|k: int| 0 <= k < name.len() ==> name[k] != '=',
    ensures
        params_of(pairs.push(name + seq!['='] + value)) == params_of(pairs).insert(name, value),
{
    let pair = name + seq!['='] + value;
    assert(pair[name.len() as int] == '=');
    assert forall|k: int| 0 <= k < name.len() implies pair[k] != '=' by {
        assert(pair[k] == name[k]);
    }
    lemma_first_index_is(pair, '=', name.len() as int);
    assert(pair.subrange(0, name.len() as int) == name);
    assert(pair.subrange(name.len() as int + 1, pair.len() as int) == value);
    assert(pairs.push(pair).drop_last() == pairs);
}

/// The map that a list of name and value pairs stands for. A later pair
/// replaces an earlier one of the same name.
pub open spec fn pairs_map(pairs: Seq<(&str, &str)>) -> Map<Seq<char>, Seq<char>>
    decreases pairs.len(),
{
    if pairs.len() == 0 {
        Map::empty()
    } else {
        pairs_map(pairs.drop_last()).insert(pairs.last().0@, pairs.last().1@)
    }
}

/// The query parameters of a URL, borrowed from its text.
pub struct OwnedParams<'a> {
    pairs: Vec<(&'a str, &'a str)>,
}

impl<'a> View for OwnedParams<'a> {
    type V = Map<Seq<char>, Seq<char>>;

    closed spec fn view(&self) -> Map<Seq<char>, Seq<char>> {
        pairs_map(self.pairs@)
    }
}

impl<'a> OwnedParams<'a> {
    /// Reads the parameters of a query string.
    pub fn parse(params: &'a str) -> (parsed: Self)
        ensures
            parsed@ == spec_params(params@),
    {
        let pieces = split_char(params, '&');
        let mut pairs: Vec<(&'a str, &'a str)> = Vec::new();
        let mut j: usize = 0;
        while j < pieces.len()
            invariant
                j <= pieces@.len(),
                str_views(pieces@) == split_spec(params@, '&'),
                pairs_map(pairs@) == params_of(str_views(pieces@).take(j as int)),
            decreases pieces@.len() - j,
        {
            let ghost done = str_views(pieces@).take(j as int);
            let ghost next = str_views(pieces@).take(j + 1);
            proof {
                assert(next.drop_last() == done);
                assert(next.last() == pieces@[j as int]@);
            }
            // A pair without `=` is left out.
            match split_once_char(pieces[j], '=') {
                Some((name, value)) => {
                    let ghost before = pairs@;
                    pairs.push((name, value));
                    proof {
                        assert(pairs@.drop_last() == before);
                    }
                },
                None => {},
            }
            j += 1;
        }
        proof {
            assert(str_views(pieces@).take(pieces@.len() as int) == str_views(pieces@));
        }
        OwnedParams { pairs }
    }

    /// The value of the parameter `name`.
    pub fn get(&self, name: &str) -> (value: Option<&'a str>)
        ensures
            match value {
                Some(v) => self@.contains_key(name@) && self@[name@] == v@,
                None => !self@.contains_key(name@),
            },
    {
        let mut j: usize = self.pairs.len();
        proof {
            assert(self.pairs@.take(j as int) == self.pairs@);
        }
        while j > 0
            invariant
                j <= self.pairs@.len(),
                self@.contains_key(name@) <==> pairs_map(self.pairs@.take(j as int)).contains_key(
                    name@,
                ),
                self@.contains_key(name@) ==> self@[name@] == pairs_map(
                    self.pairs@.take(j as int),
                )[name@],
            decreases j,
        {
            let ghost upto = self.pairs@.take(j as int);
            proof {
                assert(upto.drop_last() == self.pairs@.take(j - 1));
                assert(upto.last() == self.pairs@[j - 1]);
            }
            j -= 1;
            let pair = self.pairs[j];
            if str_eq(pair.0, name) {
                return Some(pair.1);
            }
        }
        None
    }

    /// The same parameters, shared.
    pub fn to_shared(&self) -> (shared: Params<'_, 'a>)
        ensures
            shared@ == self@,
    {
        Params { inner: self }
    }
}

/// A shared look at the query parameters of a URL.
#[derive(Clone, Copy)]
pub struct Params<'a, 'url> {
    inner: &'a OwnedParams<'url>,
}

impl<'a, 'url> View for Params<'a, 'url> {
    type V = Map<Seq<char>, Seq<char>>;

    closed spec fn view(&self) -> Map<Seq<char>, Seq<char>> {
        self.inner@
    }
}

impl<'a, 'url> Params<'a, 'url> {
    /// The value of the parameter `name`.
    pub fn get(&self, name: &str) -> (value: Option<&'url str>)
        ensures
            match value {
                Some(v) => self@.contains_key(name@) && self@[name@] == v@,
                None => !self@.contains_key(name@),
            },
    {
        self.inner.get(name)
    }
}

/// The path segments of a URL, borrowed from its text.
pub struct OwnedSegments<'a> {
    items: Vec<&'a str>,
}

impl<'a> View for OwnedSegments<'a> {
    type V = Seq<Seq<char>>;

    closed spec fn view(&self) -> Seq<Seq<char>> {
        str_views(self.items@)
    }
}

/// A shared look at path segments.
#[derive(Clone, Copy)]
pub struct Segments<'a, 'url> {
    items: &'a [&'url str],
}

impl<'a, 'url> View for Segments<'a, 'url> {
    type V = Seq<Seq<char>>;

    closed spec fn view(&self) -> Seq<Seq<char>> {
        str_views(self.items@)
    }
}

impl<'a, 'url> Segments<'a, 'url> {
    /// The segments as a slice.
    pub fn as_slice(&self) -> (items: &'a [&'url str])
        ensures
            str_views(items@) == self@,
    {
        self.items
    }
}

impl<'a> OwnedSegments<'a> {
    /// The same segments, shared.
    pub fn to_shared(&self) -> (shared: Segments<'_, 'a>)
        ensures
            shared@ == self@,
    {
        Segments { items: self.items.as_slice() }
    }

    /// The first segment, and the segments that follow it.
    pub fn to_shared_shifted(&self) -> (shifted: Option<(&'a str, Segments<'_, 'a>)>)
        ensures
            match shifted {
                Some((first, rest)) => self@.len() > 0 && first@ == self@[0] && rest@
                    == self@.drop_first(),
                None => self@.len() == 0,
            },
    {
        let n: usize = self.items.len();
        if n == 0 {
            return None;
        }
        let first = self.items[0];
        let rest = slice_subrange(self.items.as_slice(), 1, n);
        proof {
            assert(str_views(rest@) == str_views(self.items@).drop_first());
        }
        Some((first, Segments { items: rest }))
    }
}

/// `segment` without a trailing `.html`.
pub fn strip_html<'a>(segment: &'a str) -> (stripped: &'a str)
    ensures
        stripped@ == strip_html_spec(segment@),
{
    let bytes = segment.as_bytes();
    let n: usize = bytes.len();
    let ghost all = segment.spec_bytes();
    proof {
        encode_utf8_valid_utf8(segment@);
        encode_utf8_decode_utf8(segment@);
        assert(is_ascii_chars(html_suffix()));
        is_ascii_chars_encode_utf8(html_suffix());
        encode_utf8_decode_utf8(html_suffix());
    }
    if n >= 5 && bytes[n - 5] == 0x2e && bytes[n - 4] == 0x68 && bytes[n - 3] == 0x74 && bytes[n
        - 2] == 0x6d && bytes[n - 1] == 0x6c {
        proof {
            is_char_boundary_iff_not_is_continuation_byte(all, n - 5);
        }
        let (head, tail) = segment.split_at(n - 5);
        proof {
            encode_utf8_decode_utf8(head@);
            encode_utf8_decode_utf8(tail@);
            decode_utf8_split(all, n - 5);
            assert(tail.spec_bytes() =~= encode_utf8(html_suffix()));
            assert(tail@ == html_suffix());
            assert(segment@ == head@ + tail@);
            let len = segment@.len() as int;
            assert(segment@.subrange(len - 5, len) == tail@);
            assert(segment@.subrange(0, len - 5) == head@);
        }
        head
    } else {
        proof {
            let len = segment@.len() as int;
            if len >= 5 && segment@.subrange(len - 5, len) == html_suffix() {
                let head = segment@.subrange(0, len - 5);
                assert(segment@ == head + html_suffix());
                lemma_encode_concat(head, html_suffix());
                let m = encode_utf8(head).len() as int;
                assert(all[m] == encode_utf8(html_suffix())[0]);
                assert(all[m + 1] == encode_utf8(html_suffix())[1]);
                assert(all[m + 2] == encode_utf8(html_suffix())[2]);
                assert(all[m + 3] == encode_utf8(html_suffix())[3]);
                assert(all[m + 4] == encode_utf8(html_suffix())[4]);
                assert(false);
            }
        }
        segment
    }
}

/// Reads the segments of a path.
pub fn parse_segments<'a>(path: &'a str) -> (segments: OwnedSegments<'a>)
    ensures
        segments@ == spec_segments(path@),
{
    let pieces = split_char(path, '/');
    let mut items: Vec<&'a str> = Vec::new();
    let mut j: usize = 0;
    while j < pieces.len()
        invariant
            j <= pieces@.len(),
            str_views(pieces@) == split_spec(path@, '/'),
            str_views(items@) == segments_of(str_views(pieces@).take(j as int)),
        decreases pieces@.len() - j,
    {
        let ghost done = str_views(pieces@).take(j as int);
        let ghost next = str_views(pieces@).take(j + 1);
        proof {
            assert(next.drop_last() == done);
            assert(next.last() == pieces@[j as int]@);
        }
        let piece = pieces[j];
        if !piece.is_empty() {
            let ghost before = items@;
            let stripped = strip_html(piece);
            items.push(stripped);
            proof {
                assert(str_views(items@) == str_views(before).push(stripped@));
            }
        }
        j += 1;
    }
    proof {
        assert(str_views(pieces@).take(pieces@.len() as int) == str_views(pieces@));
    }
    OwnedSegments { items }
}

/// Cuts a URL into its segments and, where it has a query, its parameters.
pub fn parse_url<'a>(url: &'a str) -> (parts: (OwnedSegments<'a>, Option<OwnedParams<'a>>))
    ensures
        parts.0@ == spec_parse_url(url@).segments,
        match parts.1 {
            Some(params) => spec_parse_url(url@).params == Some(params@),
            None => spec_parse_url(url@).params is None,
        },
{
    match split_once_char(url, '?') {
        Some((path, query)) => (parse_segments(path), Some(OwnedParams::parse(query))),
        None => (parse_segments(url), None),
    }
}

/// A parsed URL. It borrows from the text it was parsed from.
pub struct OwnedUrlInfos<'a> {
    url: &'a str,
    segments: OwnedSegments<'a>,
    params: Option<OwnedParams<'a>>,
}

impl<'a> View for OwnedUrlInfos<'a> {
    type V = UrlView;

    closed spec fn view(&self) -> UrlView {
        UrlView {
            url: self.url@,
            segments: self.segments@,
            params: match self.params {
                Some(params) => Some(params@),
                None => None,
            },
        }
    }
}

/// A shared look at a parsed URL, cheap to copy.
#[derive(Clone, Copy)]
pub struct UrlInfos<'a, 'url> {
    url: &'url str,
    segments: Segments<'a, 'url>,
    params: Option<Params<'a, 'url>>,
}

impl<'a, 'url> View for UrlInfos<'a, 'url> {
    type V = UrlView;

    closed spec fn view(&self) -> UrlView {
        UrlView {
            url: self.url@,
            segments: self.segments@,
            params: match self.params {
                Some(params) => Some(params@),
                None => None,
            },
        }
    }
}

impl<'a> OwnedUrlInfos<'a> {
    /// The path segments, in order.
    pub fn segments(&self) -> (items: &[&'a str])
        ensures
            str_views(items@) == self@.segments,
    {
        self.segments.items.as_slice()
    }

    /// The query parameters, where the URL has a query.
    pub fn params(&self) -> (params: Option<Params<'_, 'a>>)
        ensures
            match params {
                Some(p) => self@.params == Some(p@),
                None => self@.params is None,
            },
    {
        match &self.params {
            Some(params) => Some(params.to_shared()),
            None => None,
        }
    }

    /// The text that was parsed.
    pub fn url(&self) -> (url: &'a str)
        ensures
            url@ == self@.url,
    {
        self.url
    }

    /// Parses a URL.
    pub fn parse_from_url(url: &'a str) -> (infos: Self)
        ensures
            infos@ == spec_parse_url(url@),
    {
        let (segments, params) = parse_url(url);
        OwnedUrlInfos { url, segments, params }
    }

    /// The same URL, shared.
    pub fn to_shared(&self) -> (shared: UrlInfos<'_, 'a>)
        ensures
            shared@ == self@,
    {
        UrlInfos { url: self.url, segments: self.segments.to_shared(), params: self.params() }
    }

    /// The first segment, and the URL without it. The text and the parameters
    /// stay as they are.
    pub fn to_shared_shifted(&self) -> (shifted: Option<(&'a str, UrlInfos<'_, 'a>)>)
        ensures
            match shifted {
                Some((first, rest)) => {
                    &&& self@.segments.len() > 0
                    &&& first@ == self@.segments[0]
                    &&& rest@ == (UrlView {
                        url: self@.url,
                        segments: self@.segments.drop_first(),
                        params: self@.params,
                    })
                },
                None => self@.segments.len() == 0,
            },
    {
        match self.segments.to_shared_shifted() {
            Some((first, segments)) => {
                let infos = UrlInfos { url: self.url, segments, params: self.params() };
                Some((first, infos))
            },
            None => None,
        }
    }
}

impl<'a, 'url> UrlInfos<'a, 'url> {
    /// The path segments, in order.
    pub fn segments(&self) -> (items: &'a [&'url str])
        ensures
            str_views(items@) == self@.segments,
    {
        self.segments.as_slice()
    }

    /// The query parameters, where the URL has a query.
    pub fn params(&self) -> (params: Option<Params<'a, 'url>>)
        ensures
            match params {
                Some(p) => self@.params == Some(p@),
                None => self@.params is None,
            },
    {
        self.params
    }

    /// The text that was parsed.
    pub fn url(&self) -> (url: &'url str)
        ensures
            url@ == self@.url,
    {
        self.url
    }
}

/// The data that a page takes from a URL. It may borrow from the URL's text.
///
/// Matching is a function of the URL alone: `route_of` names what
/// `try_from_url` returns, and `None` says that the page does not answer the
/// URL.
pub trait Route<'url>: Sized + Send + 'url + Hash {
    /// The route that a URL gives, if the page answers it. An implementation
    /// that gives no definition leaves open what it is.
    open spec fn route_of(url: UrlView) -> Option<Self> {
        arbitrary()
    }

    /// Reads the route from a URL.
    fn try_from_url(url: UrlInfos<'_, 'url>) -> (route: Option<Self>)
        ensures
            route == Self::route_of(url@),
    ;
}

/// Something that answers URLs with a route of its own type.
pub trait Routable: Send + Sync + 'static {
    type Route<'a>: Route<'a>;

    /// Reads this type's route from a URL.
    fn try_match_route<'a, 'url>(url_infos: UrlInfos<'a, 'url>) -> (route: Option<
        Self::Route<'url>,
    >)
        ensures
            route == <Self::Route<'url> as Route<'url>>::route_of(url_infos@),
    {
        Self::Route::try_from_url(url_infos)
    }
}

/// `Routable` for values whose type is not known where they are stored: the
/// route comes back behind a handle.
pub trait DynRoutable: Send + Sync + 'static {
    /// The handle that a URL gives, if this value answers it. An
    /// implementation that gives no definition leaves open what it is.
    open spec fn route_for<'url>(&self, url: UrlView) -> Option<RouteUntypedPtr<'url>> {
        arbitrary()
    }

    /// Matches a URL and hands the route back behind a handle.
    fn try_match_route<'a, 'url>(&self, url_infos: UrlInfos<'a, 'url>) -> (route: Option<
        RouteUntypedPtr<'url>,
    >)
        ensures
            route == self.route_for(url_infos@),
    ;
}

impl<T: Routable> DynRoutable for T {
    open spec fn route_for<'url>(&self, url: UrlView) -> Option<RouteUntypedPtr<'url>> {
        match <T::Route<'url> as Route<'url>>::route_of(url) {
            Some(route) => Some(RouteUntypedPtr::erased::<T>(route)),
            None => None,
        }
    }

    fn try_match_route<'a, 'url>(&self, url_infos: UrlInfos<'a, 'url>) -> (route: Option<
        RouteUntypedPtr<'url>,
    >) {
        match <T as Routable>::try_match_route(url_infos) {
            Some(route) => Some(RouteUntypedPtr::new::<T>(route)),
            None => None,
        }
    }
}

} // verus!
