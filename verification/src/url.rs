use vstd::prelude::*;

verus! {

/// The parts of a parsed URL that the library reads.
#[derive(Debug)]
pub struct UrlInfo {
    /// The scheme, lowercase (`Url::scheme`).
    pub scheme: String,
    /// The host, when the URL has one (`Url::host_str`).
    pub host: Option<String>,
    /// The fragment, when there is one (`Url::fragment`).
    pub fragment: Option<String>,
    /// The ASCII serialization of the origin (`Origin::ascii_serialization`).
    pub origin: String,
    /// The serialization of the whole URL (`Url::as_str`).
    pub href: String,
}

/// The mathematical value of a parsed URL.
pub struct UrlInfoV {
    pub scheme: Seq<char>,
    pub host: Option<Seq<char>>,
    pub fragment: Option<Seq<char>>,
    pub origin: Seq<char>,
    pub href: Seq<char>,
}

impl View for UrlInfo {
    type V = UrlInfoV;

    open spec fn view(&self) -> UrlInfoV {
        UrlInfoV {
            scheme: self.scheme@,
            host: crate::text::opt_view(self.host),
            fragment: crate::text::opt_view(self.fragment),
            origin: self.origin@,
            href: self.href@,
        }
    }
}

/// What the `url` crate's parser (`reqwest::Url::parse`) makes of a text:
/// `None` when the text is not a valid absolute URL.
pub uninterp spec fn url_parse(text: Seq<char>) -> Option<UrlInfoV>;

/// The message of the `url` crate's parse error for a text that does not
/// parse (`ParseError`'s `Display`).
pub uninterp spec fn url_parse_error(text: Seq<char>) -> Seq<char>;

/// The decoded query pairs of a URL (`Url::query_pairs`), `None` when the
/// text is not a valid URL.
pub uninterp spec fn url_query_pairs(text: Seq<char>) -> Option<Seq<(Seq<char>, Seq<char>)>>;

/// The serialization of the URL `text` with its query replaced by the
/// form-encoded `pairs` (`query_pairs_mut().clear().extend_pairs(..)`).
pub uninterp spec fn url_with_query(text: Seq<char>, pairs: Seq<(Seq<char>, Seq<char>)>) -> Seq<char>;

pub open spec fn opt_url_view(o: Option<UrlInfo>) -> Option<UrlInfoV> {
    match o {
        Some(u) => Some(u@),
        None => None,
    }
}

pub open spec fn pairs_view(v: Seq<(String, String)>) -> Seq<(Seq<char>, Seq<char>)> {
    v.map_values(|p: (String, String)| (p.0@, p.1@))
}

/// `reqwest::Url::parse` with its error: the parts of the parsed URL, or
/// the parse error's message. The contract names both results.
#[verifier::external_body]
pub fn parse_url_or_error(text: &str) -> (r: Result<UrlInfo, String>)
    ensures
        match r {
            Ok(u) => url_parse(text@) == Some(u@),
            Err(m) => url_parse(text@) is None && m@ == url_parse_error(text@),
        },
{
    match reqwest::Url::parse(text) {
        Ok(url) => Ok(UrlInfo {
            scheme: url.scheme().to_string(),
            host: url.host_str().map(|host| host.to_string()),
            fragment: url.fragment().map(|fragment| fragment.to_string()),
            origin: url.origin().ascii_serialization(),
            href: url.as_str().to_string(),
        }),
        Err(error) => Err(error.to_string()),
    }
}

/// The parts of the parsed URL, or `None` when the text does not parse.
pub fn parse_url(text: &str) -> (r: Option<UrlInfo>)
    ensures
        opt_url_view(r) == url_parse(text@),
{
    match parse_url_or_error(text) {
        Ok(u) => Some(u),
        Err(_) => None,
    }
}

/// `Url::query_pairs` of the parsed `text`: the decoded key/value pairs in
/// order, or `None` when the text does not parse.
#[verifier::external_body]
pub fn query_pairs(text: &str) -> (r: Option<Vec<(String, String)>>)
    ensures
        match r {
            Some(v) => url_query_pairs(text@) == Some(pairs_view(v@)),
            None => url_query_pairs(text@) is None,
        },
        r is Some <==> url_parse(text@) is Some,
{
    reqwest::Url::parse(text).ok().map(|url| {
        url.query_pairs().map(|(key, value)| (key.into_owned(), value.into_owned())).collect()
    })
}

/// `Url::query_pairs_mut().clear().extend_pairs(pairs)` on the parsed
/// `text`, serialized. The contract names the result.
#[verifier::external_body]
pub fn replace_query(text: &str, pairs: &Vec<(String, String)>) -> (r: String)
    requires
        url_parse(text@) is Some,
    ensures
        r@ == url_with_query(text@, pairs_view(pairs@)),
{
    let mut url = reqwest::Url::parse(text).expect("the URL was parsed before");
    url.query_pairs_mut().clear().extend_pairs(pairs.iter().map(|(k, v)| (k.as_str(), v.as_str())));
    url.into()
}

} // verus!
