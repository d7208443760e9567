//! The parts of a link.
use vstd::prelude::*;

use crate::text::opt_view;

verus! {

/// The parts of a link that the rest of the library reads.
#[derive(Debug, Clone)]
pub struct UrlParts {
    /// What stands before the first colon.
    pub scheme: String,
    /// The host, where the link names one.
    pub host: Option<String>,
    /// The path, percent-encoded.
    pub path: String,
    /// Names and values of the query, decoded, in order.
    pub query: Vec<(String, String)>,
    /// What stands behind the hash sign.
    pub fragment: Option<String>,
}

/// The parts of a link as characters.
#[verifier::ext_equal]
pub struct UrlView {
    /// What stands before the first colon.
    pub scheme: Seq<char>,
    /// The host, where the link names one.
    pub host: Option<Seq<char>>,
    /// The path, percent-encoded.
    pub path: Seq<char>,
    /// Names and values of the query, decoded, in order.
    pub query: Seq<(Seq<char>, Seq<char>)>,
    /// What stands behind the hash sign.
    pub fragment: Option<Seq<char>>,
}

/// The characters of each name and value.
pub open spec fn pair_views(pairs: Seq<(String, String)>) -> Seq<(Seq<char>, Seq<char>)> {
    pairs.map_values(|p: (String, String)| (p.0@, p.1@))
}

impl View for UrlParts {
    type V = UrlView;

    open spec fn view(&self) -> UrlView {
        UrlView {
            scheme: self.scheme@,
            host: opt_view(self.host),
            path: self.path@,
            query: pair_views(self.query@),
            fragment: opt_view(self.fragment),
        }
    }
}

/// What the `url` crate reads out of a text, where it is a link: the rules of
/// the URL standard, which have no short statement.
pub uninterp spec fn url_parts(text: Seq<char>) -> Option<UrlView>;

/// `url::Url::parse`, with `scheme`, `host_str`, `path`, `query_pairs` and
/// `fragment` of the link that it gives; `None` where the text is no absolute
/// link. The result depends on the text alone and is named by [`url_parts`].
#[verifier::external_body]
pub(crate) fn parse_parts(text: &str) -> (r: Option<UrlParts>)
    ensures
        match r {
            Some(parts) => url_parts(text@) == Some(parts@),
            None => url_parts(text@) is None,
        },
{
    let u = url::Url::parse(text).ok()?;
    Some(UrlParts {
        scheme: u.scheme().to_string(),
        host: u.host_str().map(|h| h.to_string()),
        path: u.path().to_string(),
        query: u.query_pairs().map(|(k, v)| (k.into_owned(), v.into_owned())).collect(),
        fragment: u.fragment().map(|f| f.to_string()),
    })
}

/// The value of the first name `key` in a query.
pub open spec fn first_value(query: Seq<(Seq<char>, Seq<char>)>, key: Seq<char>) -> Option<
    Seq<char>,
>
    decreases query.len(),
{
    if query.len() == 0 {
        None
    } else if query[0].0 == key {
        Some(query[0].1)
    } else {
        first_value(query.drop_first(), key)
    }
}

/// The value of the first name `key` in a query.
pub fn query_value(query: &Vec<(String, String)>, key: &str) -> (r: Option<String>)
    ensures
        opt_view(r) == first_value(pair_views(query@), key@),
{
    let ghost all = pair_views(query@);
    let mut i: usize = 0;
    assert(all.skip(0) == all);
    while i < query.len()
        invariant
            i <= query.len(),
            all == pair_views(query@),
            first_value(all, key@) == first_value(all.skip(i as int), key@),
        decreases query.len() - i,
    {
        assert(all.skip(i as int).drop_first() == all.skip(i + 1));
        if crate::text::same(query[i].0.as_str(), key) {
            return Some(query[i].1.clone());
        }
        i += 1;
    }
    None
}

} // verus!
