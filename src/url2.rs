//! The URL value: a URL parsed by the `url` crate, with a cache that reads
//! its query as a map with unique keys.
use vstd::prelude::*;
use crate::engine::{
    placeholder_text, parsed_text, query_cleared, query_pair_appended, query_pairs_of, url_text,
    url_append_query_pair, url_as_str, url_clear_query, url_eq, url_parse, url_query_pairs,
};
use crate::error::{Url2Error, Url2Result};
use crate::pairs::{collect_last_wins, keys_unique, last_wins, lists, lookup, pairs_view, put, take};

verus! {

/// The serialization after the query of `text` is emptied and the pairs of
/// `e` are appended to it, in order.
pub open spec fn query_rebuilt(text: Seq<char>, e: Seq<(Seq<char>, Seq<char>)>) -> Seq<char>
    decreases e.len(),
{
    if e.len() == 0 {
        query_cleared(text)
    } else {
        query_pair_appended(query_rebuilt(text, e.drop_last()), e.last().0, e.last().1)
    }
}

/// `after` is `before` with its query rebuilt from the entries of `m`, each
/// exactly once, in some order.
pub open spec fn rebuilt_from(after: Seq<char>, before: Seq<char>, m: Map<Seq<char>, Seq<char>>) -> bool {
    exists|e: Seq<(Seq<char>, Seq<char>)>| lists(e, m) && after == query_rebuilt(before, e)
}

/// A URL parsed by the `url` crate, with the unique-key view of its query.
///
/// The view is built from the query the first time it is asked for, and
/// kept from then on: a change made to the query through [`Url2::as_url_mut`]
/// afterwards does not reach it.
#[derive(Debug, Clone)]
pub struct Url2 {
    parsed: url::Url,
    unique_cache: Option<Vec<(String, String)>>,
}

impl Url2 {
    /// The URL's serialization.
    pub closed spec fn text(&self) -> Seq<char> {
        url_text(self.parsed)
    }

    /// The unique-key map of the query, once it has been built.
    pub closed spec fn cache(&self) -> Option<Map<Seq<char>, Seq<char>>> {
        match self.unique_cache {
            Some(v) => Some(last_wins(pairs_view(v@))),
            None => None,
        }
    }

    /// The cache, where it has been built, holds each key once.
    pub closed spec fn wf(&self) -> bool {
        match self.unique_cache {
            Some(v) => keys_unique(pairs_view(v@)),
            None => true,
        }
    }

    /// The map that the unique-key view shows: the cache where it has been
    /// built, else the query's pairs with the last occurrence of each key.
    pub open spec fn unique_map(&self) -> Map<Seq<char>, Seq<char>> {
        match self.cache() {
            Some(m) => m,
            None => last_wins(query_pairs_of(self.text())),
        }
    }

    /// Parses `s` as an absolute URL; the error wraps the `url` crate's
    /// reason where it rejects `s`.
    pub fn try_parse(s: &str) -> (r: Url2Result<Url2>)
        ensures
            match r {
                Ok(u) => parsed_text(s@) == Some(u.text()) && u.cache() is None && u.wf(),
                Err(e) => parsed_text(s@) is None && e@ is UrlParseError,
            },
            s@.len() == 0 ==> r is Err,
    {
        // Where the url crate accepts `s`, `parse` has what it requires.
        match url_parse(s) {
            Ok(_) => Ok(Url2::parse(s)),
            Err(e) => Err(Url2Error::from(e)),
        }
    }

    /// Parses `s`, which must name an absolute URL. For input that may not,
    /// use [`Url2::try_parse`].
    pub fn parse(s: &str) -> (r: Url2)
        requires
            parsed_text(s@) is Some,
        ensures
            parsed_text(s@) == Some(r.text()),
            r.cache() is None,
            r.wf(),
    {
        Url2::priv_new(url_parse(s).unwrap())
    }

    /// The URL's serialization, taking the value.
    pub fn into_string(self) -> (r: String)
        ensures
            r@ == self.text(),
    {
        self.as_str().to_string()
    }

    /// The URL's serialization.
    pub fn to_string(&self) -> (r: String)
        ensures
            r@ == self.text(),
    {
        self.as_str().to_string()
    }

    /// The URL's serialization, borrowed.
    pub fn as_str(&self) -> (r: &str)
        ensures
            r@ == self.text(),
    {
        url_as_str(&self.parsed)
    }

    /// The parsed URL, for reading its parts.
    pub fn as_url(&self) -> (r: &url::Url)
        ensures
            url_text(*r) == self.text(),
    {
        &self.parsed
    }

    /// The parsed URL, for changing its parts. The unique-key cache is left
    /// as it is.
    pub fn as_url_mut(&mut self) -> (r: &mut url::Url)
        ensures
            url_text(*r) == old(self).text(),
            final(self).text() == url_text(*final(r)),
            final(self).cache() == old(self).cache(),
            final(self).wf() == old(self).wf(),
    {
        &mut self.parsed
    }

    /// When read as a unique-key map, does the query hold `key`?
    pub fn query_unique_contains_key(&mut self, key: &str) -> (r: bool)
        requires
            old(self).wf(),
        ensures
            r == old(self).unique_map().contains_key(key@),
            final(self).wf(),
            final(self).text() == old(self).text(),
            final(self).cache() == Some(old(self).unique_map()),
    {
        self.priv_ensure_query_unique_cache();
        let k = key.to_string();
        match &self.unique_cache {
            Some(v) => lookup(v, &k).is_some(),
            None => false,
        }
    }

    /// When read as a unique-key map, the value of `key` in the query.
    pub fn query_unique_get(&mut self, key: &str) -> (r: Option<&str>)
        requires
            old(self).wf(),
        ensures
            match r {
                Some(x) => old(self).unique_map().contains_key(key@)
                    && x@ == old(self).unique_map()[key@],
                None => !old(self).unique_map().contains_key(key@),
            },
            final(self).wf(),
            final(self).text() == old(self).text(),
            final(self).cache() == Some(old(self).unique_map()),
    {
        self.priv_ensure_query_unique_cache();
        let k = key.to_string();
        match &self.unique_cache {
            Some(v) => match lookup(v, &k) {
                Some(x) => Some(x.as_str()),
                None => None,
            },
            None => None,
        }
    }

    fn priv_new(parsed: url::Url) -> (r: Url2)
        ensures
            r.text() == url_text(parsed),
            r.cache() is None,
            r.wf(),
    {
        Url2 { parsed, unique_cache: None }
    }

    /// Builds the cache from the query's pairs, unless it is built already.
    pub(crate) fn priv_ensure_query_unique_cache(&mut self)
        requires
            old(self).wf(),
        ensures
            final(self).wf(),
            final(self).text() == old(self).text(),
            final(self).cache() == Some(old(self).unique_map()),
    {
        if self.unique_cache.is_none() {
            let pairs = url_query_pairs(&self.parsed);
            self.unique_cache = Some(collect_last_wins(&pairs));
        }
    }

    /// The value of `key` in the cache.
    pub(crate) fn priv_cache_get(&self, key: &str) -> (r: Option<&str>)
        requires
            self.wf(),
            self.cache() is Some,
        ensures
            match r {
                Some(x) => self.cache()->Some_0.contains_key(key@)
                    && x@ == self.cache()->Some_0[key@],
                None => !self.cache()->Some_0.contains_key(key@),
            },
    {
        let k = key.to_string();
        match &self.unique_cache {
            Some(v) => match lookup(v, &k) {
                Some(x) => Some(x.as_str()),
                None => None,
            },
            None => None,
        }
    }

    /// A copy of the cache's entries, each once.
    pub(crate) fn priv_cache_pairs(&self) -> (r: Vec<(String, String)>)
        requires
            self.wf(),
            self.cache() is Some,
        ensures
            lists(pairs_view(r@), self.cache()->Some_0),
    {
        let mut r: Vec<(String, String)> = Vec::new();
        if let Some(v) = &self.unique_cache {
            let mut i: usize = 0;
            while i < v.len()
                invariant
                    i <= v@.len(),
                    pairs_view(r@) == pairs_view(v@).take(i as int),
                decreases v@.len() - i,
            {
                let ghost r0 = r@;
                let k = v[i].0.clone();
                let x = v[i].1.clone();
                r.push((k, x));
                assert(pairs_view(r@) =~= pairs_view(r0).push((v@[i as int].0@, v@[i as int].1@)));
                assert(pairs_view(v@).take(i + 1) =~= pairs_view(v@).take(i as int).push(
                    pairs_view(v@)[i as int],
                ));
                i = i + 1;
            }
            assert(pairs_view(v@).take(i as int) =~= pairs_view(v@));
        }
        r
    }

    /// Takes `key` out of the cache; the query is left as it is.
    pub(crate) fn priv_cache_remove(&mut self, key: &str) -> (r: Option<String>)
        requires
            old(self).wf(),
            old(self).cache() is Some,
        ensures
            final(self).wf(),
            final(self).text() == old(self).text(),
            final(self).cache() == Some(old(self).cache()->Some_0.remove(key@)),
            match r {
                Some(x) => old(self).cache()->Some_0.contains_key(key@)
                    && x@ == old(self).cache()->Some_0[key@],
                None => !old(self).cache()->Some_0.contains_key(key@),
            },
    {
        let k = key.to_string();
        match &mut self.unique_cache {
            Some(v) => take(v, &k),
            None => None,
        }
    }

    /// Sets `key` to `value` in the cache; the query is left as it is.
    pub(crate) fn priv_cache_insert(&mut self, key: String, value: String) -> (r: Option<String>)
        requires
            old(self).wf(),
            old(self).cache() is Some,
        ensures
            final(self).wf(),
            final(self).text() == old(self).text(),
            final(self).cache() == Some(old(self).cache()->Some_0.insert(key@, value@)),
            match r {
                Some(x) => old(self).cache()->Some_0.contains_key(key@)
                    && x@ == old(self).cache()->Some_0[key@],
                None => !old(self).cache()->Some_0.contains_key(key@),
            },
    {
        match &mut self.unique_cache {
            Some(v) => put(v, key, value),
            None => None,
        }
    }

    /// Rebuilds the query from the cache: one pair for each entry.
    pub(crate) fn priv_sync_query_unique_cache(&mut self)
        requires
            old(self).wf(),
            old(self).cache() is Some,
        ensures
            final(self).wf(),
            final(self).cache() == old(self).cache(),
            rebuilt_from(final(self).text(), old(self).text(), old(self).cache()->Some_0),
    {
        let ghost before = self.text();
        let all = match self.unique_cache.take() {
            Some(v) => v,
            None => Vec::new(),
        };
        url_clear_query(&mut self.parsed);
        let mut i: usize = 0;
        while i < all.len()
            invariant
                i <= all@.len(),
                url_text(self.parsed) == query_rebuilt(before, pairs_view(all@).take(i as int)),
            decreases all@.len() - i,
        {
            proof {
                let s = pairs_view(all@);
                assert(s.take(i + 1).drop_last() =~= s.take(i as int));
            }
            url_append_query_pair(&mut self.parsed, all[i].0.as_str(), all[i].1.as_str());
            i = i + 1;
        }
        proof {
            assert(pairs_view(all@).take(all@.len() as int) =~= pairs_view(all@));
        }
        self.unique_cache = Some(all);
    }
}

/// URLs compare like their serialization; the cache takes no part.
impl PartialEq for Url2 {
    fn eq(&self, other: &Url2) -> (r: bool) {
        url_eq(&self.parsed, &other.parsed)
    }
}

impl vstd::std_specs::cmp::PartialEqSpecImpl for Url2 {
    open spec fn obeys_eq_spec() -> bool {
        true
    }

    open spec fn eq_spec(&self, other: &Url2) -> bool {
        self.text() == other.text()
    }
}

impl Eq for Url2 {
}

/// A URL value equals a parsed URL of the same serialization.
impl PartialEq<url::Url> for Url2 {
    fn eq(&self, other: &url::Url) -> (r: bool) {
        url_eq(&self.parsed, other)
    }
}

impl vstd::std_specs::cmp::PartialEqSpecImpl<url::Url> for Url2 {
    open spec fn obeys_eq_spec() -> bool {
        true
    }

    open spec fn eq_spec(&self, other: &url::Url) -> bool {
        self.text() == url_text(*other)
    }
}

/// The placeholder `none:`, a starting point for building a query.
impl Default for Url2 {
    fn default() -> (r: Url2)
        ensures
            r.text() == placeholder_text(),
            r.cache() is None,
            r.wf(),
    {
        let placeholder = "none:";
        proof {
            reveal_strlit("none:");
            assert(placeholder@ =~= placeholder_text());
        }
        let r = url_parse(placeholder);
        Url2::priv_new(r.unwrap())
    }
}

impl From<url::Url> for Url2 {
    fn from(value: url::Url) -> (r: Url2)
        ensures
            r.text() == url_text(value),
            r.cache() is None,
            r.wf(),
    {
        Url2::priv_new(value)
    }
}

impl vstd::std_specs::convert::FromSpecImpl<url::Url> for Url2 {
    open spec fn obeys_from_spec() -> bool {
        false
    }

    closed spec fn from_spec(v: url::Url) -> Url2 {
        Url2 { parsed: v, unique_cache: None }
    }
}

impl vstd::std_specs::convert::FromSpecImpl<&url::Url> for Url2 {
    open spec fn obeys_from_spec() -> bool {
        false
    }

    closed spec fn from_spec(v: &url::Url) -> Url2 {
        Url2 { parsed: *v, unique_cache: None }
    }
}

impl From<&url::Url> for Url2 {
    fn from(value: &url::Url) -> (r: Url2)
        ensures
            r.text() == url_text(*value),
            r.cache() is None,
            r.wf(),
    {
        Url2::priv_new(value.clone())
    }
}

impl From<Url2> for url::Url {
    fn from(value: Url2) -> (r: url::Url)
        ensures
            url_text(r) == value.text(),
    {
        value.parsed
    }
}

impl vstd::std_specs::convert::FromSpecImpl<Url2> for url::Url {
    open spec fn obeys_from_spec() -> bool {
        true
    }

    closed spec fn from_spec(v: Url2) -> url::Url {
        v.parsed
    }
}

impl vstd::std_specs::convert::FromSpecImpl<Url2> for String {
    open spec fn obeys_from_spec() -> bool {
        false
    }

    closed spec fn from_spec(v: Url2) -> String {
        arbitrary()
    }
}

impl From<Url2> for String {
    fn from(value: Url2) -> (r: String)
        ensures
            r@ == value.text(),
    {
        value.into_string()
    }
}

} // verus!
