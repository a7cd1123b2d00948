//! The unique-key view of a URL's query: a map handle that writes itself
//! back into the query.
use vstd::prelude::*;
use crate::pairs::{lemma_listings_agree, lists, pairs_view};
use crate::url2::{query_rebuilt, rebuilt_from, Url2};

verus! {

/// Access to a URL's query as a map with unique keys, borrowed from the URL.
///
/// Each change made through the view rewrites the query from the map at
/// once, and [`Url2QueryUnique::close`] rewrites it once more, so the query
/// holds one pair for each entry of the map whichever way the view ends.
pub struct Url2QueryUnique<'lt> {
    pub url_ref: &'lt mut Url2,
}

impl<'lt> Url2QueryUnique<'lt> {
    /// The URL this view is over, as it stands now.
    pub open spec fn target(&self) -> Url2 {
        *self.url_ref
    }

    /// The map that the view shows.
    pub open spec fn map(&self) -> Map<Seq<char>, Seq<char>> {
        self.url_ref.cache()->Some_0
    }

    /// The URL's cache is built and holds each key once.
    pub open spec fn inv(&self) -> bool {
        self.url_ref.wf() && self.url_ref.cache() is Some
    }

    /// Sets `name` to `value` and hands the view back, for chaining. A
    /// later value for the same name wins.
    pub fn set_pair(self, name: &str, value: &str) -> (r: Self)
        requires
            old(self.url_ref).wf(),
            old(self.url_ref).cache() is Some,
        ensures
            r.inv(),
            r.map() == old(self.url_ref).cache()->Some_0.insert(name@, value@),
            rebuilt_from(r.target().text(), old(self.url_ref).text(), r.map()),
            *final(r.url_ref) == *final(self.url_ref),
    {
        self.url_ref.priv_cache_insert(name.to_string(), value.to_string());
        self.url_ref.priv_sync_query_unique_cache();
        self
    }

    /// Does the map hold `key`?
    pub fn contains_key(&self, key: &str) -> (r: bool)
        requires
            self.inv(),
        ensures
            r == self.map().contains_key(key@),
    {
        self.url_ref.priv_cache_get(key).is_some()
    }

    /// The value of `key`, where the map holds it.
    pub fn get(&self, key: &str) -> (r: Option<&str>)
        requires
            self.inv(),
        ensures
            match r {
                Some(x) => self.map().contains_key(key@) && x@ == self.map()[key@],
                None => !self.map().contains_key(key@),
            },
    {
        self.url_ref.priv_cache_get(key)
    }

    /// The entries of the map, each once, in no particular order.
    pub fn pairs(&self) -> (r: Vec<(String, String)>)
        requires
            self.inv(),
        ensures
            lists(pairs_view(r@), self.map()),
    {
        self.url_ref.priv_cache_pairs()
    }

    /// Sets `key` to `value`; the value it had before, if any, comes back.
    pub fn insert(&mut self, key: &str, value: &str) -> (r: Option<String>)
        requires
            old(self).inv(),
        ensures
            final(self).inv(),
            final(self).map() == old(self).map().insert(key@, value@),
            *final(final(self).url_ref) == *final(old(self).url_ref),
            rebuilt_from(final(self).target().text(), old(self).target().text(), final(self).map()),
            match r {
                Some(x) => old(self).map().contains_key(key@) && x@ == old(self).map()[key@],
                None => !old(self).map().contains_key(key@),
            },
    {
        let r = self.url_ref.priv_cache_insert(key.to_string(), value.to_string());
        self.url_ref.priv_sync_query_unique_cache();
        r
    }

    /// Takes `key` out of the map; its value comes back, if it had one.
    pub fn remove(&mut self, key: &str) -> (r: Option<String>)
        requires
            old(self).inv(),
        ensures
            final(self).inv(),
            final(self).map() == old(self).map().remove(key@),
            *final(final(self).url_ref) == *final(old(self).url_ref),
            rebuilt_from(final(self).target().text(), old(self).target().text(), final(self).map()),
            match r {
                Some(x) => old(self).map().contains_key(key@) && x@ == old(self).map()[key@],
                None => !old(self).map().contains_key(key@),
            },
    {
        let r = self.url_ref.priv_cache_remove(key);
        self.url_ref.priv_sync_query_unique_cache();
        r
    }

    /// Ends the view: the query is rebuilt from the map, one pair for each
    /// entry, and the map is kept for later reads.
    pub fn close(self)
        requires
            old(self.url_ref).wf(),
            old(self.url_ref).cache() is Some,
        ensures
            final(self.url_ref).wf(),
            final(self.url_ref).cache() == old(self.url_ref).cache(),
            rebuilt_from(
                final(self.url_ref).text(),
                old(self.url_ref).text(),
                old(self.url_ref).cache()->Some_0,
            ),
    {
        self.url_ref.priv_sync_query_unique_cache();
    }
}

impl Url2 {
    /// Opens the unique-key view of the query, building the map from the
    /// query first if it has not been built yet.
    pub fn query_unique(&mut self) -> (r: Url2QueryUnique<'_>)
        requires
            old(self).wf(),
        ensures
            r.inv(),
            r.map() == old(self).unique_map(),
            r.target().text() == old(self).text(),
            *final(self) == *final(r.url_ref),
    {
        self.priv_ensure_query_unique_cache();
        Url2QueryUnique { url_ref: self }
    }
}

/// A view that is opened, only read, and closed changes no key and no value
/// of the unique map. The query it writes holds exactly one pair for each
/// entry, and any two such writes hold the same pairs, at most in another
/// order.
///
/// `before` is the URL when the view is opened ([`Url2::query_unique`]),
/// `opened` what the view holds, and `after` the URL once
/// [`Url2QueryUnique::close`] has run; reads leave the view as it is.
pub proof fn lemma_read_only_view(before: Url2, opened: Url2, after: Url2)
    requires
        before.wf(),
        opened.wf(),
        opened.cache() == Some(before.unique_map()),
        opened.text() == before.text(),
        after.wf(),
        after.cache() == opened.cache(),
        rebuilt_from(after.text(), opened.text(), opened.cache()->Some_0),
    ensures
        after.unique_map() == before.unique_map(),
        exists|e: Seq<(Seq<char>, Seq<char>)>|
            lists(e, before.unique_map()) && after.text() == query_rebuilt(before.text(), e),
        forall|e1: Seq<(Seq<char>, Seq<char>)>, e2: Seq<(Seq<char>, Seq<char>)>|
            lists(e1, before.unique_map()) && lists(e2, before.unique_map()) ==> e1.len() == e2.len()
                && forall|p: (Seq<char>, Seq<char>)| e1.contains(p) <==> e2.contains(p),
{
    assert forall|e1: Seq<(Seq<char>, Seq<char>)>, e2: Seq<(Seq<char>, Seq<char>)>|
        lists(e1, before.unique_map()) && lists(e2, before.unique_map()) implies e1.len() == e2.len()
            && forall|p: (Seq<char>, Seq<char>)| e1.contains(p) <==> e2.contains(p) by {
        lemma_listings_agree(e1, e2, before.unique_map());
    }
}

} // verus!
