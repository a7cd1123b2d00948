//! A list of key/value pairs read as a map: later pairs override earlier
//! ones. Kept with unique keys, it is the cache behind the unique-key view
//! of a query.
use vstd::prelude::*;

verus! {

/// The pairs of a list, as sequences of characters.
pub open spec fn pairs_view(v: Seq<(String, String)>) -> Seq<(Seq<char>, Seq<char>)> {
    v.map_values(|p: (String, String)| (p.0@, p.1@))
}

/// The map that a list of pairs stands for: where a key occurs more than
/// once, its last occurrence wins.
pub open spec fn last_wins(s: Seq<(Seq<char>, Seq<char>)>) -> Map<Seq<char>, Seq<char>>
    decreases s.len(),
{
    if s.len() == 0 {
        Map::empty()
    } else {
        last_wins(s.drop_last()).insert(s.last().0, s.last().1)
    }
}

/// No key occurs twice.
pub open spec fn keys_unique(s: Seq<(Seq<char>, Seq<char>)>) -> bool {
    forall|i: int, j: int| 0 <= i < j < s.len() ==> s[i].0 != s[j].0
}

/// `s` lists the entries of `m`, each exactly once, in some order.
pub open spec fn lists(s: Seq<(Seq<char>, Seq<char>)>, m: Map<Seq<char>, Seq<char>>) -> bool {
    keys_unique(s) && last_wins(s) == m
}

/// In a list with unique keys, a key is in the map exactly when some pair
/// holds it, and its value is that pair's.
pub proof fn lemma_unique_lookup(s: Seq<(Seq<char>, Seq<char>)>)
    requires
        keys_unique(s),
    ensures
        forall|i: int| 0 <= i < s.len() ==> #[trigger] last_wins(s).contains_key(s[i].0)
            && last_wins(s)[s[i].0] == s[i].1,
        forall|k: Seq<char>| #[trigger] last_wins(s).contains_key(k) ==> exists|i: int|
            0 <= i < s.len() && s[i].0 == k,
    decreases s.len(),
{
    if s.len() > 0 {
        let t = s.drop_last();
        assert(keys_unique(t));
        lemma_unique_lookup(t);
        assert forall|k: Seq<char>| #[trigger] last_wins(s).contains_key(k) implies exists|i: int|
            0 <= i < s.len() && s[i].0 == k by {
            if k != s.last().0 {
                assert(last_wins(t).contains_key(k));
                let i = choose|i: int| 0 <= i < t.len() && t[i].0 == k;
                assert(s[i] == t[i]);
            } else {
                assert(s[s.len() - 1].0 == k);
            }
        }
        assert forall|i: int| 0 <= i < s.len() implies #[trigger] last_wins(s).contains_key(s[i].0)
            && last_wins(s)[s[i].0] == s[i].1 by {
            if i < s.len() - 1 {
                assert(s[i] == t[i]);
                assert(s[i].0 != s[s.len() - 1].0);
                assert(last_wins(t).contains_key(t[i].0));
            }
        }
    }
}

/// Last occurrence wins: where no later pair has the key of pair `i`, the
/// map gives that key the value of pair `i`, whatever came before it.
pub proof fn lemma_last_occurrence_wins(s: Seq<(Seq<char>, Seq<char>)>, i: int)
    requires
        0 <= i < s.len(),
        forall|j: int| i < j < s.len() ==> s[j].0 != s[i].0,
    ensures
        last_wins(s).contains_key(s[i].0),
        last_wins(s)[s[i].0] == s[i].1,
    decreases s.len(),
{
    if i < s.len() - 1 {
        let t = s.drop_last();
        assert(t[i] == s[i]);
        assert forall|j: int| i < j < t.len() implies t[j].0 != t[i].0 by {
            assert(t[j] == s[j]);
        }
        lemma_last_occurrence_wins(t, i);
    }
}

/// A list with unique keys has as many pairs as its map has keys.
pub proof fn lemma_unique_len(s: Seq<(Seq<char>, Seq<char>)>)
    requires
        keys_unique(s),
    ensures
        last_wins(s).dom().finite(),
        last_wins(s).dom().len() == s.len(),
    decreases s.len(),
{
    if s.len() > 0 {
        let t = s.drop_last();
        assert(keys_unique(t));
        lemma_unique_len(t);
        lemma_unique_lookup(t);
        if last_wins(t).contains_key(s.last().0) {
            let i = choose|i: int| 0 <= i < t.len() && t[i].0 == s.last().0;
            assert(s[i] == t[i]);
        }
        assert(last_wins(s).dom() =~= last_wins(t).dom().insert(s.last().0));
    }
}

/// Two lists of the entries of one map, each entry once, hold the same
/// pairs: they differ at most in order.
pub proof fn lemma_listings_agree(
    e1: Seq<(Seq<char>, Seq<char>)>,
    e2: Seq<(Seq<char>, Seq<char>)>,
    m: Map<Seq<char>, Seq<char>>,
)
    requires
        lists(e1, m),
        lists(e2, m),
    ensures
        e1.len() == e2.len(),
        forall|p: (Seq<char>, Seq<char>)| e1.contains(p) <==> e2.contains(p),
{
    lemma_unique_len(e1);
    lemma_unique_len(e2);
    lemma_unique_lookup(e1);
    lemma_unique_lookup(e2);
    assert forall|p: (Seq<char>, Seq<char>)| e1.contains(p) implies e2.contains(p) by {
        let i = choose|i: int| 0 <= i < e1.len() && e1[i] == p;
        assert(m.contains_key(e1[i].0));
        let j = choose|j: int| 0 <= j < e2.len() && e2[j].0 == p.0;
        assert(m.contains_key(e2[j].0));
        assert(e2[j] == p);
    }
    assert forall|p: (Seq<char>, Seq<char>)| e2.contains(p) implies e1.contains(p) by {
        let i = choose|i: int| 0 <= i < e2.len() && e2[i] == p;
        assert(m.contains_key(e2[i].0));
        let j = choose|j: int| 0 <= j < e1.len() && e1[j].0 == p.0;
        assert(m.contains_key(e1[j].0));
        assert(e1[j] == p);
    }
}

/// A list with unique keys is determined, as a map, by its pairs.
pub proof fn lemma_unique_map(s: Seq<(Seq<char>, Seq<char>)>, m: Map<Seq<char>, Seq<char>>)
    requires
        keys_unique(s),
        forall|i: int| 0 <= i < s.len() ==> #[trigger] m.contains_key(s[i].0) && m[s[i].0] == s[i].1,
        forall|k: Seq<char>| #[trigger] m.contains_key(k) ==> exists|i: int| 0 <= i < s.len() && s[i].0 == k,
    ensures
        last_wins(s) == m,
{
    lemma_unique_lookup(s);
    assert forall|k: Seq<char>| #[trigger] last_wins(s).contains_key(k) <==> m.contains_key(k) by {
        if m.contains_key(k) {
            let i = choose|i: int| 0 <= i < s.len() && s[i].0 == k;
            assert(last_wins(s).contains_key(s[i].0));
        }
        if last_wins(s).contains_key(k) {
            let i = choose|i: int| 0 <= i < s.len() && s[i].0 == k;
            assert(m.contains_key(s[i].0));
        }
    }
    assert forall|k: Seq<char>| #[trigger] last_wins(s).contains_key(k) implies last_wins(s)[k] == m[k] by {
        let i = choose|i: int| 0 <= i < s.len() && s[i].0 == k;
        assert(m.contains_key(s[i].0));
    }
    assert(last_wins(s) =~= m);
}

/// The position of the pair with key `key`, if any.
pub fn find_key(v: &Vec<(String, String)>, key: &String) -> (r: Option<usize>)
    ensures
        match r {
            Some(i) => i < v@.len() && v@[i as int].0@ == key@,
            None => forall|i: int| 0 <= i < v@.len() ==> v@[i].0@ != key@,
        },
{
    let mut i: usize = 0;
    while i < v.len()
        invariant
            i <= v@.len(),
            forall|j: int| 0 <= j < i ==> v@[j].0@ != key@,
        decreases v@.len() - i,
    {
        if v[i].0 == *key {
            return Some(i);
        }
        i = i + 1;
    }
    None
}

/// Sets `key` to `value`: the pair of that key is overwritten in place where
/// there is one, else the pair is added at the end. The value it replaces,
/// if any, comes back.
pub fn put(v: &mut Vec<(String, String)>, key: String, value: String) -> (r: Option<String>)
    requires
        keys_unique(pairs_view(old(v)@)),
    ensures
        keys_unique(pairs_view(final(v)@)),
        last_wins(pairs_view(final(v)@)) == last_wins(pairs_view(old(v)@)).insert(key@, value@),
        match r {
            Some(x) => last_wins(pairs_view(old(v)@)).contains_key(key@)
                && x@ == last_wins(pairs_view(old(v)@))[key@],
            None => !last_wins(pairs_view(old(v)@)).contains_key(key@),
        },
{
    let ghost s = pairs_view(v@);
    let ghost k = key@;
    let ghost x = value@;
    proof {
        lemma_unique_lookup(s);
    }
    match find_key(v, &key) {
        Some(i) => {
            assert(s[i as int].0 == k);
            assert(s[i as int].1 == v@[i as int].1@);
            assert(last_wins(s).contains_key(s[i as int].0));
            let prev = v[i].1.clone();
            v.set(i, (key, value));
            let ghost t = pairs_view(v@);
            assert(t =~= s.update(i as int, (k, x)));
            assert(keys_unique(t)) by {
                assert forall|a: int, b: int| 0 <= a < b < t.len() implies t[a].0 != t[b].0 by {
                    assert(t[a].0 == s[a].0 && t[b].0 == s[b].0);
                }
            }
            proof {
                let m = last_wins(s).insert(k, x);
                assert forall|a: int| 0 <= a < t.len() implies #[trigger] m.contains_key(t[a].0)
                    && m[t[a].0] == t[a].1 by {
                    if a != i {
                        assert(t[a] == s[a]);
                        assert(last_wins(s).contains_key(s[a].0));
                    }
                }
                assert forall|kk: Seq<char>| #[trigger] m.contains_key(kk) implies exists|a: int|
                    0 <= a < t.len() && t[a].0 == kk by {
                    if kk != k {
                        let a = choose|a: int| 0 <= a < s.len() && s[a].0 == kk;
                        assert(t[a].0 == kk);
                    } else {
                        assert(t[i as int].0 == kk);
                    }
                }
                lemma_unique_map(t, m);
            }
            Some(prev)
        },
        None => {
            proof {
                if last_wins(s).contains_key(k) {
                    let a = choose|a: int| 0 <= a < s.len() && s[a].0 == k;
                    assert(v@[a].0@ != key@);
                }
            }
            v.push((key, value));
            let ghost t = pairs_view(v@);
            assert(t =~= s.push((k, x)));
            assert(t.drop_last() =~= s);
            assert(keys_unique(t)) by {
                assert forall|a: int, b: int| 0 <= a < b < t.len() implies t[a].0 != t[b].0 by {
                    if b < s.len() {
                        assert(t[a] == s[a] && t[b] == s[b]);
                    } else {
                        assert(t[a] == s[a]);
                    }
                }
            }
            None
        },
    }
}

/// Takes out the pair of `key`, if there is one, and hands back its value.
pub fn take(v: &mut Vec<(String, String)>, key: &String) -> (r: Option<String>)
    requires
        keys_unique(pairs_view(old(v)@)),
    ensures
        keys_unique(pairs_view(final(v)@)),
        last_wins(pairs_view(final(v)@)) == last_wins(pairs_view(old(v)@)).remove(key@),
        match r {
            Some(x) => last_wins(pairs_view(old(v)@)).contains_key(key@)
                && x@ == last_wins(pairs_view(old(v)@))[key@],
            None => !last_wins(pairs_view(old(v)@)).contains_key(key@),
        },
{
    let ghost s = pairs_view(v@);
    let ghost k = key@;
    proof {
        lemma_unique_lookup(s);
    }
    match find_key(v, key) {
        Some(i) => {
            assert(s[i as int].0 == k);
            let (_, x) = v.remove(i);
            let ghost t = pairs_view(v@);
            assert(t =~= s.remove(i as int));
            assert(keys_unique(t)) by {
                assert forall|a: int, b: int| 0 <= a < b < t.len() implies t[a].0 != t[b].0 by {
                    if a < i {
                        if b < i {
                            assert(t[a] == s[a] && t[b] == s[b]);
                        } else {
                            assert(t[a] == s[a] && t[b] == s[b + 1]);
                        }
                    } else {
                        assert(t[a] == s[a + 1] && t[b] == s[b + 1]);
                    }
                }
            }
            proof {
                let m = last_wins(s).remove(k);
                assert forall|a: int| 0 <= a < t.len() implies #[trigger] m.contains_key(t[a].0)
                    && m[t[a].0] == t[a].1 by {
                    if a < i {
                        assert(t[a] == s[a]);
                        assert(last_wins(s).contains_key(s[a].0));
                    } else {
                        assert(t[a] == s[a + 1]);
                        assert(last_wins(s).contains_key(s[a + 1].0));
                    }
                }
                assert forall|kk: Seq<char>| #[trigger] m.contains_key(kk) implies exists|a: int|
                    0 <= a < t.len() && t[a].0 == kk by {
                    let a = choose|a: int| 0 <= a < s.len() && s[a].0 == kk;
                    if a < i {
                        assert(t[a] == s[a]);
                    } else {
                        assert(t[a - 1] == s[a]);
                    }
                }
                lemma_unique_map(t, m);
                assert(last_wins(s).contains_key(s[i as int].0));
            }
            Some(x)
        },
        None => {
            proof {
                assert forall|a: int| 0 <= a < s.len() implies s[a].0 != k by {}
                if last_wins(s).contains_key(k) {
                    let a = choose|a: int| 0 <= a < s.len() && s[a].0 == k;
                }
                assert(last_wins(s).remove(k) =~= last_wins(s));
            }
            None
        },
    }
}

/// The map of `src` with unique keys: for a key that occurs more than once,
/// the value of its last occurrence.
pub fn collect_last_wins(src: &Vec<(String, String)>) -> (r: Vec<(String, String)>)
    ensures
        keys_unique(pairs_view(r@)),
        last_wins(pairs_view(r@)) == last_wins(pairs_view(src@)),
{
    let mut r: Vec<(String, String)> = Vec::new();
    let mut i: usize = 0;
    while i < src.len()
        invariant
            i <= src@.len(),
            keys_unique(pairs_view(r@)),
            last_wins(pairs_view(r@)) == last_wins(pairs_view(src@).take(i as int)),
        decreases src@.len() - i,
    {
        let key = src[i].0.clone();
        let value = src[i].1.clone();
        let _ = put(&mut r, key, value);
        proof {
            let s = pairs_view(src@);
            assert(s.take(i + 1).drop_last() =~= s.take(i as int));
        }
        i = i + 1;
    }
    assert(pairs_view(src@).take(src@.len() as int) =~= pairs_view(src@));
    r
}

/// The value of `key`, if it has a pair.
pub fn lookup<'a>(v: &'a Vec<(String, String)>, key: &String) -> (r: Option<&'a String>)
    requires
        keys_unique(pairs_view(v@)),
    ensures
        match r {
            Some(x) => last_wins(pairs_view(v@)).contains_key(key@)
                && x@ == last_wins(pairs_view(v@))[key@],
            None => !last_wins(pairs_view(v@)).contains_key(key@),
        },
{
    proof {
        lemma_unique_lookup(pairs_view(v@));
    }
    match find_key(v, key) {
        Some(i) => {
            assert(pairs_view(v@)[i as int].0 == key@);
            assert(pairs_view(v@)[i as int].1 == v@[i as int].1@);
            assert(last_wins(pairs_view(v@)).contains_key(pairs_view(v@)[i as int].0));
            Some(&v[i].1)
        },
        None => {
            proof {
                let s = pairs_view(v@);
                if last_wins(s).contains_key(key@) {
                    let a = choose|a: int| 0 <= a < s.len() && s[a].0 == key@;
                    assert(v@[a].0@ != key@);
                }
            }
            None
        },
    }
}

} // verus!
