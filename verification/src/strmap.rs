//! A map from texts to values that keeps its keys in `String` order, as a
//! `BTreeMap<String, V>` does.
use crate::text::{compare_str, lemma_lex_order_antisym, lemma_lex_order_trans, lex_order};
use vstd::prelude::*;

verus! {

/// Whether some pair has the key.
pub open spec fn has_key<V>(s: Seq<(Seq<char>, V)>, k: Seq<char>) -> bool {
    exists|i: int| 0 <= i < s.len() && #[trigger] s[i].0 == k
}

/// Whether the keys of pairs are in strictly increasing `String` order.
pub open spec fn keys_sorted<V>(s: Seq<(Seq<char>, V)>) -> bool {
    forall|i: int, j: int|
        0 <= i < j < s.len() ==> lex_order(#[trigger] s[i].0, #[trigger] s[j].0) < 0
}

/// Whether no two pairs share a key.
pub open spec fn keys_distinct<V>(s: Seq<(Seq<char>, V)>) -> bool {
    forall|i: int, j: int| 0 <= i < s.len() && 0 <= j < s.len() && i != j ==> #[trigger] s[i].0
        != #[trigger] s[j].0
}

/// The map that a list of pairs stands for (a later pair wins).
pub open spec fn map_of<V>(s: Seq<(Seq<char>, V)>) -> Map<Seq<char>, V>
    decreases s.len(),
{
    if s.len() == 0 {
        Map::empty()
    } else {
        map_of(s.drop_last()).insert(s.last().0, s.last().1)
    }
}

/// Whether a list of texts is in strictly increasing `String` order.
pub open spec fn texts_sorted(s: Seq<Seq<char>>) -> bool {
    forall|i: int, j: int| 0 <= i < j < s.len() ==> lex_order(#[trigger] s[i], #[trigger] s[j]) < 0
}

proof fn lemma_sorted_distinct<V>(s: Seq<(Seq<char>, V)>)
    requires
        keys_sorted(s),
    ensures
        keys_distinct(s),
{
    assert forall|i: int, j: int| 0 <= i < s.len() && 0 <= j < s.len() && i != j implies #[trigger] s[i].0
        != #[trigger] s[j].0 by {
        if i < j {
            assert(lex_order(s[i].0, s[j].0) < 0);
        } else {
            assert(lex_order(s[j].0, s[i].0) < 0);
        }
        lemma_lex_order_antisym(s[i].0, s[j].0);
    }
}

proof fn lemma_map_of<V>(s: Seq<(Seq<char>, V)>)
    requires
        keys_distinct(s),
    ensures
        forall|k: Seq<char>|
            #![trigger map_of(s).dom().contains(k)]
            #![trigger has_key(s, k)]
            map_of(s).dom().contains(k) <==> has_key(s, k),
        forall|i: int| 0 <= i < s.len() ==> map_of(s)[#[trigger] s[i].0] == s[i].1,
    decreases s.len(),
{
    if s.len() > 0 {
        let p = s.drop_last();
        assert forall|i: int, j: int| 0 <= i < p.len() && 0 <= j < p.len() && i != j implies #[trigger] p[i].0
            != #[trigger] p[j].0 by {
            assert(s[i].0 != s[j].0);
        }
        lemma_map_of(p);
        assert forall|k: Seq<char>| map_of(s).dom().contains(k) <==> has_key(s, k) by {
            if has_key(s, k) {
                let i = choose|i: int| 0 <= i < s.len() && #[trigger] s[i].0 == k;
                if i < s.len() - 1 {
                    assert(p[i].0 == k);
                }
            }
            if has_key(p, k) {
                let i = choose|i: int| 0 <= i < p.len() && #[trigger] p[i].0 == k;
                assert(s[i].0 == k);
            }
        }
        assert forall|i: int| 0 <= i < s.len() implies map_of(s)[#[trigger] s[i].0] == s[i].1 by {
            if i < s.len() - 1 {
                assert(s[i].0 != s[s.len() - 1].0);
                assert(p[i] == s[i]);
            }
        }
    }
}

/// A list with distinct keys stands for a map when both hold the same keys
/// and agree on each pair.
proof fn lemma_map_eq<V>(s: Seq<(Seq<char>, V)>, m: Map<Seq<char>, V>)
    requires
        keys_distinct(s),
        forall|k: Seq<char>|
            #![trigger m.dom().contains(k)]
            #![trigger has_key(s, k)]
            m.dom().contains(k) <==> has_key(s, k),
        forall|i: int| 0 <= i < s.len() ==> m[#[trigger] s[i].0] == s[i].1,
    ensures
        map_of(s) == m,
{
    lemma_map_of(s);
    assert forall|k: Seq<char>| #[trigger] map_of(s).dom().contains(k) implies map_of(s)[k] == m[k] by {
        assert(has_key(s, k));
        let i = choose|i: int| 0 <= i < s.len() && #[trigger] s[i].0 == k;
        assert(map_of(s)[s[i].0] == s[i].1);
        assert(m[s[i].0] == s[i].1);
    }
    assert forall|k: Seq<char>| #[trigger] m.dom().contains(k) implies map_of(s).dom().contains(k) by {
        assert(has_key(s, k));
    }
    assert(map_of(s) =~= m);
}

proof fn lemma_update_map<V>(s: Seq<(Seq<char>, V)>, i: int, k: Seq<char>, v: V)
    requires
        keys_sorted(s),
        0 <= i < s.len(),
        s[i].0 == k,
    ensures
        keys_sorted(s.update(i, (k, v))),
        map_of(s.update(i, (k, v))) == map_of(s).insert(k, v),
{
    let t = s.update(i, (k, v));
    assert forall|a: int, b: int| 0 <= a < b < t.len() implies lex_order(
        #[trigger] t[a].0,
        #[trigger] t[b].0,
    ) < 0 by {
        assert(t[a].0 == s[a].0 && t[b].0 == s[b].0);
        assert(lex_order(s[a].0, s[b].0) < 0);
    }
    lemma_sorted_distinct(s);
    lemma_sorted_distinct(t);
    lemma_map_of(s);
    let m = map_of(s).insert(k, v);
    assert forall|x: Seq<char>| m.dom().contains(x) <==> has_key(t, x) by {
        if has_key(s, x) {
            let j = choose|j: int| 0 <= j < s.len() && #[trigger] s[j].0 == x;
            assert(t[j].0 == x);
        }
        if has_key(t, x) {
            let j = choose|j: int| 0 <= j < t.len() && #[trigger] t[j].0 == x;
            assert(s[j].0 == x);
        }
        if x == k {
            assert(t[i].0 == x);
        }
    }
    assert forall|j: int| 0 <= j < t.len() implies m[#[trigger] t[j].0] == t[j].1 by {
        if j != i {
            assert(s[j].0 != s[i].0);
            assert(t[j] == s[j]);
        }
    }
    lemma_map_eq(t, m);
}

proof fn lemma_insert_map<V>(s: Seq<(Seq<char>, V)>, i: int, k: Seq<char>, v: V)
    requires
        keys_sorted(s),
        0 <= i <= s.len(),
        forall|j: int| 0 <= j < i ==> lex_order(#[trigger] s[j].0, k) < 0,
        i < s.len() ==> lex_order(s[i].0, k) > 0,
    ensures
        keys_sorted(s.insert(i, (k, v))),
        map_of(s.insert(i, (k, v))) == map_of(s).insert(k, v),
{
    let t = s.insert(i, (k, v));
    assert forall|a: int, b: int| 0 <= a < b < t.len() implies lex_order(
        #[trigger] t[a].0,
        #[trigger] t[b].0,
    ) < 0 by {
        if a < i && b < i {
            assert(t[a] == s[a] && t[b] == s[b]);
            assert(lex_order(s[a].0, s[b].0) < 0);
        } else if a < i && b == i {
            assert(t[a] == s[a]);
        } else if a < i && b > i {
            assert(t[a] == s[a]);
            assert(t[b] == s[b - 1]);
            assert(lex_order(s[a].0, s[b - 1].0) < 0);
        } else if a == i {
            assert(t[b] == s[b - 1]);
            lemma_lex_order_antisym(k, s[i].0);
            if b - 1 > i {
                assert(lex_order(s[i].0, s[b - 1].0) < 0);
                lemma_lex_order_trans(k, s[i].0, s[b - 1].0);
            }
        } else {
            assert(t[a] == s[a - 1]);
            assert(t[b] == s[b - 1]);
            assert(lex_order(s[a - 1].0, s[b - 1].0) < 0);
        }
    }
    lemma_sorted_distinct(s);
    lemma_sorted_distinct(t);
    lemma_map_of(s);
    let m = map_of(s).insert(k, v);
    assert forall|x: Seq<char>| m.dom().contains(x) <==> has_key(t, x) by {
        if has_key(s, x) {
            let j = choose|j: int| 0 <= j < s.len() && #[trigger] s[j].0 == x;
            if j < i {
                assert(t[j].0 == x);
            } else {
                assert(t[j + 1].0 == x);
            }
        }
        if has_key(t, x) {
            let j = choose|j: int| 0 <= j < t.len() && #[trigger] t[j].0 == x;
            if j < i {
                assert(s[j].0 == x);
            } else if j > i {
                assert(s[j - 1].0 == x);
            }
        }
        if x == k {
            assert(t[i].0 == x);
        }
    }
    assert forall|j: int| 0 <= j < t.len() implies m[#[trigger] t[j].0] == t[j].1 by {
        if j < i {
            assert(t[j] == s[j]);
            lemma_lex_order_antisym(s[j].0, k);
        } else if j > i {
            assert(t[j] == s[j - 1]);
            lemma_lex_order_antisym(s[j - 1].0, k);
            lemma_lex_order_antisym(k, s[i].0);
            if j - 1 > i {
                assert(lex_order(s[i].0, s[j - 1].0) < 0);
                lemma_lex_order_trans(k, s[i].0, s[j - 1].0);
            }
        }
    }
    lemma_map_eq(t, m);
}

proof fn lemma_remove_map<V>(s: Seq<(Seq<char>, V)>, i: int)
    requires
        keys_sorted(s),
        0 <= i < s.len(),
    ensures
        keys_sorted(s.remove(i)),
        map_of(s.remove(i)) == map_of(s).remove(s[i].0),
{
    let t = s.remove(i);
    assert forall|a: int, b: int| 0 <= a < b < t.len() implies lex_order(
        #[trigger] t[a].0,
        #[trigger] t[b].0,
    ) < 0 by {
        if b < i {
            assert(t[a] == s[a] && t[b] == s[b]);
            assert(lex_order(s[a].0, s[b].0) < 0);
        } else if a < i {
            assert(t[a] == s[a] && t[b] == s[b + 1]);
            assert(lex_order(s[a].0, s[b + 1].0) < 0);
        } else {
            assert(t[a] == s[a + 1] && t[b] == s[b + 1]);
            assert(lex_order(s[a + 1].0, s[b + 1].0) < 0);
        }
    }
    lemma_sorted_distinct(s);
    lemma_sorted_distinct(t);
    lemma_map_of(s);
    let k = s[i].0;
    let m = map_of(s).remove(k);
    assert forall|x: Seq<char>| m.dom().contains(x) <==> has_key(t, x) by {
        if has_key(s, x) && x != k {
            let j = choose|j: int| 0 <= j < s.len() && #[trigger] s[j].0 == x;
            if j < i {
                assert(t[j].0 == x);
            } else {
                assert(t[j - 1].0 == x);
            }
        }
        if has_key(t, x) {
            let j = choose|j: int| 0 <= j < t.len() && #[trigger] t[j].0 == x;
            if j < i {
                assert(s[j].0 == x);
                assert(s[j].0 != s[i].0);
            } else {
                assert(s[j + 1].0 == x);
                assert(s[j + 1].0 != s[i].0);
            }
        }
    }
    assert forall|j: int| 0 <= j < t.len() implies m[#[trigger] t[j].0] == t[j].1 by {
        if j < i {
            assert(t[j] == s[j]);
            assert(s[j].0 != s[i].0);
        } else {
            assert(t[j] == s[j + 1]);
            assert(s[j + 1].0 != s[i].0);
        }
    }
    lemma_map_eq(t, m);
}

/// Texts of strings.
pub open spec fn texts_view(v: Seq<String>) -> Seq<Seq<char>> {
    Seq::new(v.len(), |i: int| v[i]@)
}

/// Whether a text is among strings.
pub fn listed_text(ids: &[String], v: &str) -> (res: bool)
    ensures
        res == texts_view(ids@).contains(v@),
{
    let mut i: usize = 0;
    while i < ids.len()
        invariant
            i <= ids.len(),
            forall|j: int| 0 <= j < i ==> ids@[j]@ != v@,
        decreases ids.len() - i,
    {
        if crate::text::str_eq(ids[i].as_str(), v) {
            assert(texts_view(ids@)[i as int] == v@);
            return true;
        }
        i = i + 1;
    }
    proof {
        if texts_view(ids@).contains(v@) {
            let j = choose|j: int| 0 <= j < ids@.len() && texts_view(ids@)[j] == v@;
            assert(ids@[j]@ == v@);
        }
    }
    false
}

/// A map from texts to values whose keys stay in `String` order.
#[derive(Debug)]
pub struct StrMap<V> {
    entries: Vec<(String, V)>,
}

impl<V> StrMap<V> {
    spec fn pairs(self) -> Seq<(Seq<char>, V)> {
        Seq::new(self.entries@.len(), |i: int| (self.entries@[i].0@, self.entries@[i].1))
    }

    #[verifier::type_invariant]
    spec fn sorted(self) -> bool {
        keys_sorted(self.pairs())
    }

    /// The keys in `String` order.
    pub closed spec fn key_seq(self) -> Seq<Seq<char>> {
        Seq::new(self.entries@.len(), |i: int| self.entries@[i].0@)
    }
}

impl<V> View for StrMap<V> {
    type V = Map<Seq<char>, V>;

    closed spec fn view(&self) -> Map<Seq<char>, V> {
        map_of(self.pairs())
    }
}

impl<V> StrMap<V> {
    /// An empty map.
    pub fn new() -> (res: Self)
        ensures
            res@ == Map::<Seq<char>, V>::empty(),
            res.key_seq().len() == 0,
    {
        let res = StrMap { entries: Vec::new() };
        assert(res.pairs().len() == 0);
        res
    }

    /// The number of entries.
    pub fn len(&self) -> (res: usize)
        ensures
            res == self.key_seq().len(),
            res == self@.dom().len(),
    {
        proof {
            use_type_invariant(self);
            self.lemma_keys();
        }
        self.entries.len()
    }

    /// Whether the map is empty.
    pub fn is_empty(&self) -> (res: bool)
        ensures
            res <==> self@ == Map::<Seq<char>, V>::empty(),
            res <==> self.key_seq().len() == 0,
    {
        proof {
            use_type_invariant(self);
            self.lemma_keys();
            if self.entries@.len() > 0 {
                assert(self.key_seq().contains(self.key_seq()[0]));
                assert(self@.dom().contains(self.key_seq()[0]));
            } else {
                assert(self@ =~= Map::<Seq<char>, V>::empty());
            }
        }
        self.entries.len() == 0
    }

    /// What the keys say of the map: each is in it, they are sorted, and
    /// they are all of its keys.
    proof fn lemma_keys(&self)
        requires
            keys_sorted(self.pairs()),
        ensures
            texts_sorted(self.key_seq()),
            forall|k: Seq<char>| self@.dom().contains(k) <==> self.key_seq().contains(k),
            forall|i: int| 0 <= i < self.key_seq().len() ==> self@[#[trigger] self.key_seq()[i]]
                == self.pairs()[i].1,
            self@.dom().finite(),
            self@.dom().len() == self.key_seq().len(),
    {
        let s = self.pairs();
        lemma_sorted_distinct(s);
        lemma_map_of(s);
        let ks = self.key_seq();
        assert forall|k: Seq<char>| self@.dom().contains(k) <==> ks.contains(k) by {
            if has_key(s, k) {
                let i = choose|i: int| 0 <= i < s.len() && #[trigger] s[i].0 == k;
                assert(ks[i] == k);
            }
            if ks.contains(k) {
                let i = choose|i: int| 0 <= i < ks.len() && ks[i] == k;
                assert(s[i].0 == k);
            }
        }
        assert forall|i: int, j: int| 0 <= i < j < ks.len() implies lex_order(
            #[trigger] ks[i],
            #[trigger] ks[j],
        ) < 0 by {
            assert(s[i].0 == ks[i] && s[j].0 == ks[j]);
        }
        assert(ks.no_duplicates()) by {
            assert forall|i: int, j: int| 0 <= i < ks.len() && 0 <= j < ks.len() && i != j implies ks[i]
                != ks[j] by {
                assert(s[i].0 == ks[i] && s[j].0 == ks[j]);
            }
        }
        assert forall|i: int| 0 <= i < ks.len() implies self@[#[trigger] ks[i]] == s[i].1 by {
            assert(ks[i] == s[i].0);
        }
        assert(self@.dom() =~= ks.to_set());
        ks.unique_seq_to_set();
    }

    /// The keys in `String` order.
    pub fn keys(&self) -> (res: Vec<String>)
        ensures
            res@.len() == self.key_seq().len(),
            forall|i: int| 0 <= i < res@.len() ==> #[trigger] res@[i]@ == self.key_seq()[i],
            texts_sorted(self.key_seq()),
            forall|k: Seq<char>| self@.dom().contains(k) <==> self.key_seq().contains(k),
    {
        proof {
            use_type_invariant(self);
            self.lemma_keys();
        }
        let mut out: Vec<String> = Vec::new();
        let mut i: usize = 0;
        while i < self.entries.len()
            invariant
                i <= self.entries.len(),
                out@.len() == i,
                forall|j: int| 0 <= j < i ==> #[trigger] out@[j]@ == self.key_seq()[j],
            decreases self.entries.len() - i,
        {
            out.push(self.entries[i].0.clone());
            i = i + 1;
        }
        out
    }

    /// The position of the first key not below `key`.
    fn search(&self, key: &str) -> (res: usize)
        ensures
            res <= self.key_seq().len(),
            forall|j: int| 0 <= j < res ==> lex_order(#[trigger] self.key_seq()[j], key@) < 0,
            res < self.key_seq().len() ==> lex_order(self.key_seq()[res as int], key@) >= 0,
    {
        let mut i: usize = 0;
        while i < self.entries.len() && compare_str(self.entries[i].0.as_str(), key) < 0
            invariant
                i <= self.entries.len(),
                forall|j: int| 0 <= j < i ==> lex_order(#[trigger] self.key_seq()[j], key@) < 0,
            decreases self.entries.len() - i,
        {
            i = i + 1;
        }
        i
    }

    /// The value of a key.
    pub fn get(&self, key: &str) -> (res: Option<&V>)
        ensures
            match res {
                Some(v) => self@.dom().contains(key@) && *v == self@[key@],
                None => !self@.dom().contains(key@),
            },
    {
        proof {
            use_type_invariant(self);
            self.lemma_keys();
        }
        let i = self.search(key);
        if i < self.entries.len() && compare_str(self.entries[i].0.as_str(), key) == 0 {
            proof {
                lemma_lex_order_antisym(self.key_seq()[i as int], key@);
                assert(self.key_seq()[i as int] == key@);
                assert(self.key_seq().contains(key@));
                assert(self@[self.key_seq()[i as int]] == self.pairs()[i as int].1);
                assert(self.pairs()[i as int].1 == self.entries@[i as int].1);
            }
            return Some(&self.entries[i].1);
        }
        proof {
            if self.key_seq().contains(key@) {
                let j = choose|j: int| 0 <= j < self.key_seq().len() && self.key_seq()[j] == key@;
                lemma_lex_order_antisym(self.key_seq()[j], key@);
                if j > i {
                    lemma_lex_order_antisym(self.key_seq()[i as int], key@);
                    assert(lex_order(self.key_seq()[i as int], self.key_seq()[j]) < 0);
                    lemma_lex_order_trans(key@, self.key_seq()[i as int], self.key_seq()[j]);
                }
            }
        }
        None
    }

    /// Whether a key is in the map.
    pub fn contains_key(&self, key: &str) -> (res: bool)
        ensures
            res == self@.dom().contains(key@),
    {
        self.get(key).is_some()
    }

    /// Sets the value of a key, adding the key where it is new.
    pub fn insert(&mut self, key: String, value: V)
        ensures
            final(self)@ == old(self)@.insert(key@, value),
    {
        proof {
            use_type_invariant(&*self);
        }
        let ghost s = self.pairs();
        let ghost kv = key@;
        let i = self.search(key.as_str());
        let same = i < self.entries.len() && compare_str(self.entries[i].0.as_str(), key.as_str())
            == 0;
        proof {
            assert forall|j: int| 0 <= j < i implies lex_order(#[trigger] s[j].0, kv) < 0 by {
                assert(s[j].0 == self.key_seq()[j]);
            }
            if i < s.len() {
                assert(s[i as int].0 == self.key_seq()[i as int]);
                lemma_lex_order_antisym(s[i as int].0, kv);
            }
        }
        let mut v: Vec<(String, V)> = Vec::new();
        std::mem::swap(&mut v, &mut self.entries);
        assert(s == Seq::new(v@.len(), |j: int| (v@[j].0@, v@[j].1)));
        if same {
            v.remove(i);
            v.insert(i, (key, value));
            proof {
                let t = Seq::new(v@.len(), |j: int| (v@[j].0@, v@[j].1));
                assert(t =~= s.update(i as int, (kv, value)));
                lemma_update_map(s, i as int, kv, value);
            }
        } else {
            v.insert(i, (key, value));
            proof {
                let t = Seq::new(v@.len(), |j: int| (v@[j].0@, v@[j].1));
                assert(t =~= s.insert(i as int, (kv, value)));
                lemma_insert_map(s, i as int, kv, value);
            }
        }
        self.entries = v;
    }

    /// Keeps the keys whose presence among `ids` is `keep_listed`, and drops
    /// the others.
    pub fn retain_listed(&mut self, ids: &[String], keep_listed: bool)
        ensures
            final(self)@ == old(self)@.restrict(
                Set::new(|k: Seq<char>| texts_view(ids@).contains(k) == keep_listed),
            ),
    {
        let ghost m0 = self@;
        let ghost iv = texts_view(ids@);
        let keys = self.keys();
        let ghost ks = self.key_seq();
        assert(self@ =~= m0.remove_keys(Set::new(
            |k: Seq<char>| ks.take(0).contains(k) && iv.contains(k) != keep_listed,
        )));
        let mut i: usize = 0;
        while i < keys.len()
            invariant
                i <= keys.len() == ks.len(),
                forall|j: int| 0 <= j < keys@.len() ==> #[trigger] keys@[j]@ == ks[j],
                forall|k: Seq<char>|
                    #![trigger m0.dom().contains(k)]
                    #![trigger ks.contains(k)]
                    m0.dom().contains(k) <==> ks.contains(k),
                iv == texts_view(ids@),
                self@ == m0.remove_keys(
                    Set::new(
                        |k: Seq<char>| ks.take(i as int).contains(k) && iv.contains(k) != keep_listed,
                    ),
                ),
            decreases keys.len() - i,
        {
            let ghost k = ks[i as int];
            let ghost prev = ks.take(i as int);
            let ghost next = ks.take(i + 1);
            proof {
                assert(keys@[i as int]@ == k);
                assert(next =~= prev.push(k));
                assert forall|l: Seq<char>| next.contains(l) <==> (prev.contains(l) || l == k) by {
                    if next.contains(l) {
                        let j = choose|j: int| 0 <= j < next.len() && next[j] == l;
                        if j < i {
                            assert(prev[j] == l);
                        }
                    }
                    if prev.contains(l) {
                        let j = choose|j: int| 0 <= j < prev.len() && prev[j] == l;
                        assert(next[j] == l);
                    }
                    if l == k {
                        assert(next[i as int] == l);
                    }
                }
            }
            let is_listed = listed_text(ids, keys[i].as_str());
            if is_listed != keep_listed {
                let ghost cur = self@;
                self.remove(keys[i].as_str());
                proof {
                    assert(self@ =~= m0.remove_keys(
                        Set::new(|x: Seq<char>| next.contains(x) && iv.contains(x) != keep_listed),
                    ));
                }
            } else {
                proof {
                    assert(self@ =~= m0.remove_keys(
                        Set::new(|x: Seq<char>| next.contains(x) && iv.contains(x) != keep_listed),
                    ));
                }
            }
            i = i + 1;
        }
        proof {
            assert(ks.take(ks.len() as int) =~= ks);
            assert(self@ =~= m0.restrict(
                Set::new(|k: Seq<char>| iv.contains(k) == keep_listed),
            ));
        }
    }

    /// Takes a key out of the map, with its value.
    pub fn remove(&mut self, key: &str) -> (res: Option<V>)
        ensures
            final(self)@ == old(self)@.remove(key@),
            match res {
                Some(v) => old(self)@.dom().contains(key@) && v == old(self)@[key@],
                None => !old(self)@.dom().contains(key@),
            },
    {
        proof {
            use_type_invariant(&*self);
            self.lemma_keys();
        }
        let ghost s = self.pairs();
        let ghost before = self@;
        let i = self.search(key);
        if !(i < self.entries.len() && compare_str(self.entries[i].0.as_str(), key) == 0) {
            proof {
                if self.key_seq().contains(key@) {
                    let j = choose|j: int|
                        0 <= j < self.key_seq().len() && self.key_seq()[j] == key@;
                    lemma_lex_order_antisym(self.key_seq()[j], key@);
                    if j > i {
                        lemma_lex_order_antisym(self.key_seq()[i as int], key@);
                        assert(lex_order(self.key_seq()[i as int], self.key_seq()[j]) < 0);
                        lemma_lex_order_trans(key@, self.key_seq()[i as int], self.key_seq()[j]);
                    }
                }
                assert(self@.remove(key@) =~= self@);
            }
            return None;
        }
        proof {
            lemma_lex_order_antisym(self.key_seq()[i as int], key@);
            assert(s[i as int].0 == key@);
            assert(self.key_seq()[i as int] == key@);
            assert(self.key_seq().contains(key@));
            assert(before[self.key_seq()[i as int]] == s[i as int].1);
            lemma_remove_map(s, i as int);
        }
        let mut v: Vec<(String, V)> = Vec::new();
        std::mem::swap(&mut v, &mut self.entries);
        assert(s == Seq::new(v@.len(), |j: int| (v@[j].0@, v@[j].1)));
        let (_k, val) = v.remove(i);
        proof {
            let t = Seq::new(v@.len(), |j: int| (v@[j].0@, v@[j].1));
            assert(t =~= s.remove(i as int));
        }
        self.entries = v;
        Some(val)
    }
}

} // verus!
