//! Lists of strings in strictly ascending order, the backbone of the maps and sets of this crate.

use vstd::prelude::*;

use crate::text::{
    lemma_lex_lt_irreflexive, lemma_lex_lt_total, lemma_lex_lt_transitive, lex_lt, str_lt,
};

verus! {

/// The strings of `v`, each as its sequence of characters.
pub open spec fn views(v: Seq<String>) -> Seq<Seq<char>> {
    v.map_values(|s: String| s@)
}

/// Every element comes strictly before all that follow it.
pub open spec fn ascending(keys: Seq<Seq<char>>) -> bool {
    forall|i: int, j: int| 0 <= i < j < keys.len() ==> lex_lt(#[trigger] keys[i], #[trigger] keys[j])
}

/// An ascending list holds nothing twice.
pub proof fn lemma_ascending_no_duplicates(keys: Seq<Seq<char>>)
    requires
        ascending(keys),
    ensures
        keys.no_duplicates(),
{
    assert forall|i: int, j: int| 0 <= i < keys.len() && 0 <= j < keys.len() && i != j implies keys[i]
        != keys[j] by {
        lemma_lex_lt_irreflexive(keys[i]);
        if i < j {
            assert(lex_lt(keys[i], keys[j]));
        } else {
            assert(lex_lt(keys[j], keys[i]));
        }
    }
}

/// Putting `key` between the elements below it and those above it keeps the list ascending.
pub proof fn lemma_ascending_insert(keys: Seq<Seq<char>>, at: int, key: Seq<char>)
    requires
        ascending(keys),
        0 <= at <= keys.len(),
        forall|j: int| 0 <= j < at ==> lex_lt(#[trigger] keys[j], key),
        forall|j: int| at <= j < keys.len() ==> lex_lt(key, #[trigger] keys[j]),
    ensures
        ascending(keys.insert(at, key)),
{
    let out = keys.insert(at, key);
    assert forall|i: int, j: int| 0 <= i < j < out.len() implies lex_lt(
        #[trigger] out[i],
        #[trigger] out[j],
    ) by {
        if j < at {
            assert(out[i] == keys[i] && out[j] == keys[j]);
        } else if j == at {
            assert(out[i] == keys[i]);
        } else if i < at {
            assert(out[i] == keys[i] && out[j] == keys[j - 1]);
        } else if i == at {
            assert(out[j] == keys[j - 1]);
        } else {
            assert(out[i] == keys[i - 1] && out[j] == keys[j - 1]);
        }
    }
}

/// Two ascending lists with the same elements are the same list.
pub proof fn lemma_ascending_unique(a: Seq<Seq<char>>, b: Seq<Seq<char>>)
    requires
        ascending(a),
        ascending(b),
        a.to_set() == b.to_set(),
    ensures
        a == b,
    decreases a.len(),
{
    if a.len() == 0 {
        if b.len() > 0 {
            assert(b.to_set().contains(b[0]));
            assert(a.contains(b[0]));
        }
        assert(a =~= b);
    } else if b.len() == 0 {
        assert(a.to_set().contains(a[0]));
        assert(b.contains(a[0]));
    } else {
        // The smallest element of each list heads it, so the heads agree.
        assert(a.to_set().contains(a[0]));
        assert(b.contains(a[0]));
        let ib = choose|i: int| 0 <= i < b.len() && b[i] == a[0];
        assert(b.to_set().contains(b[0]));
        assert(a.contains(b[0]));
        let ia = choose|i: int| 0 <= i < a.len() && a[i] == b[0];
        if ib > 0 {
            assert(lex_lt(b[0], b[ib]));
            if ia > 0 {
                assert(lex_lt(a[0], a[ia]));
                lemma_lex_lt_transitive(a[0], b[0], a[0]);
            }
            lemma_lex_lt_irreflexive(a[0]);
        }
        assert(a[0] == b[0]);
        let ta = a.drop_first();
        let tb = b.drop_first();
        lemma_ascending_no_duplicates(a);
        lemma_ascending_no_duplicates(b);
        assert(ascending(ta)) by {
            assert forall|i: int, j: int| 0 <= i < j < ta.len() implies lex_lt(
                #[trigger] ta[i],
                #[trigger] ta[j],
            ) by {
                assert(ta[i] == a[i + 1] && ta[j] == a[j + 1]);
            }
        }
        assert(ascending(tb)) by {
            assert forall|i: int, j: int| 0 <= i < j < tb.len() implies lex_lt(
                #[trigger] tb[i],
                #[trigger] tb[j],
            ) by {
                assert(tb[i] == b[i + 1] && tb[j] == b[j + 1]);
            }
        }
        assert(ta.to_set() =~= tb.to_set()) by {
            assert forall|x: Seq<char>| ta.to_set().contains(x) == tb.to_set().contains(x) by {
                if ta.contains(x) {
                    let i = choose|i: int| 0 <= i < ta.len() && ta[i] == x;
                    assert(a[i + 1] == x);
                    assert(a.to_set().contains(x));
                    assert(b.contains(x));
                    let j = choose|j: int| 0 <= j < b.len() && b[j] == x;
                    assert(j != 0);
                    assert(tb[j - 1] == x);
                }
                if tb.contains(x) {
                    let i = choose|i: int| 0 <= i < tb.len() && tb[i] == x;
                    assert(b[i + 1] == x);
                    assert(b.to_set().contains(x));
                    assert(a.contains(x));
                    let j = choose|j: int| 0 <= j < a.len() && a[j] == x;
                    assert(j != 0);
                    assert(ta[j - 1] == x);
                }
            }
        }
        lemma_ascending_unique(ta, tb);
        assert(a =~= seq![a[0]] + ta);
        assert(b =~= seq![b[0]] + tb);
    }
}

/// Where `key` stands in an ascending list, or where it would go.
///
/// The first component is the number of elements that come before `key`; the second tells
/// whether the element at that position is `key` itself.
pub fn search(keys: &Vec<String>, key: &str) -> (r: (usize, bool))
    requires
        ascending(views(keys@)),
    ensures
        r.0 <= keys.len(),
        forall|j: int| 0 <= j < r.0 ==> lex_lt(#[trigger] views(keys@)[j], key@),
        forall|j: int| r.0 < j < keys.len() ==> lex_lt(key@, #[trigger] views(keys@)[j]),
        r.1 ==> r.0 < keys.len() && views(keys@)[r.0 as int] == key@,
        !r.1 ==> (r.0 < keys.len() ==> lex_lt(key@, views(keys@)[r.0 as int])),
        r.1 == views(keys@).contains(key@),
{
    let ghost ks = views(keys@);
    let mut lo: usize = 0;
    let mut hi: usize = keys.len();
    while lo < hi
        invariant
            ks == views(keys@),
            ascending(ks),
            0 <= lo <= hi <= keys.len(),
            forall|j: int| 0 <= j < lo ==> lex_lt(#[trigger] ks[j], key@),
            forall|j: int| hi <= j < keys.len() ==> !lex_lt(#[trigger] ks[j], key@),
        decreases hi - lo,
    {
        let mid = lo + (hi - lo) / 2;
        if str_lt(keys[mid].as_str(), key) {
            proof {
                assert forall|j: int| 0 <= j < mid + 1 implies lex_lt(#[trigger] ks[j], key@) by {
                    if j < mid {
                        lemma_lex_lt_transitive(ks[j], ks[mid as int], key@);
                    }
                }
            }
            lo = mid + 1;
        } else {
            proof {
                assert forall|j: int| mid <= j < keys.len() implies !lex_lt(
                    #[trigger] ks[j],
                    key@,
                ) by {
                    if j > mid && lex_lt(ks[j], key@) {
                        lemma_lex_lt_transitive(ks[mid as int], ks[j], key@);
                    }
                }
            }
            hi = mid;
        }
    }
    let found = lo < keys.len() && !str_lt(key, keys[lo].as_str());
    proof {
        if lo < keys.len() {
            if found {
                if ks[lo as int] != key@ {
                    lemma_lex_lt_total(ks[lo as int], key@);
                }
            } else {
                lemma_lex_lt_irreflexive(key@);
            }
            assert forall|j: int| lo < j < keys.len() implies lex_lt(key@, #[trigger] ks[j]) by {
                if ks[lo as int] == key@ {
                } else {
                    lemma_lex_lt_total(ks[lo as int], key@);
                    lemma_lex_lt_transitive(key@, ks[lo as int], ks[j]);
                }
            }
        }
        if ks.contains(key@) {
            let j = choose|j: int| 0 <= j < ks.len() && ks[j] == key@;
            lemma_lex_lt_irreflexive(key@);
            assert(j == lo);
        }
    }
    (lo, found)
}

/// Inserting into a list adds exactly the new element to what the list holds.
pub proof fn lemma_insert_to_set<A>(s: Seq<A>, at: int, x: A)
    requires
        0 <= at <= s.len(),
    ensures
        s.insert(at, x).to_set() == s.to_set().insert(x),
{
    let out = s.insert(at, x);
    assert forall|y: A| out.to_set().contains(y) == s.to_set().insert(x).contains(y) by {
        if out.contains(y) {
            let i = choose|i: int| 0 <= i < out.len() && out[i] == y;
            if i < at {
                assert(s[i] == y);
            } else if i > at {
                assert(s[i - 1] == y);
            }
        }
        if s.contains(y) {
            let i = choose|i: int| 0 <= i < s.len() && s[i] == y;
            if i < at {
                assert(out[i] == y);
            } else {
                assert(out[i + 1] == y);
            }
        }
        if y == x {
            assert(out[at] == x);
        }
    }
    assert(out.to_set() =~= s.to_set().insert(x));
}

/// A finite set of strings, listed in ascending order.
#[derive(Clone, Debug)]
pub struct StringSet {
    items: Vec<String>,
}

impl View for StringSet {
    type V = Set<Seq<char>>;

    open spec fn view(&self) -> Set<Seq<char>> {
        self.listing().to_set()
    }
}

impl StringSet {
    /// The members, in the order in which the set lists them.
    pub closed spec fn listing(&self) -> Seq<Seq<char>> {
        views(self.items@)
    }

    /// The listing is ascending, so no member is listed twice.
    pub open spec fn wf(&self) -> bool {
        ascending(self.listing())
    }

    /// The empty set.
    pub fn new() -> (s: Self)
        ensures
            s.wf(),
            s.listing() == Seq::<Seq<char>>::empty(),
            s@ == Set::<Seq<char>>::empty(),
    {
        let s = StringSet { items: Vec::new() };
        assert(s.listing() =~= Seq::<Seq<char>>::empty());
        assert(s@ =~= Set::<Seq<char>>::empty());
        s
    }

    /// The number of members.
    pub fn len(&self) -> (n: usize)
        requires
            self.wf(),
        ensures
            n == self.listing().len(),
            n == self@.len(),
            self@.finite(),
    {
        proof {
            lemma_ascending_no_duplicates(self.listing());
            self.listing().unique_seq_to_set();
            vstd::seq_lib::seq_to_set_is_finite(self.listing());
        }
        self.items.len()
    }

    /// Whether the set has no member.
    pub fn is_empty(&self) -> (b: bool)
        ensures
            b == (self.listing().len() == 0),
            b == (self@ == Set::<Seq<char>>::empty()),
    {
        proof {
            if self.listing().len() > 0 {
                assert(self@.contains(self.listing()[0]));
            } else {
                assert(self@ =~= Set::<Seq<char>>::empty());
            }
        }
        self.items.len() == 0
    }

    /// The member at position `i` of the listing.
    pub fn get(&self, i: usize) -> (s: &String)
        requires
            i < self.listing().len(),
        ensures
            s@ == self.listing()[i as int],
    {
        &self.items[i]
    }

    /// Whether `item` is a member.
    pub fn contains(&self, item: &str) -> (b: bool)
        requires
            self.wf(),
        ensures
            b == self@.contains(item@),
    {
        let (_, found) = search(&self.items, item);
        found
    }

    /// Adds `item`, and tells whether it was new.
    pub fn insert(&mut self, item: &str) -> (added: bool)
        requires
            old(self).wf(),
        ensures
            final(self).wf(),
            final(self)@ == old(self)@.insert(item@),
            added == !old(self)@.contains(item@),
    {
        let (at, found) = search(&self.items, item);
        if found {
            assert(self@ =~= old(self)@.insert(item@));
            false
        } else {
            let owned = item.to_owned();
            self.items.insert(at, owned);
            proof {
                let before = old(self).listing();
                assert(self.listing() =~= before.insert(at as int, item@));
                lemma_ascending_insert(before, at as int, item@);
                lemma_insert_to_set(before, at as int, item@);
            }
            true
        }
    }
}

/// A finite map keyed by strings, listed in ascending order of its keys.
#[derive(Clone, Debug)]
pub struct OrderedMap<V> {
    keys: Vec<String>,
    values: Vec<V>,
}

impl<V> OrderedMap<V> {
    /// The keys, in the order in which the map lists them.
    pub closed spec fn key_seq(&self) -> Seq<Seq<char>> {
        views(self.keys@)
    }

    /// The values, each at the position of its key.
    pub closed spec fn value_seq(&self) -> Seq<V> {
        self.values@
    }

    /// The keys are ascending, and every key has its value.
    pub open spec fn wf(&self) -> bool {
        &&& ascending(self.key_seq())
        &&& self.key_seq().len() == self.value_seq().len()
    }

    /// The map that the two listings stand for.
    pub open spec fn model(&self) -> Map<Seq<char>, V> {
        Map::new(
            |k: Seq<char>| self.key_seq().contains(k),
            |k: Seq<char>| self.value_seq()[self.key_seq().index_of(k)],
        )
    }

    /// The entry listed at position `i` is an entry of the model.
    pub proof fn lemma_model_at(&self, i: int)
        requires
            self.wf(),
            0 <= i < self.key_seq().len(),
        ensures
            self.model().contains_key(self.key_seq()[i]),
            self.model()[self.key_seq()[i]] == self.value_seq()[i],
    {
        lemma_ascending_no_duplicates(self.key_seq());
        let j = self.key_seq().index_of(self.key_seq()[i]);
        assert(self.key_seq().contains(self.key_seq()[i]));
        assert(j == i);
    }

    /// The empty map.
    pub fn new() -> (m: Self)
        ensures
            m.wf(),
            m.key_seq() == Seq::<Seq<char>>::empty(),
            m.value_seq() == Seq::<V>::empty(),
            m.model() == Map::<Seq<char>, V>::empty(),
    {
        let m = OrderedMap { keys: Vec::new(), values: Vec::new() };
        assert(m.key_seq() =~= Seq::<Seq<char>>::empty());
        assert(m.model() =~= Map::<Seq<char>, V>::empty());
        m
    }

    /// The number of entries.
    pub fn len(&self) -> (n: usize)
        ensures
            n == self.key_seq().len(),
    {
        self.keys.len()
    }

    /// The key listed at position `i`.
    pub fn key(&self, i: usize) -> (k: &String)
        requires
            i < self.key_seq().len(),
        ensures
            k@ == self.key_seq()[i as int],
    {
        &self.keys[i]
    }

    /// The value listed at position `i`.
    pub fn value(&self, i: usize) -> (v: &V)
        requires
            i < self.value_seq().len(),
        ensures
            *v == self.value_seq()[i as int],
    {
        &self.values[i]
    }

    /// The value listed at position `i`, to be changed in place.
    pub fn value_mut(&mut self, i: usize) -> (v: &mut V)
        requires
            i < old(self).value_seq().len(),
        ensures
            *v == old(self).value_seq()[i as int],
            final(self).key_seq() == old(self).key_seq(),
            final(self).value_seq() == old(self).value_seq().update(i as int, *final(v)),
    {
        &mut self.values[i]
    }

    /// The position at which `key` is listed, if the map holds it.
    pub fn find(&self, key: &str) -> (r: Option<usize>)
        requires
            self.wf(),
        ensures
            match r {
                Some(i) => i < self.key_seq().len() && self.key_seq()[i as int] == key@,
                None => !self.key_seq().contains(key@),
            },
            r is Some == self.model().contains_key(key@),
    {
        let (at, found) = search(&self.keys, key);
        if found {
            Some(at)
        } else {
            None
        }
    }

    /// The value of `key`, if the map holds it.
    pub fn get(&self, key: &str) -> (r: Option<&V>)
        requires
            self.wf(),
        ensures
            match r {
                Some(v) => self.model().contains_key(key@) && *v == self.model()[key@],
                None => !self.model().contains_key(key@),
            },
    {
        let (at, found) = search(&self.keys, key);
        if found {
            proof {
                self.lemma_model_at(at as int);
            }
            Some(&self.values[at])
        } else {
            None
        }
    }

    /// Gives `key` the value `value`, whether or not it had one.
    pub fn set(&mut self, key: &str, value: V)
        requires
            old(self).wf(),
        ensures
            final(self).wf(),
            final(self).model() == old(self).model().insert(key@, value),
            final(self).key_seq().to_set() == old(self).key_seq().to_set().insert(key@),
    {
        let (at, found) = search(&self.keys, key);
        let ghost keys0 = self.key_seq();
        let ghost values0 = self.value_seq();
        if found {
            self.values.set(at, value);
            proof {
                lemma_ascending_no_duplicates(keys0);
                assert forall|k: Seq<char>| #[trigger] self.model().contains_key(k) implies self.model()[k]
                    == old(self).model().insert(key@, value)[k] by {
                    let j = keys0.index_of(k);
                    if k == key@ {
                        assert(j == at);
                    }
                }
                assert(self.model() =~= old(self).model().insert(key@, value));
                assert(keys0.to_set().contains(key@));
                assert(keys0.to_set() =~= keys0.to_set().insert(key@));
            }
        } else {
            let owned = key.to_owned();
            self.keys.insert(at, owned);
            self.values.insert(at, value);
            proof {
                let keys1 = self.key_seq();
                let values1 = self.value_seq();
                assert(keys1 =~= keys0.insert(at as int, key@));
                assert(values1 =~= values0.insert(at as int, value));
                lemma_ascending_insert(keys0, at as int, key@);
                lemma_insert_to_set(keys0, at as int, key@);
                lemma_ascending_no_duplicates(keys0);
                lemma_ascending_no_duplicates(keys1);
                assert forall|k: Seq<char>| keys1.contains(k) == (keys0.contains(k) || k == key@) by {
                    assert(keys1.to_set().contains(k) == keys0.to_set().insert(key@).contains(k));
                }
                assert forall|k: Seq<char>| #[trigger] self.model().contains_key(k) implies self.model()[k]
                    == old(self).model().insert(key@, value)[k] by {
                    let j1 = keys1.index_of(k);
                    if k == key@ {
                        assert(keys1[at as int] == key@);
                        assert(j1 == at);
                    } else {
                        let j0 = keys0.index_of(k);
                        if j0 < at {
                            assert(keys1[j0] == k);
                            assert(j1 == j0);
                        } else {
                            assert(keys1[j0 + 1] == k);
                            assert(j1 == j0 + 1);
                        }
                    }
                }
                assert(self.model() =~= old(self).model().insert(key@, value));
            }
        }
    }
}

} // verus!
