//! Label sets: small string-to-string mappings attached to cluster objects.

use vstd::prelude::*;

verus! {

/// One `key = value` pair of a label set.
#[derive(Clone, Debug, PartialEq, Eq)]
pub struct Label {
    pub key: String,
    pub value: String,
}

/// A finite mapping from label keys to label values. It is held as a list of
/// pairs in which no key occurs twice.
#[derive(Debug)]
pub struct LabelSet {
    entries: Vec<Label>,
}

/// The key under which an object carries the name of the service it belongs to.
pub const APP_LABEL: &'static str = "app";

/// The labels of everything that belongs to the service `name`: the one pair
/// `app = name`.
pub open spec fn service_labels(name: Seq<char>) -> Map<Seq<char>, Seq<char>> {
    map![APP_LABEL@ => name]
}

/// No two positions of `s` hold the same key.
pub open spec fn keys_distinct(s: Seq<Label>) -> bool {
    forall|i: int, j: int| 0 <= i < j < s.len() ==> s[i].key@ != s[j].key@
}

/// The mapping that a sequence of pairs stands for; of two pairs with one key
/// the later one counts.
pub open spec fn pairs_to_map(s: Seq<Label>) -> Map<Seq<char>, Seq<char>>
    decreases s.len(),
{
    if s.len() == 0 {
        Map::empty()
    } else {
        pairs_to_map(s.drop_last()).insert(s.last().key@, s.last().value@)
    }
}

/// A key is in the mapping exactly if some pair holds it.
pub proof fn lemma_pairs_dom(s: Seq<Label>, k: Seq<char>)
    ensures
        pairs_to_map(s).dom().contains(k) <==> exists|i: int| 0 <= i < s.len() && s[i].key@ == k,
    decreases s.len(),
{
    if s.len() > 0 {
        let t = s.drop_last();
        lemma_pairs_dom(t, k);
        if pairs_to_map(s).dom().contains(k) {
            if s.last().key@ == k {
                assert(s[s.len() - 1].key@ == k);
            } else {
                let i = choose|i: int| 0 <= i < t.len() && t[i].key@ == k;
                assert(s[i].key@ == k);
            }
        }
        if exists|i: int| 0 <= i < s.len() && s[i].key@ == k {
            let i = choose|i: int| 0 <= i < s.len() && s[i].key@ == k;
            if i < s.len() - 1 {
                assert(t[i].key@ == k);
            }
        }
    }
}

/// Where no key occurs twice, each pair's key is mapped to that pair's value.
pub proof fn lemma_pairs_value(s: Seq<Label>, i: int)
    requires
        keys_distinct(s),
        0 <= i < s.len(),
    ensures
        pairs_to_map(s).dom().contains(s[i].key@),
        pairs_to_map(s)[s[i].key@] == s[i].value@,
    decreases s.len(),
{
    let t = s.drop_last();
    if i < s.len() - 1 {
        assert(keys_distinct(t));
        lemma_pairs_value(t, i);
        assert(t[i] == s[i]);
        assert(s[i].key@ != s[s.len() - 1].key@);
    }
}

/// Where no key occurs twice, the mapping has as many keys as there are pairs.
pub proof fn lemma_pairs_len(s: Seq<Label>)
    requires
        keys_distinct(s),
    ensures
        pairs_to_map(s).dom().finite(),
        pairs_to_map(s).dom().len() == s.len(),
    decreases s.len(),
{
    if s.len() > 0 {
        let t = s.drop_last();
        assert(keys_distinct(t));
        lemma_pairs_len(t);
        lemma_pairs_dom(t, s.last().key@);
        if pairs_to_map(t).dom().contains(s.last().key@) {
            let i = choose|i: int| 0 <= i < t.len() && t[i].key@ == s.last().key@;
            assert(s[i].key@ == s[s.len() - 1].key@);
        }
    }
}

/// Replacing the value of a pair in place is an insertion under its key.
pub proof fn lemma_pairs_update(s: Seq<Label>, i: int, l: Label)
    requires
        keys_distinct(s),
        0 <= i < s.len(),
        l.key@ == s[i].key@,
    ensures
        keys_distinct(s.update(i, l)),
        pairs_to_map(s.update(i, l)) == pairs_to_map(s).insert(l.key@, l.value@),
    decreases s.len(),
{
    let u = s.update(i, l);
    let t = s.drop_last();
    if i < s.len() - 1 {
        assert(keys_distinct(t));
        lemma_pairs_update(t, i, l);
        assert(u.drop_last() == t.update(i, l));
        assert(u.last() == s.last());
        assert(s[i].key@ != s[s.len() - 1].key@);
        assert(pairs_to_map(t).insert(l.key@, l.value@).insert(s.last().key@, s.last().value@)
            == pairs_to_map(t).insert(s.last().key@, s.last().value@).insert(l.key@, l.value@));
    } else {
        assert(u.drop_last() == t);
        assert(pairs_to_map(t).insert(l.key@, l.value@) == pairs_to_map(t).insert(
            s.last().key@,
            s.last().value@,
        ).insert(l.key@, l.value@));
    }
}

impl View for LabelSet {
    type V = Map<Seq<char>, Seq<char>>;

    closed spec fn view(&self) -> Map<Seq<char>, Seq<char>> {
        pairs_to_map(self.entries@)
    }
}

impl LabelSet {
    #[verifier::type_invariant]
    spec fn well_formed(&self) -> bool {
        keys_distinct(self.entries@)
    }

    /// The empty label set.
    pub fn new() -> (s: Self)
        ensures
            s@ == Map::<Seq<char>, Seq<char>>::empty(),
    {
        LabelSet { entries: Vec::new() }
    }

    /// The position of `key` among the pairs, if it is there.
    fn position(&self, key: &String) -> (r: Option<usize>)
        ensures
            match r {
                Some(i) => i < self.entries@.len() && self.entries@[i as int].key@ == key@,
                None => forall|j: int| 0 <= j < self.entries@.len() ==> self.entries@[j].key@ != key@,
            },
    {
        let mut i: usize = 0;
        while i < self.entries.len()
            invariant
                i <= self.entries@.len(),
                forall|j: int| 0 <= j < i ==> self.entries@[j].key@ != key@,
            decreases self.entries@.len() - i,
        {
            if self.entries[i].key == *key {
                return Some(i);
            }
            i += 1;
        }
        None
    }

    /// The value under `key`, if the set has one.
    pub fn get(&self, key: &str) -> (r: Option<&String>)
        ensures
            match r {
                Some(v) => self@.contains_key(key@) && self@[key@] == v@,
                None => !self@.contains_key(key@),
            },
    {
        proof {
            use_type_invariant(self);
            lemma_pairs_dom(self.entries@, key@);
        }
        let owned = key.to_owned();
        match self.position(&owned) {
            Some(i) => {
                proof {
                    lemma_pairs_value(self.entries@, i as int);
                }
                Some(&self.entries[i].value)
            },
            None => None,
        }
    }

    /// Puts `value` under `key`, in place of any value that was there.
    pub fn insert(&mut self, key: String, value: String)
        ensures
            final(self)@ == old(self)@.insert(key@, value@),
    {
        proof {
            use_type_invariant(&*self);
        }
        let found = self.position(&key);
        let label = Label { key, value };
        let mut entries: Vec<Label> = Vec::new();
        std::mem::swap(&mut entries, &mut self.entries);
        match found {
            Some(i) => {
                proof {
                    lemma_pairs_update(entries@, i as int, label);
                }
                entries.set(i, label);
            },
            None => {
                proof {
                    assert(entries@.push(label).drop_last() == entries@);
                }
                entries.push(label);
            },
        }
        self.entries = entries;
    }

    /// The label set of the service `name`.
    pub fn for_service(name: &str) -> (s: Self)
        ensures
            s@ == service_labels(name@),
    {
        let mut s = LabelSet::new();
        s.insert(APP_LABEL.to_owned(), name.to_owned());
        s
    }

    /// The pairs of the set, each key once.
    pub fn pairs(&self) -> (r: &Vec<Label>)
        ensures
            keys_distinct(r@),
            pairs_to_map(r@) == self@,
    {
        proof {
            use_type_invariant(self);
        }
        &self.entries
    }

    /// Whether every pair of `self` is a pair of `other` too.
    pub fn is_subset_of(&self, other: &LabelSet) -> (b: bool)
        ensures
            b == self@.submap_of(other@),
    {
        proof {
            use_type_invariant(self);
            use_type_invariant(other);
        }
        let mut i: usize = 0;
        while i < self.entries.len()
            invariant
                i <= self.entries@.len(),
                keys_distinct(self.entries@),
                keys_distinct(other.entries@),
                forall|j: int|
                    0 <= j < i ==> other@.contains_key(#[trigger] self.entries@[j].key@)
                        && other@[self.entries@[j].key@] == self.entries@[j].value@,
            decreases self.entries@.len() - i,
        {
            let entry = &self.entries[i];
            proof {
                lemma_pairs_value(self.entries@, i as int);
            }
            match other.position(&entry.key) {
                Some(p) => {
                    proof {
                        lemma_pairs_value(other.entries@, p as int);
                    }
                    if !(other.entries[p].value == entry.value) {
                        return false;
                    }
                },
                None => {
                    proof {
                        lemma_pairs_dom(other.entries@, entry.key@);
                    }
                    return false;
                },
            }
            i += 1;
        }
        proof {
            assert forall|k: Seq<char>| #[trigger] self@.dom().contains(k) implies other@.dom().contains(k)
                && self@[k] == other@[k] by {
                lemma_pairs_dom(self.entries@, k);
                let j = choose|j: int| 0 <= j < self.entries@.len() && self.entries@[j].key@ == k;
                lemma_pairs_value(self.entries@, j);
            }
        }
        true
    }

    /// The number of keys.
    pub fn len(&self) -> (n: usize)
        ensures
            self@.dom().finite(),
            n == self@.dom().len(),
    {
        proof {
            use_type_invariant(self);
            lemma_pairs_len(self.entries@);
        }
        self.entries.len()
    }
}

impl Clone for LabelSet {
    fn clone(&self) -> (r: Self)
        ensures
            r@ == self@,
    {
        proof {
            use_type_invariant(self);
        }
        let mut entries: Vec<Label> = Vec::new();
        let mut i: usize = 0;
        while i < self.entries.len()
            invariant
                i <= self.entries@.len(),
                entries@ == self.entries@.take(i as int),
            decreases self.entries@.len() - i,
        {
            let entry = &self.entries[i];
            entries.push(Label { key: entry.key.clone(), value: entry.value.clone() });
            i += 1;
        }
        proof {
            assert(self.entries@.take(self.entries@.len() as int) == self.entries@);
        }
        LabelSet { entries }
    }
}

impl PartialEq for LabelSet {
    fn eq(&self, other: &Self) -> (b: bool) {
        let b = self.is_subset_of(other) && other.is_subset_of(self);
        proof {
            if b {
                assert forall|k: Seq<char>| self@.dom().contains(k) == other@.dom().contains(k) by {
                    if self@.dom().contains(k) {
                        assert(other@.dom().contains(k));
                    }
                    if other@.dom().contains(k) {
                        assert(self@.dom().contains(k));
                    }
                }
                assert forall|k: Seq<char>| self@.dom().contains(k) implies self@[k] == other@[k] by {
                    assert(other@.dom().contains(k));
                }
                assert(self@ =~= other@);
            }
        }
        b
    }
}

impl Eq for LabelSet {

}

impl vstd::std_specs::cmp::PartialEqSpecImpl for LabelSet {
    open spec fn obeys_eq_spec() -> bool {
        true
    }

    open spec fn eq_spec(&self, other: &Self) -> bool {
        self@ == other@
    }
}

} // verus!
