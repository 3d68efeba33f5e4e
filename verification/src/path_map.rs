//! Maps and sets keyed by text, kept as sorted vectors.

use vstd::prelude::*;

use crate::text;
use crate::text::{precedes, same};

verus! {

/// Each key comes strictly before the next.
pub open spec fn ascending(keys: Seq<Seq<char>>) -> bool {
    forall|i: int, j: int| 0 <= i < j < keys.len() ==> #[trigger] text::text_lt(keys[i], keys[j])
}

/// The map whose keys and values stand at the same places of two sequences.
pub open spec fn zipped<V>(keys: Seq<Seq<char>>, values: Seq<V>) -> Map<Seq<char>, V> {
    Map::new(|key: Seq<char>| keys.contains(key), |key: Seq<char>| values[keys.index_of(key)])
}

/// In ascending keys no key stands twice.
pub proof fn lemma_ascending_distinct(keys: Seq<Seq<char>>)
    requires
        ascending(keys),
    ensures
        keys.no_duplicates(),
        forall|i: int| 0 <= i < keys.len() ==> keys.index_of(#[trigger] keys[i]) == i,
{
    assert forall|i: int, j: int| 0 <= i < j < keys.len() implies keys[i] != keys[j] by {
        text::lemma_text_lt_irreflexive(keys[i]);
        assert(text::text_lt(keys[i], keys[j]));
    }
    assert forall|i: int| 0 <= i < keys.len() implies keys.index_of(#[trigger] keys[i]) == i by {
        assert(keys.contains(keys[i]));
        let j = keys.index_of(keys[i]);
        assert(keys[j] == keys[i]);
    }
}

/// Ascending keys are settled by which keys they are.
pub proof fn lemma_ascending_unique(a: Seq<Seq<char>>, b: Seq<Seq<char>>)
    requires
        ascending(a),
        ascending(b),
        forall|key: Seq<char>| #[trigger] a.contains(key) <==> b.contains(key),
    ensures
        a == b,
    decreases a.len(),
{
    if a.len() == 0 {
        if b.len() > 0 {
            assert(b.contains(b[0]));
            assert(a.contains(b[0]));
        }
        assert(a =~= b);
    } else {
        let (x, y) = (a.last(), b.last());
        assert(a.contains(x));
        assert(b.len() > 0);
        let i = a.index_of(y);
        let j = b.index_of(x);
        assert(b.contains(x) && b[j] == x);
        assert(b[b.len() - 1] == y);
        assert(a.contains(y));
        assert(a[i] == y);
        if x != y {
            assert(text::text_lt(a[i], a[a.len() - 1]));
            assert(text::text_lt(b[j], b[b.len() - 1]));
            text::lemma_text_lt_transitive(x, y, x);
            text::lemma_text_lt_irreflexive(x);
        }
        let (front, other) = (a.drop_last(), b.drop_last());
        assert forall|key: Seq<char>| #[trigger] front.contains(key) <==> other.contains(key) by {
            lemma_ascending_front(a, key);
            lemma_ascending_front(b, key);
        }
        assert forall|m: int, n: int| 0 <= m < n < front.len() implies #[trigger] text::text_lt(
            front[m],
            front[n],
        ) by {
            assert(text::text_lt(a[m], a[n]));
        }
        assert forall|m: int, n: int| 0 <= m < n < other.len() implies #[trigger] text::text_lt(
            other[m],
            other[n],
        ) by {
            assert(text::text_lt(b[m], b[n]));
        }
        lemma_ascending_unique(front, other);
        assert(a =~= front.push(x));
        assert(b =~= other.push(y));
    }
}

proof fn lemma_ascending_front(keys: Seq<Seq<char>>, key: Seq<char>)
    requires
        ascending(keys),
        keys.len() > 0,
    ensures
        keys.drop_last().contains(key) <==> keys.contains(key) && key != keys.last(),
{
    let front = keys.drop_last();
    if front.contains(key) {
        let i = front.index_of(key);
        assert(keys[i] == key);
        assert(text::text_lt(keys[i], keys[keys.len() - 1]));
        text::lemma_text_lt_irreflexive(key);
    }
    if keys.contains(key) && key != keys.last() {
        let i = keys.index_of(key);
        assert(front[i] == key);
    }
}

proof fn lemma_replace<V>(keys: Seq<Seq<char>>, values: Seq<V>, place: int, value: V)
    requires
        ascending(keys),
        keys.len() == values.len(),
        0 <= place < keys.len(),
    ensures
        zipped(keys, values.update(place, value)) == zipped(keys, values).insert(
            keys[place],
            value,
        ),
{
    lemma_ascending_distinct(keys);
    let before = zipped(keys, values).insert(keys[place], value);
    let after = zipped(keys, values.update(place, value));
    assert forall|key: Seq<char>| after.contains_key(key) == before.contains_key(key) by {}
    assert forall|key: Seq<char>| #[trigger] after.contains_key(key) implies after[key]
        == before[key] by {
        let i = keys.index_of(key);
        assert(keys[i] == key);
    }
    assert(after =~= before);
}

proof fn lemma_add<V>(
    keys: Seq<Seq<char>>,
    values: Seq<V>,
    place: int,
    key: Seq<char>,
    value: V,
)
    requires
        ascending(keys),
        keys.len() == values.len(),
        0 <= place <= keys.len(),
        forall|i: int| 0 <= i < place ==> text::text_lt(#[trigger] keys[i], key),
        forall|i: int| place <= i < keys.len() ==> text::text_lt(key, #[trigger] keys[i]),
    ensures
        ascending(keys.insert(place, key)),
        zipped(keys.insert(place, key), values.insert(place, value)) == zipped(keys, values).insert(
            key,
            value,
        ),
{
    let more = keys.insert(place, key);
    let held = values.insert(place, value);
    assert forall|i: int, j: int| 0 <= i < j < more.len() implies #[trigger] text::text_lt(
        more[i],
        more[j],
    ) by {
        let p = if i < place { i } else { i - 1 };
        let q = if j < place { j } else { j - 1 };
        if i == place {
            assert(more[j] == keys[q]);
        } else if j == place {
            assert(more[i] == keys[p]);
        } else {
            assert(more[i] == keys[p] && more[j] == keys[q]);
        }
    }
    lemma_ascending_distinct(keys);
    lemma_ascending_distinct(more);
    let before = zipped(keys, values).insert(key, value);
    let after = zipped(more, held);
    assert forall|k: Seq<char>| after.contains_key(k) == before.contains_key(k) by {
        if more.contains(k) && k != key {
            let i = more.index_of(k);
            assert(keys[if i < place { i } else { i - 1 }] == k);
        }
        if keys.contains(k) {
            let i = keys.index_of(k);
            assert(more[if i < place { i } else { i + 1 }] == k);
        }
        assert(more[place] == key);
    }
    assert forall|k: Seq<char>| #[trigger] after.contains_key(k) implies after[k] == before[k] by {
        let i = more.index_of(k);
        assert(more[i] == k);
        assert(more[place] == key);
        if k != key {
            let j = if i < place { i } else { i - 1 };
            assert(keys[j] == k);
            assert(held[i] == values[j]);
        }
    }
    assert(after =~= before);
}

/// A map from text.
pub struct PathMap<V> {
    keys: Vec<String>,
    values: Vec<V>,
}

impl<V: View> View for PathMap<V> {
    type V = Map<Seq<char>, V::V>;

    closed spec fn view(&self) -> Map<Seq<char>, V::V> {
        zipped(text::views(self.keys@), text::views(self.values@))
    }
}

impl<V> PathMap<V> {
    #[verifier::type_invariant]
    spec fn well_formed(self) -> bool {
        &&& self.keys@.len() == self.values@.len()
        &&& ascending(text::views(self.keys@))
    }
}

impl<V: View> PathMap<V> {
    /// The map without entries.
    pub fn new() -> (map: Self)
        ensures
            map@ == Map::<Seq<char>, V::V>::empty(),
    {
        let map = PathMap { keys: Vec::new(), values: Vec::new() };
        assert(map@ =~= Map::<Seq<char>, V::V>::empty());
        map
    }

    /// Where `key` stands, or where it would go.
    fn position(&self, key: &str) -> (result: (bool, usize))
        ensures
            result.1 <= self.keys@.len(),
            result.0 ==> result.1 < self.keys@.len() && self.keys@[result.1 as int]@ == key@,
            !result.0 ==> {
                let keys = text::views(self.keys@);
                &&& forall|i: int| 0 <= i < result.1 ==> text::text_lt(#[trigger] keys[i], key@)
                &&& forall|i: int|
                    result.1 <= i < keys.len() ==> text::text_lt(key@, #[trigger] keys[i])
            },
    {
        proof {
            use_type_invariant(self);
        }
        let ghost keys = text::views(self.keys@);
        let mut low: usize = 0;
        let mut high: usize = self.keys.len();
        while low < high
            invariant
                low <= high <= self.keys@.len(),
                keys == text::views(self.keys@),
                ascending(keys),
                forall|i: int| 0 <= i < low ==> text::text_lt(#[trigger] keys[i], key@),
                forall|i: int| high <= i < keys.len() ==> text::text_lt(key@, #[trigger] keys[i]),
            decreases high - low,
        {
            let middle: usize = low + (high - low) / 2;
            let here = self.keys[middle].as_str();
            assert(here@ == keys[middle as int]);
            if same(here, key) {
                return (true, middle);
            }
            if precedes(here, key) {
                assert forall|i: int| 0 <= i < middle + 1 implies text::text_lt(
                    #[trigger] keys[i],
                    key@,
                ) by {
                    if i < middle {
                        assert(text::text_lt(keys[i], keys[middle as int]));
                        text::lemma_text_lt_transitive(keys[i], keys[middle as int], key@);
                    }
                }
                low = middle + 1;
            } else {
                assert forall|i: int| middle <= i < keys.len() implies text::text_lt(
                    key@,
                    #[trigger] keys[i],
                ) by {
                    text::lemma_text_lt_total(keys[middle as int], key@);
                    if i > middle {
                        assert(text::text_lt(keys[middle as int], keys[i]));
                        text::lemma_text_lt_transitive(key@, keys[middle as int], keys[i]);
                    }
                }
                high = middle;
            }
        }
        (false, low)
    }

    proof fn lemma_absent(keys: Seq<Seq<char>>, place: int, key: Seq<char>)
        requires
            0 <= place <= keys.len(),
            forall|i: int| 0 <= i < place ==> text::text_lt(#[trigger] keys[i], key),
            forall|i: int| place <= i < keys.len() ==> text::text_lt(key, #[trigger] keys[i]),
        ensures
            !keys.contains(key),
    {
        text::lemma_text_lt_irreflexive(key);
        if keys.contains(key) {
            let i = keys.index_of(key);
            assert(keys[i] == key);
        }
    }

    /// The value under `key`.
    pub fn get(&self, key: &str) -> (value: Option<&V>)
        ensures
            match value {
                Some(held) => self@.contains_key(key@) && self@[key@] == held@,
                None => !self@.contains_key(key@),
            },
    {
        proof {
            use_type_invariant(self);
        }
        let ghost keys = text::views(self.keys@);
        let (found, place) = self.position(key);
        if found {
            proof {
                lemma_ascending_distinct(keys);
                assert(keys[place as int] == key@);
                assert(keys.contains(key@));
            }
            Some(&self.values[place])
        } else {
            proof {
                Self::lemma_absent(keys, place as int, key@);
            }
            None
        }
    }

    /// Is there a value under `key`?
    pub fn contains_key(&self, key: &str) -> (found: bool)
        ensures
            found == self@.contains_key(key@),
    {
        match self.get(key) {
            Some(_) => true,
            None => false,
        }
    }

    /// Puts `value` under `key`, in place of what was there, and gives that
    /// back.
    pub fn insert(&mut self, key: String, value: V) -> (earlier: Option<V>)
        ensures
            final(self)@ == old(self)@.insert(key@, value@),
            match earlier {
                Some(held) => old(self)@.contains_key(key@) && old(self)@[key@] == held@,
                None => !old(self)@.contains_key(key@),
            },
    {
        proof {
            use_type_invariant(&*self);
        }
        let (found, place) = self.position(key.as_str());
        let mut whole = PathMap { keys: Vec::new(), values: Vec::new() };
        std::mem::swap(&mut whole, self);
        let PathMap { mut keys, mut values } = whole;
        let ghost before = text::views(keys@);
        let ghost held = text::views(values@);
        let earlier = if found {
            proof {
                lemma_replace(before, held, place as int, value@);
                lemma_ascending_distinct(before);
                assert(before[place as int] == key@);
                assert(before.contains(key@));
            }
            let ghost added = value@;
            let mut other = value;
            std::mem::swap(&mut other, &mut values[place]);
            assert(text::views(values@) =~= held.update(place as int, added));
            Some(other)
        } else {
            let ghost name = key@;
            let ghost added = value@;
            proof {
                lemma_add(before, held, place as int, name, added);
                Self::lemma_absent(before, place as int, name);
            }
            keys.insert(place, key);
            values.insert(place, value);
            assert(text::views(keys@) =~= before.insert(place as int, name));
            assert(text::views(values@) =~= held.insert(place as int, added));
            None
        };
        *self = PathMap { keys, values };
        earlier
    }

    /// The number of entries.
    pub fn len(&self) -> (count: usize)
        ensures
            self@.dom().finite(),
            count == self@.dom().len(),
    {
        proof {
            use_type_invariant(self);
            let keys = text::views(self.keys@);
            lemma_ascending_distinct(keys);
            keys.unique_seq_to_set();
            assert(self@.dom() =~= keys.to_set());
        }
        self.keys.len()
    }

    /// The keys in ascending order.
    pub fn keys(&self) -> (list: &Vec<String>)
        ensures
            ascending(text::views(list@)),
            forall|key: Seq<char>|
                #![auto]
                self@.contains_key(key) <==> text::views(list@).contains(key),
    {
        proof {
            use_type_invariant(self);
        }
        &self.keys
    }
}

/// A set of texts.
pub struct PathSet {
    held: PathMap<()>,
}

impl View for PathSet {
    type V = Set<Seq<char>>;

    closed spec fn view(&self) -> Set<Seq<char>> {
        self.held@.dom()
    }
}

impl PathSet {
    /// The empty set.
    pub fn new() -> (set: Self)
        ensures
            set@ == Set::<Seq<char>>::empty(),
    {
        let set = PathSet { held: PathMap::new() };
        assert(set@ =~= Set::<Seq<char>>::empty());
        set
    }

    /// Puts `key` into the set.
    pub fn insert(&mut self, key: String)
        ensures
            final(self)@ == old(self)@.insert(key@),
    {
        let _ = self.held.insert(key, ());
        assert(self@ =~= old(self)@.insert(key@));
    }

    /// Is `key` in the set?
    pub fn contains(&self, key: &str) -> (found: bool)
        ensures
            found == self@.contains(key@),
    {
        self.held.contains_key(key)
    }

    /// The number of texts in the set.
    pub fn len(&self) -> (count: usize)
        ensures
            self@.finite(),
            count == self@.len(),
    {
        self.held.len()
    }

    /// The texts in ascending order.
    pub fn keys(&self) -> (list: &Vec<String>)
        ensures
            ascending(text::views(list@)),
            forall|key: Seq<char>|
                #![auto]
                self@.contains(key) <==> text::views(list@).contains(key),
    {
        self.held.keys()
    }
}

} // verus!
