//! Maps and sets of strings that are kept in the order of their keys.

use vstd::prelude::*;

use crate::text;
use crate::text::{chars_of, comes_before, same_chars};

verus! {

/// Whether the keys rise from entry to entry; so no key occurs twice.
pub open spec fn rising<V>(items: Seq<(Seq<char>, V)>) -> bool {
    forall|i: int, j: int|
        0 <= i < j < items.len() ==> text::precedes(#[trigger] items[i].0, #[trigger] items[j].0)
}

/// The entries with `value` under `key`: in place of the entry that had the key,
/// else before the first entry with a later key.
pub open spec fn put<V>(items: Seq<(Seq<char>, V)>, key: Seq<char>, value: V) -> Seq<
    (Seq<char>, V),
>
    decreases items.len(),
{
    if items.len() == 0 {
        seq![(key, value)]
    } else if items[0].0 == key {
        seq![(key, value)] + items.skip(1)
    } else if text::precedes(key, items[0].0) {
        seq![(key, value)] + items
    } else {
        seq![items[0]] + put(items.skip(1), key, value)
    }
}

/// What stands under `key`.
pub open spec fn lookup<V>(items: Seq<(Seq<char>, V)>, key: Seq<char>) -> Option<V>
    decreases items.len(),
{
    if items.len() == 0 {
        None
    } else if items[0].0 == key {
        Some(items[0].1)
    } else {
        lookup(items.skip(1), key)
    }
}

/// The keys, in order.
pub open spec fn keys_of<V>(items: Seq<(Seq<char>, V)>) -> Seq<Seq<char>> {
    items.map_values(|e: (Seq<char>, V)| e.0)
}

/// Entries whose keys all differ from `key` and do not come behind it are passed over.
pub proof fn lemma_put_passes<V>(items: Seq<(Seq<char>, V)>, n: int, key: Seq<char>, value: V)
    requires
        0 <= n <= items.len(),
        forall|i: int|
            0 <= i < n ==> (#[trigger] items[i]).0 != key && !text::precedes(key, items[i].0),
    ensures
        put(items, key, value) == items.take(n) + put(items.skip(n), key, value),
    decreases n,
{
    if n == 0 {
        assert(items.skip(0) == items);
        assert(items.take(0) + put(items, key, value) == put(items, key, value));
    } else {
        let rest = items.skip(1);
        assert(items[0].0 != key && !text::precedes(key, items[0].0));
        assert forall|i: int| 0 <= i < n - 1 implies (#[trigger] rest[i]).0 != key && !text::precedes(
            key,
            rest[i].0,
        ) by {
            assert(rest[i] == items[i + 1]);
        }
        lemma_put_passes(rest, n - 1, key, value);
        assert(rest.skip(n - 1) == items.skip(n));
        assert(seq![items[0]] + rest.take(n - 1) == items.take(n));
        assert(put(items, key, value) == items.take(n) + put(items.skip(n), key, value));
    }
}

/// The keys after a `put` are those before it, and the key put.
pub proof fn lemma_put_keys<V>(items: Seq<(Seq<char>, V)>, key: Seq<char>, value: V)
    ensures
        forall|i: int|
            0 <= i < put(items, key, value).len() ==> {
                ||| (#[trigger] put(items, key, value)[i]).0 == key
                ||| exists|j: int| 0 <= j < items.len() && items[j] == put(items, key, value)[i]
            },
    decreases items.len(),
{
    let after = put(items, key, value);
    assert forall|i: int| 0 <= i < after.len() implies (#[trigger] after[i]).0 == key || exists|
        j: int,
    |
        0 <= j < items.len() && items[j] == after[i] by {
        if items.len() == 0 {
        } else if items[0].0 == key {
            if i > 0 {
                assert(items[i] == after[i]);
            }
        } else if text::precedes(key, items[0].0) {
            if i > 0 {
                assert(items[i - 1] == after[i]);
            }
        } else if i == 0 {
            assert(items[0] == after[0]);
        } else {
            let rest = items.skip(1);
            lemma_put_keys(rest, key, value);
            assert(after[i] == put(rest, key, value)[i - 1]);
            if after[i].0 != key {
                let j = choose|j: int| 0 <= j < rest.len() && rest[j] == after[i];
                assert(items[j + 1] == after[i]);
            }
        }
    }
}

/// A `put` keeps the order of the keys.
pub proof fn law_put_keeps_order<V>(items: Seq<(Seq<char>, V)>, key: Seq<char>, value: V)
    requires
        rising(items),
    ensures
        rising(put(items, key, value)),
    decreases items.len(),
{
    let after = put(items, key, value);
    if items.len() == 0 {
    } else if items[0].0 == key {
        assert forall|i: int, j: int| 0 <= i < j < after.len() implies text::precedes(
            #[trigger] after[i].0,
            #[trigger] after[j].0,
        ) by {
            assert(after[i].0 == items[i].0);
            assert(after[j].0 == items[j].0);
        }
    } else if text::precedes(key, items[0].0) {
        assert forall|i: int, j: int| 0 <= i < j < after.len() implies text::precedes(
            #[trigger] after[i].0,
            #[trigger] after[j].0,
        ) by {
            assert(after[j] == items[j - 1]);
            if i > 0 {
                assert(after[i] == items[i - 1]);
            } else if j > 1 {
                text::lemma_precedes_transitive(key, items[0].0, items[j - 1].0);
            }
        }
    } else {
        let rest = items.skip(1);
        assert(rising(rest)) by {
            assert forall|i: int, j: int| 0 <= i < j < rest.len() implies text::precedes(
                #[trigger] rest[i].0,
                #[trigger] rest[j].0,
            ) by {
                assert(rest[i] == items[i + 1] && rest[j] == items[j + 1]);
            }
        }
        law_put_keeps_order(rest, key, value);
        lemma_put_keys(rest, key, value);
        text::lemma_precedes_total(items[0].0, key);
        let tail = put(rest, key, value);
        assert forall|i: int, j: int| 0 <= i < j < after.len() implies text::precedes(
            #[trigger] after[i].0,
            #[trigger] after[j].0,
        ) by {
            assert(after[j] == tail[j - 1]);
            if i > 0 {
                assert(after[i] == tail[i - 1]);
            } else if tail[j - 1].0 != key {
                let k = choose|k: int| 0 <= k < rest.len() && rest[k] == tail[j - 1];
                assert(rest[k] == items[k + 1]);
            }
        }
    }
}

/// After a `put` the key gives the value put, and every other key what it gave before.
pub proof fn law_put_is_looked_up<V>(
    items: Seq<(Seq<char>, V)>,
    key: Seq<char>,
    value: V,
    other: Seq<char>,
)
    requires
        rising(items),
    ensures
        lookup(put(items, key, value), key) == Some(value),
        other != key ==> lookup(put(items, key, value), other) == lookup(items, other),
    decreases items.len(),
{
    let after = put(items, key, value);
    if items.len() == 0 {
        assert(after.skip(1) == items);
    } else if items[0].0 == key {
        assert(after.skip(1) == items.skip(1));
    } else if text::precedes(key, items[0].0) {
        assert(after.skip(1) == items);
    } else {
        let rest = items.skip(1);
        assert(rising(rest)) by {
            assert forall|i: int, j: int| 0 <= i < j < rest.len() implies text::precedes(
                #[trigger] rest[i].0,
                #[trigger] rest[j].0,
            ) by {
                assert(rest[i] == items[i + 1] && rest[j] == items[j + 1]);
            }
        }
        law_put_is_looked_up(rest, key, value, other);
        assert(after.skip(1) == put(rest, key, value));
    }
}

/// A key that no entry has gives nothing.
pub proof fn lemma_lookup_absent<V>(items: Seq<(Seq<char>, V)>, key: Seq<char>)
    ensures
        lookup(items, key) is None <==> forall|i: int|
            0 <= i < items.len() ==> (#[trigger] items[i]).0 != key,
    decreases items.len(),
{
    if items.len() > 0 {
        let rest = items.skip(1);
        lemma_lookup_absent(rest, key);
        if items[0].0 != key {
            if forall|i: int| 0 <= i < rest.len() ==> (#[trigger] rest[i]).0 != key {
                assert forall|i: int| 0 <= i < items.len() implies (#[trigger] items[i]).0
                    != key by {
                    if i > 0 {
                        assert(rest[i - 1] == items[i]);
                    }
                }
            } else {
                let i = choose|i: int| 0 <= i < rest.len() && (#[trigger] rest[i]).0 == key;
                assert(items[i + 1] == rest[i]);
            }
        }
    }
}

/// A map from strings to values, kept in the order of its keys.
#[derive(Debug, PartialEq, Eq)]
pub struct OrderedMap<V> {
    entries: Vec<(String, V)>,
}

impl<V> View for OrderedMap<V> {
    type V = Seq<(Seq<char>, V)>;

    closed spec fn view(&self) -> Seq<(Seq<char>, V)> {
        self.entries@.map_values(|e: (String, V)| (e.0@, e.1))
    }
}

impl<V> OrderedMap<V> {
    #[verifier::type_invariant]
    spec fn in_order(self) -> bool {
        rising(self@)
    }

    /// A map without entries.
    pub fn new() -> (res: Self)
        ensures
            res@ == Seq::<(Seq<char>, V)>::empty(),
    {
        let entries: Vec<(String, V)> = Vec::new();
        proof {
            assert(entries@.map_values(|e: (String, V)| (e.0@, e.1)) == Seq::<
                (Seq<char>, V),
            >::empty());
        }
        OrderedMap { entries }
    }

    /// How many entries there are.
    pub fn len(&self) -> (res: usize)
        ensures
            res == self@.len(),
    {
        self.entries.len()
    }

    /// Whether there is no entry.
    pub fn is_empty(&self) -> (res: bool)
        ensures
            res == (self@.len() == 0),
    {
        self.entries.len() == 0
    }

    /// The key of an entry.
    pub fn key_at(&self, i: usize) -> (res: &String)
        requires
            i < self@.len(),
        ensures
            res@ == self@[i as int].0,
    {
        &self.entries[i].0
    }

    /// The value of an entry.
    pub fn value_at(&self, i: usize) -> (res: &V)
        requires
            i < self@.len(),
        ensures
            *res == self@[i as int].1,
    {
        &self.entries[i].1
    }

    /// The keys, in order, each once.
    pub fn keys(&self) -> (res: Vec<String>)
        ensures
            text::texts(res@) == keys_of(self@),
            rising(self@),
    {
        proof {
            use_type_invariant(self);
        }
        let mut out: Vec<String> = Vec::new();
        let mut i: usize = 0;
        while i < self.entries.len()
            invariant
                i <= self@.len(),
                self@.len() == self.entries@.len(),
                text::texts(out@) == keys_of(self@).take(i as int),
            decreases self@.len() - i,
        {
            let key = self.entries[i].0.clone();
            let ghost had = out@;
            out.push(key);
            assert(text::texts(out@) == text::texts(had).push(key@));
            assert(keys_of(self@).take(i + 1) == keys_of(self@).take(i as int).push(
                self@[i as int].0,
            ));
            i = i + 1;
        }
        assert(keys_of(self@).take(self@.len() as int) == keys_of(self@));
        out
    }

    /// The value under a key.
    pub fn get(&self, key: &str) -> (res: Option<&V>)
        ensures
            match res {
                Some(v) => lookup(self@, key@) == Some(*v),
                None => lookup(self@, key@) is None,
            },
    {
        let wanted = chars_of(key);
        let mut i: usize = 0;
        assert(self@.skip(0) == self@);
        while i < self.entries.len()
            invariant
                i <= self@.len(),
                self@.len() == self.entries@.len(),
                wanted@ == key@,
                lookup(self@, key@) == lookup(self@.skip(i as int), key@),
            decreases self@.len() - i,
        {
            let here = chars_of(self.entries[i].0.as_str());
            if same_chars(here.as_slice(), wanted.as_slice()) {
                return Some(&self.entries[i].1);
            }
            assert(self@.skip(i as int).skip(1) == self@.skip(i + 1));
            i = i + 1;
        }
        None
    }

    /// Puts a value under a key, and gives back what was there.
    pub fn insert(&mut self, key: String, value: V) -> (res: Option<V>)
        ensures
            final(self)@ == put(old(self)@, key@, value),
            res == lookup(old(self)@, key@),
    {
        proof {
            use_type_invariant(&*self);
        }
        let ghost before = self@;
        let mut entries: Vec<(String, V)> = Vec::new();
        proof {
            assert(entries@.map_values(|e: (String, V)| (e.0@, e.1)) == Seq::<
                (Seq<char>, V),
            >::empty());
        }
        std::mem::swap(&mut entries, &mut self.entries);
        let ghost start = entries@;
        assert(before == start.map_values(|e: (String, V)| (e.0@, e.1)));
        let wanted = chars_of(key.as_str());
        let mut i: usize = 0;
        let mut found = false;
        let mut passed = false;
        assert(before.skip(0) == before);
        while i < entries.len() && !found && !passed
            invariant
                i <= entries@.len(),
                entries@ == start,
                before == start.map_values(|e: (String, V)| (e.0@, e.1)),
                wanted@ == key@,
                found ==> i < entries@.len() && before[i as int].0 == key@,
                passed ==> !found && i < entries@.len() && text::precedes(key@, before[i as int].0),
                lookup(before, key@) == lookup(before.skip(i as int), key@),
                forall|j: int|
                    0 <= j < i ==> (#[trigger] before[j]).0 != key@ && !text::precedes(
                        key@,
                        before[j].0,
                    ),
            decreases
                entries@.len() - i,
                if found || passed {
                    0int
                } else {
                    1int
                },
        {
            let here = chars_of(entries[i].0.as_str());
            if same_chars(here.as_slice(), wanted.as_slice()) {
                found = true;
            } else if comes_before(wanted.as_slice(), here.as_slice()) {
                passed = true;
            } else {
                assert(before.skip(i as int).skip(1) == before.skip(i + 1));
                i = i + 1;
            }
        }
        proof {
            lemma_put_passes(before, i as int, key@, value);
            law_put_keeps_order(before, key@, value);
        }
        let ghost named = key@;
        if found {
            let had = entries.remove(i);
            entries.insert(i, (key, value));
            proof {
                assert(entries@.map_values(|e: (String, V)| (e.0@, e.1)) == put(
                    before,
                    named,
                    value,
                ));
            }
            self.entries = entries;
            Some(had.1)
        } else {
            proof {
                if i < before.len() {
                    lemma_absent_behind(before, i as int, named);
                }
                lemma_lookup_absent(before.skip(i as int), named);
            }
            entries.insert(i, (key, value));
            proof {
                assert(entries@.map_values(|e: (String, V)| (e.0@, e.1)) == put(
                    before,
                    named,
                    value,
                ));
            }
            self.entries = entries;
            None
        }
    }
}

impl<V: Clone> Clone for OrderedMap<V> {
    fn clone(&self) -> (res: Self)
        ensures
            keys_of(res@) == keys_of(self@),
            forall|i: int|
                0 <= i < self@.len() ==> vstd::pervasive::cloned::<V>(
                    (#[trigger] self@[i]).1,
                    res@[i].1,
                ),
    {
        proof {
            use_type_invariant(self);
        }
        let mut entries: Vec<(String, V)> = Vec::new();
        let mut i: usize = 0;
        while i < self.entries.len()
            invariant
                i <= self.entries@.len(),
                entries@.len() == i,
                forall|j: int| 0 <= j < i ==> (#[trigger] entries@[j]).0@ == self.entries@[j].0@,
                forall|j: int|
                    0 <= j < i ==> vstd::pervasive::cloned::<V>(
                        self.entries@[j].1,
                        (#[trigger] entries@[j]).1,
                    ),
            decreases self.entries@.len() - i,
        {
            entries.push((self.entries[i].0.clone(), self.entries[i].1.clone()));
            i = i + 1;
        }
        proof {
            let after = entries@.map_values(|e: (String, V)| (e.0@, e.1));
            assert(rising(after)) by {
                assert forall|i: int, j: int| 0 <= i < j < after.len() implies text::precedes(
                    #[trigger] after[i].0,
                    #[trigger] after[j].0,
                ) by {
                    assert(after[i].0 == self@[i].0 && after[j].0 == self@[j].0);
                }
            }
        }
        OrderedMap { entries }
    }
}

/// The entries with their values read by `read`.
pub open spec fn read_values<V, W>(items: Seq<(Seq<char>, V)>, read: spec_fn(V) -> W) -> Seq<
    (Seq<char>, W),
> {
    items.map_values(|e: (Seq<char>, V)| (e.0, read(e.1)))
}

/// Reading values and putting one can be done in either order.
pub proof fn lemma_put_reads<V, W>(
    items: Seq<(Seq<char>, V)>,
    key: Seq<char>,
    value: V,
    read: spec_fn(V) -> W,
)
    ensures
        read_values(put(items, key, value), read) == put(
            read_values(items, read),
            key,
            read(value),
        ),
    decreases items.len(),
{
    if items.len() > 0 {
        let rest = items.skip(1);
        let readings = read_values(items, read);
        assert(readings.skip(1) == read_values(rest, read));
        lemma_put_reads(rest, key, value, read);
        assert(readings[0] == (items[0].0, read(items[0].1)));
        assert(read_values(put(items, key, value), read) =~= put(readings, key, read(value)));
    } else {
        assert(read_values(put(items, key, value), read) =~= put(
            read_values(items, read),
            key,
            read(value),
        ));
    }
}

/// In rising entries a key before that of entry `i` is not found from there on.
proof fn lemma_absent_behind<V>(items: Seq<(Seq<char>, V)>, i: int, key: Seq<char>)
    requires
        rising(items),
        0 <= i < items.len(),
        text::precedes(key, items[i].0),
    ensures
        forall|j: int| 0 <= j < items.len() - i ==> (#[trigger] items.skip(i)[j]).0 != key,
{
    assert forall|j: int| 0 <= j < items.len() - i implies (#[trigger] items.skip(i)[j]).0
        != key by {
        if items[i + j].0 == key {
            text::lemma_precedes_irreflexive(key);
            if j > 0 {
                text::lemma_precedes_transitive(key, items[i].0, items[i + j].0);
            }
        }
    }
}

/// Whether texts stand in their order, each at most once.
pub open spec fn in_order(items: Seq<Seq<char>>) -> bool {
    forall|i: int, j: int|
        0 <= i < j < items.len() ==> text::precedes(#[trigger] items[i], #[trigger] items[j])
}

/// A set of strings, in their order.
#[derive(Debug, PartialEq, Eq)]
pub struct OrderedSet {
    items: OrderedMap<()>,
}

impl View for OrderedSet {
    type V = Seq<Seq<char>>;

    closed spec fn view(&self) -> Seq<Seq<char>> {
        keys_of(self.items@)
    }
}

impl OrderedSet {
    /// The empty set.
    pub fn new() -> (res: Self)
        ensures
            res@ == Seq::<Seq<char>>::empty(),
            in_order(res@),
    {
        let items: OrderedMap<()> = OrderedMap::new();
        assert(keys_of(items@) == Seq::<Seq<char>>::empty());
        OrderedSet { items }
    }

    /// How many strings there are.
    pub fn len(&self) -> (res: usize)
        ensures
            res == self@.len(),
    {
        self.items.len()
    }

    /// The strings, in order, each once.
    pub fn to_vec(&self) -> (res: Vec<String>)
        ensures
            text::texts(res@) == self@,
            in_order(self@),
    {
        proof {
            use_type_invariant(&self.items);
            lemma_keys_in_order(self.items@);
        }
        self.items.keys()
    }

    /// Whether a string is in the set.
    pub fn contains(&self, item: &str) -> (res: bool)
        ensures
            res == self@.contains(item@),
    {
        let found = self.items.get(item).is_some();
        proof {
            lemma_key_is_found(self.items@, item@);
        }
        found
    }

    /// Puts a string in the set.
    pub fn insert(&mut self, item: String)
        ensures
            forall|t: Seq<char>| #[trigger]
                final(self)@.contains(t) <==> old(self)@.contains(t) || t == item@,
            in_order(final(self)@),
    {
        proof {
            use_type_invariant(&self.items);
        }
        let ghost before = self.items@;
        let ghost named = item@;
        self.items.insert(item, ());
        proof {
            assert forall|t: Seq<char>| #[trigger] self@.contains(t) <==> old(self)@.contains(t) || t
                == named by {
                lemma_key_is_found(before, t);
                lemma_key_is_found(self.items@, t);
                law_put_is_looked_up(before, named, (), t);
            }
            law_put_keeps_order(before, named, ());
            lemma_keys_in_order(self.items@);
        }
    }
}

/// The keys of rising entries are in order.
proof fn lemma_keys_in_order<V>(items: Seq<(Seq<char>, V)>)
    requires
        rising(items),
    ensures
        in_order(keys_of(items)),
{
    let keys = keys_of(items);
    assert forall|i: int, j: int| 0 <= i < j < keys.len() implies text::precedes(
        #[trigger] keys[i],
        #[trigger] keys[j],
    ) by {
        assert(keys[i] == items[i].0 && keys[j] == items[j].0);
    }
}

/// A key is among the keys exactly where something is found under it.
proof fn lemma_key_is_found<V>(items: Seq<(Seq<char>, V)>, key: Seq<char>)
    ensures
        keys_of(items).contains(key) <==> lookup(items, key) is Some,
{
    lemma_lookup_absent(items, key);
    if keys_of(items).contains(key) {
        let k = choose|k: int| 0 <= k < items.len() && keys_of(items)[k] == key;
        assert(items[k].0 == key);
    } else {
        assert forall|k: int| 0 <= k < items.len() implies (#[trigger] items[k]).0 != key by {
            assert(keys_of(items)[k] == items[k].0);
        }
    }
}

/// What stands under a key is what the first entry with that key has.
pub proof fn lemma_first_is_looked_up<V>(items: Seq<(Seq<char>, V)>, k: int)
    requires
        0 <= k < items.len(),
        forall|j: int| 0 <= j < k ==> (#[trigger] items[j]).0 != items[k].0,
    ensures
        lookup(items, items[k].0) == Some(items[k].1),
    decreases items.len(),
{
    if k > 0 {
        let rest = items.skip(1);
        assert(items[0].0 != items[k].0);
        assert forall|j: int| 0 <= j < k - 1 implies (#[trigger] rest[j]).0 != rest[k - 1].0 by {
            assert(rest[j] == items[j + 1]);
        }
        lemma_first_is_looked_up(rest, k - 1);
    }
}

} // verus!
