//! A map from display names to values, small enough to be searched from the
//! front.

use vstd::prelude::*;
use vstd::string::*;

verus! {

/// Whether no name occurs twice among `entries`.
spec fn names_distinct<V>(entries: Seq<(String, V)>) -> bool {
    forall|i: int, j: int|
        0 <= i < j < entries.len() ==> (#[trigger] entries[i]).0@ != (#[trigger] entries[j]).0@
}

/// Whether the entry at `i` is the one under `name`.
spec fn named_at<V>(entries: Seq<(String, V)>, name: Seq<char>, i: int) -> bool {
    0 <= i < entries.len() && entries[i].0@ == name
}

/// The map that a list of entries stands for: each name leads to the value
/// beside it.
spec fn map_of<V: DeepView>(entries: Seq<(String, V)>) -> Map<Seq<char>, V::V> {
    Map::new(
        |name: Seq<char>| exists|i: int| named_at(entries, name, i),
        |name: Seq<char>| entries[choose|i: int| named_at(entries, name, i)].1.deep_view(),
    )
}

/// Under distinct names, each entry is what the map holds under its name.
proof fn lemma_map_of_entry<V: DeepView>(entries: Seq<(String, V)>, i: int)
    requires
        names_distinct(entries),
        0 <= i < entries.len(),
    ensures
        map_of(entries).contains_key(entries[i].0@),
        map_of(entries)[entries[i].0@] == entries[i].1.deep_view(),
{
    let name = entries[i].0@;
    assert(named_at(entries, name, i));
    let k = choose|k: int| named_at(entries, name, k);
    assert(k == i);
}

/// A new name at the end adds one key to the map.
proof fn lemma_map_of_push<V: DeepView>(entries: Seq<(String, V)>, name: String, value: V)
    requires
        names_distinct(entries),
        forall|i: int| 0 <= i < entries.len() ==> (#[trigger] entries[i]).0@ != name@,
    ensures
        names_distinct(entries.push((name, value))),
        map_of(entries.push((name, value))) == map_of(entries).insert(name@, value.deep_view()),
{
    let after = entries.push((name, value));
    let last = entries.len() as int;
    assert forall|key: Seq<char>| #[trigger]
        map_of(after).contains_key(key) <==> map_of(entries).insert(
            name@,
            value.deep_view(),
        ).contains_key(key) by {
        if map_of(after).contains_key(key) {
            let i = choose|i: int| named_at(after, key, i);
            if i < last {
                assert(named_at(entries, key, i));
            }
        }
        if map_of(entries).contains_key(key) {
            let i = choose|i: int| named_at(entries, key, i);
            assert(named_at(after, key, i));
        }
        if key == name@ {
            assert(named_at(after, key, last));
        }
    }
    assert forall|key: Seq<char>| #[trigger] map_of(after).contains_key(key) implies map_of(
        after,
    )[key] == map_of(entries).insert(name@, value.deep_view())[key] by {
        let i = choose|i: int| named_at(after, key, i);
        if i < last {
            assert(named_at(entries, key, i));
            lemma_map_of_entry(entries, i);
            lemma_map_of_entry(after, i);
        } else {
            lemma_map_of_entry(after, last);
        }
    }
    assert(map_of(after) =~= map_of(entries).insert(name@, value.deep_view()));
}

/// A new value under a name that is there replaces the old one and leaves
/// the keys as they were.
proof fn lemma_map_of_update<V: DeepView>(
    entries: Seq<(String, V)>,
    at: int,
    name: String,
    value: V,
)
    requires
        names_distinct(entries),
        0 <= at < entries.len(),
        entries[at].0@ == name@,
    ensures
        names_distinct(entries.update(at, (name, value))),
        map_of(entries.update(at, (name, value))) == map_of(entries).insert(
            name@,
            value.deep_view(),
        ),
{
    let after = entries.update(at, (name, value));
    assert forall|i: int, j: int| 0 <= i < j < after.len() implies (#[trigger] after[i]).0@ != (
    #[trigger] after[j]).0@ by {
        assert(after[i].0@ == entries[i].0@);
        assert(after[j].0@ == entries[j].0@);
    }
    assert forall|key: Seq<char>| #[trigger]
        map_of(after).contains_key(key) <==> map_of(entries).insert(
            name@,
            value.deep_view(),
        ).contains_key(key) by {
        if map_of(after).contains_key(key) {
            let i = choose|i: int| named_at(after, key, i);
            assert(named_at(entries, key, i));
        }
        if map_of(entries).contains_key(key) {
            let i = choose|i: int| named_at(entries, key, i);
            assert(named_at(after, key, i));
        }
        if key == name@ {
            assert(named_at(after, key, at));
        }
    }
    assert forall|key: Seq<char>| #[trigger] map_of(after).contains_key(key) implies map_of(
        after,
    )[key] == map_of(entries).insert(name@, value.deep_view())[key] by {
        let i = choose|i: int| named_at(after, key, i);
        lemma_map_of_entry(after, i);
        if i != at {
            assert(named_at(entries, key, i));
            lemma_map_of_entry(entries, i);
        }
    }
    assert(map_of(after) =~= map_of(entries).insert(name@, value.deep_view()));
}

/// Under distinct names the map has one key for each entry.
proof fn lemma_map_of_len<V: DeepView>(entries: Seq<(String, V)>)
    requires
        names_distinct(entries),
    ensures
        map_of(entries).dom().finite(),
        map_of(entries).dom().len() == entries.len(),
    decreases entries.len(),
{
    if entries.len() == 0 {
        assert(map_of(entries).dom() =~= Set::<Seq<char>>::empty());
    } else {
        let front = entries.drop_last();
        let (name, value) = entries.last();
        assert(entries =~= front.push((name, value)));
        assert(names_distinct(front)) by {
            assert forall|i: int, j: int| 0 <= i < j < front.len() implies (#[trigger] front[i]).0@
                != (#[trigger] front[j]).0@ by {
                assert(front[i] == entries[i]);
                assert(front[j] == entries[j]);
            }
        }
        assert forall|i: int| 0 <= i < front.len() implies (#[trigger] front[i]).0@ != name@ by {
            assert(front[i] == entries[i]);
            assert(entries[entries.len() - 1] == (name, value));
        }
        lemma_map_of_len(front);
        lemma_map_of_push(front, name, value);
        assert(!map_of(front).contains_key(name@)) by {
            if map_of(front).contains_key(name@) {
                let i = choose|i: int| named_at(front, name@, i);
                assert(front[i].0@ == name@);
            }
        }
    }
}

/// Where `name` stands among `entries`, searched from the front.
fn position<V>(entries: &Vec<(String, V)>, name: &String) -> (at: Option<usize>)
    ensures
        match at {
            Some(i) => named_at(entries@, name@, i as int),
            None => forall|i: int| 0 <= i < entries@.len() ==> (#[trigger] entries@[i]).0@ != name@,
        },
{
    let mut i: usize = 0;
    while i < entries.len()
        invariant
            i <= entries@.len(),
            forall|j: int| 0 <= j < i ==> (#[trigger] entries@[j]).0@ != name@,
        decreases entries@.len() - i,
    {
        if entries[i].0 == *name {
            return Some(i);
        }
        i = i + 1;
    }
    None
}

/// A map from names to values in which a later value replaces an earlier one
/// of the same name.
///
/// It is viewed as a `Map` from each name's characters to its value's deep
/// view.
pub struct NameMap<V> {
    entries: Vec<(String, V)>,
}

impl<V: DeepView> View for NameMap<V> {
    type V = Map<Seq<char>, V::V>;

    closed spec fn view(&self) -> Map<Seq<char>, V::V> {
        map_of(self.entries@)
    }
}

impl<V> NameMap<V> {
    #[verifier::type_invariant]
    spec fn no_name_twice(self) -> bool {
        names_distinct(self.entries@)
    }
}

impl<V: DeepView> NameMap<V> {
    /// The map without any name.
    pub fn new() -> (map: Self)
        ensures
            map@ == Map::<Seq<char>, V::V>::empty(),
    {
        let map = NameMap { entries: Vec::new() };
        assert(map@ =~= Map::<Seq<char>, V::V>::empty());
        map
    }

    /// The number of names.
    pub fn len(&self) -> (n: usize)
        ensures
            self@.dom().finite(),
            n == self@.len(),
    {
        proof {
            use_type_invariant(self);
            lemma_map_of_len(self.entries@);
        }
        self.entries.len()
    }

    /// Whether the map has no name at all.
    pub fn is_empty(&self) -> (b: bool)
        ensures
            b == (self@ == Map::<Seq<char>, V::V>::empty()),
    {
        proof {
            use_type_invariant(self);
            lemma_map_of_len(self.entries@);
            if self.entries@.len() > 0 {
                lemma_map_of_entry(self.entries@, 0);
            } else {
                assert(self@ =~= Map::<Seq<char>, V::V>::empty());
            }
        }
        self.entries.len() == 0
    }

    /// Whether the map holds a value under `name`.
    pub fn contains_key(&self, name: &str) -> (b: bool)
        ensures
            b == self@.contains_key(name@),
    {
        let key = String::from_str(name);
        let at = position(&self.entries, &key);
        proof {
            if self@.contains_key(name@) {
                let i = choose|i: int| named_at(self.entries@, name@, i);
                assert(self.entries@[i].0@ == name@);
            }
        }
        at.is_some()
    }

    /// The value under `name`, if there is one.
    pub fn get(&self, name: &str) -> (value: Option<&V>)
        ensures
            match value {
                Some(v) => self@.contains_key(name@) && self@[name@] == v.deep_view(),
                None => !self@.contains_key(name@),
            },
    {
        let key = String::from_str(name);
        match position(&self.entries, &key) {
            Some(i) => {
                proof {
                    use_type_invariant(self);
                    lemma_map_of_entry(self.entries@, i as int);
                }
                Some(&self.entries[i].1)
            },
            None => {
                proof {
                    if self@.contains_key(name@) {
                        let i = choose|i: int| named_at(self.entries@, name@, i);
                        assert(self.entries@[i].0@ == name@);
                    }
                }
                None
            },
        }
    }

    /// Puts `value` under `name`. A value that was there before is replaced:
    /// the last one put under a name is the one that stays.
    pub fn insert(&mut self, name: String, value: V)
        ensures
            final(self)@ == old(self)@.insert(name@, value.deep_view()),
    {
        proof {
            use_type_invariant(&*self);
        }
        let mut entries: Vec<(String, V)> = Vec::new();
        core::mem::swap(&mut self.entries, &mut entries);
        match position(&entries, &name) {
            Some(i) => {
                proof {
                    lemma_map_of_update(entries@, i as int, name, value);
                }
                entries.set(i, (name, value));
            },
            None => {
                proof {
                    lemma_map_of_push(entries@, name, value);
                }
                entries.push((name, value));
            },
        }
        self.entries = entries;
    }

    /// Every name of the map, each once.
    pub fn names(&self) -> (names: Vec<String>)
        ensures
            names.len() == self@.len(),
            forall|i: int| 0 <= i < names.len() ==> self@.contains_key(#[trigger] names[i]@),
            forall|name: Seq<char>| #[trigger]
                self@.contains_key(name) ==> exists|i: int|
                    0 <= i < names.len() && #[trigger] names[i]@ == name,
            forall|i: int, j: int|
                0 <= i < j < names.len() ==> (#[trigger] names[i])@ != (#[trigger] names[j])@,
    {
        proof {
            use_type_invariant(self);
            lemma_map_of_len(self.entries@);
        }
        let mut names: Vec<String> = Vec::new();
        let mut i: usize = 0;
        while i < self.entries.len()
            invariant
                i <= self.entries@.len(),
                names@.len() == i,
                forall|j: int| 0 <= j < i ==> (#[trigger] names@[j])@ == self.entries@[j].0@,
            decreases self.entries@.len() - i,
        {
            names.push(self.entries[i].0.clone());
            i = i + 1;
        }
        proof {
            assert forall|j: int| 0 <= j < names.len() implies self@.contains_key(
                #[trigger] names[j]@,
            ) by {
                lemma_map_of_entry(self.entries@, j);
            }
            assert forall|name: Seq<char>| #[trigger] self@.contains_key(name) implies exists|
                j: int,
            |
                0 <= j < names.len() && #[trigger] names[j]@ == name by {
                let j = choose|j: int| named_at(self.entries@, name, j);
                assert(names[j]@ == name);
            }
            assert forall|a: int, b: int| 0 <= a < b < names.len() implies (#[trigger] names[a])@
                != (#[trigger] names[b])@ by {
                assert(self.entries@[a].0@ != self.entries@[b].0@);
            }
        }
        names
    }
}

} // verus!
