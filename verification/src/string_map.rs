//! A map from names to values that holds its entries in ascending order of
//! the names, so that walking it is deterministic.

use crate::text::{lemma_lex_irreflexive, lemma_lex_total, lemma_lex_transitive, lex_less, precedes};
use vstd::prelude::*;

verus! {

/// Whether each name comes before all the names after it.
pub open spec fn ascending(names: Seq<Seq<char>>) -> bool {
    forall|i: int, j: int| 0 <= i < j < names.len() ==> lex_less(#[trigger] names[i], #[trigger] names[j])
}

/// The map that a sequence of names and the sequence of their values stand for.
pub open spec fn entries_map<V>(names: Seq<Seq<char>>, values: Seq<V>) -> Map<Seq<char>, V> {
    Map::new(|name: Seq<char>| names.contains(name), |name: Seq<char>| values[names.index_of(name)])
}

/// Whether `at` is where `name` stands, or would have to stand, among `names`.
pub open spec fn is_place_of(names: Seq<Seq<char>>, name: Seq<char>, at: int) -> bool {
    &&& 0 <= at <= names.len()
    &&& forall|j: int| 0 <= j < at ==> lex_less(#[trigger] names[j], name)
    &&& forall|j: int| at <= j < names.len() ==> !lex_less(#[trigger] names[j], name)
}

/// In an ascending sequence a name stands at one index only.
pub proof fn lemma_ascending_index(names: Seq<Seq<char>>, i: int)
    requires
        ascending(names),
        0 <= i < names.len(),
    ensures
        names.contains(names[i]),
        names.index_of(names[i]) == i,
{
    let found = names.index_of(names[i]);
    assert(0 <= found < names.len() && names[found] == names[i]);
    lemma_lex_irreflexive(names[i]);
    if found < i {
        assert(lex_less(names[found], names[i]));
    } else if i < found {
        assert(lex_less(names[i], names[found]));
    }
}

/// A name that is not at its place is not among the names at all.
pub proof fn lemma_absent(names: Seq<Seq<char>>, name: Seq<char>, at: int)
    requires
        ascending(names),
        is_place_of(names, name, at),
        at == names.len() || names[at] != name,
    ensures
        !names.contains(name),
        forall|j: int| at <= j < names.len() ==> lex_less(name, #[trigger] names[j]),
{
    assert forall|j: int| at <= j < names.len() implies lex_less(name, #[trigger] names[j]) by {
        lemma_lex_total(name, names[at]);
        if at < j {
            assert(lex_less(names[at], names[j]));
            lemma_lex_transitive(name, names[at], names[j]);
        }
    }
    if names.contains(name) {
        let k = names.index_of(name);
        assert(0 <= k < names.len() && names[k] == name);
        lemma_lex_irreflexive(name);
        if k < at {
            assert(lex_less(names[k], name));
        } else {
            assert(lex_less(name, names[k]));
        }
    }
}

/// Putting a new name at its place keeps the order and adds one entry to the map.
pub proof fn lemma_insert_at<V>(
    names: Seq<Seq<char>>,
    values: Seq<V>,
    name: Seq<char>,
    value: V,
    at: int,
)
    requires
        ascending(names),
        names.len() == values.len(),
        is_place_of(names, name, at),
        at == names.len() || names[at] != name,
    ensures
        ascending(names.insert(at, name)),
        entries_map(names.insert(at, name), values.insert(at, value)) == entries_map(
            names,
            values,
        ).insert(name, value),
{
    let grown = names.insert(at, name);
    let grown_values = values.insert(at, value);
    lemma_absent(names, name, at);
    assert forall|i: int, j: int| 0 <= i < j < grown.len() implies lex_less(
        #[trigger] grown[i],
        #[trigger] grown[j],
    ) by {
        if j < at {
            assert(lex_less(names[i], names[j]));
        } else if j == at {
            assert(lex_less(names[i], name));
        } else if i < at {
            assert(lex_less(names[i], names[j - 1]));
        } else if i == at {
            assert(lex_less(name, names[j - 1]));
        } else {
            assert(lex_less(names[i - 1], names[j - 1]));
        }
    }
    let before = entries_map(names, values);
    let after = entries_map(grown, grown_values);
    assert forall|k: Seq<char>| after.contains_key(k) <==> before.insert(
        name,
        value,
    ).contains_key(k) by {
        if grown.contains(k) {
            let p = grown.index_of(k);
            assert(0 <= p < grown.len() && grown[p] == k);
            if p < at {
                assert(names[p] == k);
            } else if p > at {
                assert(names[p - 1] == k);
            }
        }
        if names.contains(k) {
            let p = names.index_of(k);
            assert(0 <= p < names.len() && names[p] == k);
            if p < at {
                assert(grown[p] == k);
            } else {
                assert(grown[p + 1] == k);
            }
        }
        if k == name {
            assert(grown[at] == k);
        }
    }
    assert forall|k: Seq<char>| after.contains_key(k) implies after[k] == before.insert(
        name,
        value,
    )[k] by {
        let p = grown.index_of(k);
        assert(0 <= p < grown.len() && grown[p] == k);
        lemma_ascending_index(grown, p);
        if p < at {
            lemma_ascending_index(names, p);
        } else if p > at {
            lemma_ascending_index(names, p - 1);
        }
    }
    assert(after =~= before.insert(name, value));
}

/// Giving the name at `at` a new value keeps the names and sets one entry of the map.
pub proof fn lemma_update_at<V>(names: Seq<Seq<char>>, values: Seq<V>, value: V, at: int)
    requires
        ascending(names),
        names.len() == values.len(),
        0 <= at < names.len(),
    ensures
        entries_map(names, values.update(at, value)) == entries_map(names, values).insert(
            names[at],
            value,
        ),
{
    let before = entries_map(names, values);
    let after = entries_map(names, values.update(at, value));
    lemma_ascending_index(names, at);
    assert forall|k: Seq<char>| after.contains_key(k) implies after[k] == before.insert(
        names[at],
        value,
    )[k] by {
        let p = names.index_of(k);
        assert(0 <= p < names.len() && names[p] == k);
        lemma_ascending_index(names, p);
    }
    assert(after =~= before.insert(names[at], value));
}

/// Taking the entry at `at` out keeps the order and removes its name from the map.
pub proof fn lemma_remove_at<V>(names: Seq<Seq<char>>, values: Seq<V>, at: int)
    requires
        ascending(names),
        names.len() == values.len(),
        0 <= at < names.len(),
    ensures
        ascending(names.remove(at)),
        entries_map(names.remove(at), values.remove(at)) == entries_map(names, values).remove(
            names[at],
        ),
{
    let fewer = names.remove(at);
    let fewer_values = values.remove(at);
    assert forall|i: int, j: int| 0 <= i < j < fewer.len() implies lex_less(
        #[trigger] fewer[i],
        #[trigger] fewer[j],
    ) by {
        let from_i = if i < at { i } else { i + 1 };
        let from_j = if j < at { j } else { j + 1 };
        assert(lex_less(names[from_i], names[from_j]));
    }
    let before = entries_map(names, values);
    let after = entries_map(fewer, fewer_values);
    lemma_ascending_index(names, at);
    assert forall|k: Seq<char>| after.contains_key(k) <==> before.remove(names[at]).contains_key(
        k,
    ) by {
        if fewer.contains(k) {
            let p = fewer.index_of(k);
            assert(0 <= p < fewer.len() && fewer[p] == k);
            let from = if p < at { p } else { p + 1 };
            assert(names[from] == k);
            lemma_ascending_index(names, from);
        }
        if names.contains(k) && k != names[at] {
            let p = names.index_of(k);
            assert(0 <= p < names.len() && names[p] == k);
            if p < at {
                assert(fewer[p] == k);
            } else {
                assert(fewer[p - 1] == k);
            }
        }
    }
    assert forall|k: Seq<char>| after.contains_key(k) implies after[k] == before.remove(
        names[at],
    )[k] by {
        let p = fewer.index_of(k);
        assert(0 <= p < fewer.len() && fewer[p] == k);
        lemma_ascending_index(fewer, p);
        let from = if p < at { p } else { p + 1 };
        lemma_ascending_index(names, from);
    }
    assert(after =~= before.remove(names[at]));
}

/// The entries are determined by the map: two ascending sequences of
/// names that stand for the same map are the same sequence, with the same
/// values. So the order in which a map was filled leaves no trace.
pub proof fn lemma_entries_unique<V>(
    names: Seq<Seq<char>>,
    values: Seq<V>,
    other_names: Seq<Seq<char>>,
    other_values: Seq<V>,
)
    requires
        ascending(names),
        ascending(other_names),
        names.len() == values.len(),
        other_names.len() == other_values.len(),
        entries_map(names, values) == entries_map(other_names, other_values),
    ensures
        names == other_names,
        values == other_values,
    decreases names.len(),
{
    let map = entries_map(names, values);
    let other = entries_map(other_names, other_values);
    if names.len() == 0 {
        if other_names.len() > 0 {
            lemma_ascending_index(other_names, 0);
            assert(other.contains_key(other_names[0]));
            assert(map.contains_key(other_names[0]));
        }
        assert(names =~= other_names);
        assert(values =~= other_values);
    } else {
        let last = names.len() - 1;
        lemma_ascending_index(names, last);
        assert(map.contains_key(names[last]));
        assert(other_names.contains(names[last]));
        let at = other_names.index_of(names[last]);
        assert(0 <= at < other_names.len() && other_names[at] == names[last]);
        if at < other_names.len() - 1 {
            let beyond = other_names[other_names.len() - 1];
            lemma_ascending_index(other_names, other_names.len() - 1);
            assert(other.contains_key(beyond));
            assert(names.contains(beyond));
            let back = names.index_of(beyond);
            assert(0 <= back < names.len() && names[back] == beyond);
            assert(lex_less(other_names[at], beyond));
            lemma_lex_irreflexive(beyond);
            if back < last {
                assert(lex_less(names[back], names[last]));
                lemma_lex_total(names[back], names[last]);
            }
        }
        lemma_ascending_index(other_names, at);
        assert(values[last] == map[names[last]]);
        assert(other_values[at] == other[names[last]]);
        lemma_remove_at(names, values, last);
        lemma_remove_at(other_names, other_values, at);
        lemma_entries_unique(
            names.remove(last),
            values.remove(last),
            other_names.remove(at),
            other_values.remove(at),
        );
        assert(names =~= names.remove(last).push(names[last]));
        assert(other_names =~= other_names.remove(at).push(other_names[at]));
        assert(values =~= values.remove(last).push(values[last]));
        assert(other_values =~= other_values.remove(at).push(other_values[at]));
    }
}

/// The names of a map in ascending order: the one ascending sequence that
/// holds exactly the names of the map.
pub open spec fn names_in_order<V>(map: Map<Seq<char>, V>) -> Seq<Seq<char>> {
    choose|names: Seq<Seq<char>>| holds_names_of(names, map)
}

/// Whether `names` is ascending and holds exactly the names of `map`.
pub open spec fn holds_names_of<V>(names: Seq<Seq<char>>, map: Map<Seq<char>, V>) -> bool {
    &&& ascending(names)
    &&& forall|name: Seq<char>| names.contains(name) <==> map.contains_key(name)
}

/// Only one sequence holds the names of a map in ascending order.
pub proof fn lemma_names_unique<V>(
    names: Seq<Seq<char>>,
    other_names: Seq<Seq<char>>,
    map: Map<Seq<char>, V>,
)
    requires
        holds_names_of(names, map),
        holds_names_of(other_names, map),
    ensures
        names == other_names,
{
    assert(entries_map(names, names) =~= entries_map(other_names, other_names)) by {
        assert forall|k: Seq<char>| names.contains(k) implies names[names.index_of(k)]
            == other_names[other_names.index_of(k)] by {
            let i = names.index_of(k);
            let j = other_names.index_of(k);
            assert(names[i] == k);
            assert(other_names.contains(k));
            assert(other_names[j] == k);
        }
    }
    lemma_entries_unique(names, names, other_names, other_names);
}

/// Among ascending names every name has a place.
pub proof fn lemma_place_exists(names: Seq<Seq<char>>, name: Seq<char>)
    requires
        ascending(names),
    ensures
        exists|at: int| is_place_of(names, name, at),
    decreases names.len(),
{
    if names.len() == 0 {
        assert(is_place_of(names, name, 0));
    } else {
        let last = names.len() - 1;
        if lex_less(names[last], name) {
            assert forall|j: int| 0 <= j < names.len() implies lex_less(
                #[trigger] names[j],
                name,
            ) by {
                if j < last {
                    assert(lex_less(names[j], names[last]));
                    lemma_lex_transitive(names[j], names[last], name);
                }
            }
            assert(is_place_of(names, name, names.len() as int));
        } else {
            let rest = names.drop_last();
            assert forall|i: int, j: int| 0 <= i < j < rest.len() implies lex_less(
                #[trigger] rest[i],
                #[trigger] rest[j],
            ) by {
                assert(lex_less(names[i], names[j]));
            }
            lemma_place_exists(rest, name);
            let at = choose|at: int| is_place_of(rest, name, at);
            assert forall|j: int| 0 <= j < at implies lex_less(#[trigger] names[j], name) by {
                assert(rest[j] == names[j]);
            }
            assert forall|j: int| at <= j < names.len() implies !lex_less(
                #[trigger] names[j],
                name,
            ) by {
                if j < last {
                    assert(rest[j] == names[j]);
                }
            }
            assert(is_place_of(names, name, at));
        }
    }
}

/// Every finite map has its names in ascending order.
pub proof fn lemma_names_exist<V>(map: Map<Seq<char>, V>)
    requires
        map.dom().finite(),
    ensures
        holds_names_of(names_in_order(map), map),
    decreases map.dom().len(),
{
    if map.dom().len() == 0 {
        map.dom().lemma_len0_is_empty();
        let none = Seq::<Seq<char>>::empty();
        assert(holds_names_of(none, map));
    } else {
        let name = map.dom().choose();
        let rest = map.remove(name);
        lemma_names_exist(rest);
        let names = names_in_order(rest);
        lemma_place_exists(names, name);
        let at = choose|at: int| is_place_of(names, name, at);
        assert(!names.contains(name));
        if at < names.len() {
            assert(names.contains(names[at]));
        }
        lemma_insert_at(names, names, name, name, at);
        let grown = names.insert(at, name);
        assert forall|k: Seq<char>| grown.contains(k) <==> map.contains_key(k) by {
            if grown.contains(k) {
                let p = grown.index_of(k);
                assert(0 <= p < grown.len() && grown[p] == k);
                if p < at {
                    assert(names[p] == k);
                    assert(names.contains(k));
                } else if p > at {
                    assert(names[p - 1] == k);
                    assert(names.contains(k));
                }
            }
            if map.contains_key(k) {
                if k == name {
                    assert(grown[at] == k);
                } else {
                    assert(rest.contains_key(k));
                    assert(names.contains(k));
                    let p = names.index_of(k);
                    assert(0 <= p < names.len() && names[p] == k);
                    if p < at {
                        assert(grown[p] == k);
                    } else {
                        assert(grown[p + 1] == k);
                    }
                }
            }
        }
        assert(holds_names_of(grown, map));
    }
}

/// A map from names to values, held in ascending order of the names.
#[derive(Debug)]
pub struct StringMap<V> {
    entries: Vec<(String, V)>,
}

impl<V: Clone> Clone for StringMap<V> {
    /// A map with the same names, each with a clone of its value.
    fn clone(&self) -> (copy: Self)
        ensures
            copy.wf(),
            copy.names() == self.names(),
            copy.values().len() == self.values().len(),
            forall|i: int|
                0 <= i < self.values().len() ==> cloned(
                    #[trigger] self.values()[i],
                    copy.values()[i],
                ),
    {
        proof {
            use_type_invariant(self);
        }
        let mut entries: Vec<(String, V)> = Vec::new();
        let mut i: usize = 0;
        while i < self.entries.len()
            invariant
                i <= self.entries@.len(),
                entries@.len() == i,
                forall|j: int| 0 <= j < i ==> (#[trigger] entries@[j]).0@ == self.entries@[j].0@,
                forall|j: int| 0 <= j < i ==> cloned(self.entries@[j].1, (#[trigger] entries@[j]).1),
            decreases self.entries@.len() - i,
        {
            let value = self.entries[i].1.clone();
            entries.push((self.entries[i].0.clone(), value));
            i += 1;
        }
        assert(Seq::new(entries@.len(), |i: int| entries@[i].0@) =~= self.names());
        let copy = StringMap { entries };
        assert(copy.values().len() == self.values().len());
        assert forall|i: int| 0 <= i < self.values().len() implies cloned(
            #[trigger] self.values()[i],
            copy.values()[i],
        ) by {
            assert(cloned(self.entries@[i].1, copy.entries@[i].1));
        }
        copy
    }
}

impl<V> View for StringMap<V> {
    type V = Map<Seq<char>, V>;

    open spec fn view(&self) -> Map<Seq<char>, V> {
        entries_map(self.names(), self.values())
    }
}

impl<V> StringMap<V> {
    /// The names, in the order in which the map holds them.
    pub closed spec fn names(&self) -> Seq<Seq<char>> {
        Seq::new(self.entries@.len(), |i: int| self.entries@[i].0@)
    }

    /// The values, each at the index of its name.
    pub closed spec fn values(&self) -> Seq<V> {
        Seq::new(self.entries@.len(), |i: int| self.entries@[i].1)
    }

    /// Every map is held in ascending order of its names.
    #[verifier::type_invariant]
    pub open spec fn wf(&self) -> bool {
        &&& self.names().len() == self.values().len()
        &&& ascending(self.names())
    }

    /// The names are those of the view in ascending order, and each value
    /// is the one that the view gives its name.
    pub proof fn lemma_in_order(self)
        requires
            self.wf(),
        ensures
            self.names() == names_in_order(self@),
            self@.dom().finite(),
            forall|i: int|
                0 <= i < self.names().len() ==> self@.contains_key(#[trigger] self.names()[i])
                    && self@[self.names()[i]] == self.values()[i],
    {
        assert(holds_names_of(self.names(), self@));
        lemma_names_unique(self.names(), names_in_order(self@), self@);
        assert forall|i: int| 0 <= i < self.names().len() implies self@.contains_key(
            #[trigger] self.names()[i],
        ) && self@[self.names()[i]] == self.values()[i] by {
            lemma_ascending_index(self.names(), i);
        }
        assert(self@.dom() =~= self.names().to_set());
        vstd::seq_lib::seq_to_set_is_finite(self.names());
    }

    /// A map has finitely many names.
    pub proof fn lemma_finite(self)
        ensures
            self@.dom().finite(),
    {
        assert(self@.dom() =~= self.names().to_set());
        vstd::seq_lib::seq_to_set_is_finite(self.names());
    }

    /// The names are also those, in ascending order, of every other map
    /// with the same names.
    pub proof fn lemma_names_of<W>(self, other: Map<Seq<char>, W>)
        requires
            self.wf(),
            forall|name: Seq<char>| other.contains_key(name) <==> self@.contains_key(name),
        ensures
            self.names() == names_in_order(other),
    {
        assert(holds_names_of(self.names(), other));
        lemma_names_unique(self.names(), names_in_order(other), other);
    }

    /// The empty map.
    pub fn new() -> (map: Self)
        ensures
            map.wf(),
            map.names() == Seq::<Seq<char>>::empty(),
            map@ == Map::<Seq<char>, V>::empty(),
    {
        let map = StringMap { entries: Vec::new() };
        assert(map.names() =~= Seq::<Seq<char>>::empty());
        assert(map@ =~= Map::<Seq<char>, V>::empty());
        map
    }

    /// The number of entries.
    pub fn len(&self) -> (n: usize)
        ensures
            n == self.names().len(),
            n == self.values().len(),
    {
        self.entries.len()
    }

    /// Whether the map has no entry.
    pub fn is_empty(&self) -> (r: bool)
        ensures
            r == (self.names().len() == 0),
    {
        self.entries.len() == 0
    }

    /// The name at index `i` of the ascending order.
    pub fn name_at(&self, i: usize) -> (name: &String)
        requires
            i < self.names().len(),
        ensures
            name@ == self.names()[i as int],
    {
        &self.entries[i].0
    }

    /// The value of the name at index `i` of the ascending order.
    pub fn value_at(&self, i: usize) -> (value: &V)
        requires
            i < self.names().len(),
        ensures
            *value == self.values()[i as int],
            self.wf(),
            self@.contains_key(self.names()[i as int]),
            *value == self@[self.names()[i as int]],
    {
        proof {
            use_type_invariant(self);
            lemma_ascending_index(self.names(), i as int);
        }
        &self.entries[i].1
    }

    /// The place of `name`, and whether the map has it.
    fn place(&self, name: &str) -> (r: (usize, bool))
        ensures
            is_place_of(self.names(), name@, r.0 as int),
            r.1 == (r.0 < self.names().len() && self.names()[r.0 as int] == name@),
            r.1 == self.names().contains(name@),
    {
        proof {
            use_type_invariant(self);
        }
        let mut low: usize = 0;
        let mut high: usize = self.entries.len();
        while low < high
            invariant
                low <= high <= self.entries@.len(),
                ascending(self.names()),
                forall|j: int| 0 <= j < low ==> lex_less(#[trigger] self.names()[j], name@),
                forall|j: int|
                    high <= j < self.names().len() ==> !lex_less(#[trigger] self.names()[j], name@),
            decreases high - low,
        {
            let middle = low + (high - low) / 2;
            if precedes(self.entries[middle].0.as_str(), name) {
                assert forall|j: int| 0 <= j < middle + 1 implies lex_less(
                    #[trigger] self.names()[j],
                    name@,
                ) by {
                    if j < middle {
                        assert(lex_less(self.names()[j], self.names()[middle as int]));
                        lemma_lex_transitive(self.names()[j], self.names()[middle as int], name@);
                    }
                }
                low = middle + 1;
            } else {
                assert forall|j: int| middle <= j < self.names().len() implies !lex_less(
                    #[trigger] self.names()[j],
                    name@,
                ) by {
                    if middle < j && lex_less(self.names()[j], name@) {
                        assert(lex_less(self.names()[middle as int], self.names()[j]));
                        lemma_lex_transitive(self.names()[middle as int], self.names()[j], name@);
                    }
                }
                high = middle;
            }
        }
        let found = low < self.entries.len() && !precedes(name, self.entries[low].0.as_str());
        proof {
            if found {
                lemma_lex_total(name@, self.names()[low as int]);
            } else {
                if low < self.entries@.len() {
                    lemma_lex_irreflexive(name@);
                }
                lemma_absent(self.names(), name@, low as int);
            }
        }
        (low, found)
    }

    /// Whether the map has an entry for `name`.
    pub fn contains_name(&self, name: &str) -> (r: bool)
        ensures
            r == self@.contains_key(name@),
    {
        self.place(name).1
    }

    /// The value of `name`, if the map has one.
    pub fn get(&self, name: &str) -> (value: Option<&V>)
        ensures
            value == if self@.contains_key(name@) {
                Some(&self@[name@])
            } else {
                None
            },
    {
        let (at, found) = self.place(name);
        if found {
            proof {
                use_type_invariant(self);
                lemma_ascending_index(self.names(), at as int);
            }
            Some(&self.entries[at].1)
        } else {
            None
        }
    }

    /// Sets the value of `name`, in place of the value it had, if any.
    pub fn insert(&mut self, name: String, value: V)
        ensures
            final(self).wf(),
            final(self)@ == old(self)@.insert(name@, value),
    {
        let (at, found) = self.place(name.as_str());
        proof {
            use_type_invariant(&*self);
            if found {
                lemma_update_at(self.names(), self.values(), value, at as int);
                assert(self.names() =~= Seq::new(
                    self.entries@.len(),
                    |i: int| self.entries@.update(at as int, (name, value))[i].0@,
                ));
                assert(self.values().update(at as int, value) =~= Seq::new(
                    self.entries@.len(),
                    |i: int| self.entries@.update(at as int, (name, value))[i].1,
                ));
            } else {
                lemma_insert_at(self.names(), self.values(), name@, value, at as int);
                assert(self.names().insert(at as int, name@) =~= Seq::new(
                    self.entries@.len() + 1,
                    |i: int| self.entries@.insert(at as int, (name, value))[i].0@,
                ));
                assert(self.values().insert(at as int, value) =~= Seq::new(
                    self.entries@.len() + 1,
                    |i: int| self.entries@.insert(at as int, (name, value))[i].1,
                ));
            }
        }
        let mut entries: Vec<(String, V)> = Vec::new();
        core::mem::swap(&mut self.entries, &mut entries);
        if found {
            entries.set(at, (name, value));
        } else {
            entries.insert(at, (name, value));
        }
        self.entries = entries;
    }

    /// Takes the entry of `name` out and returns its value, if the map had one.
    pub fn remove(&mut self, name: &str) -> (value: Option<V>)
        ensures
            final(self).wf(),
            final(self)@ == old(self)@.remove(name@),
            value == if old(self)@.contains_key(name@) {
                Some(old(self)@[name@])
            } else {
                None
            },
    {
        let (at, found) = self.place(name);
        if found {
            proof {
                use_type_invariant(&*self);
                lemma_remove_at(self.names(), self.values(), at as int);
                lemma_ascending_index(self.names(), at as int);
                assert(self.names().remove(at as int) =~= Seq::new(
                    (self.entries@.len() - 1) as nat,
                    |i: int| self.entries@.remove(at as int)[i].0@,
                ));
                assert(self.values().remove(at as int) =~= Seq::new(
                    (self.entries@.len() - 1) as nat,
                    |i: int| self.entries@.remove(at as int)[i].1,
                ));
            }
            let mut entries: Vec<(String, V)> = Vec::new();
            core::mem::swap(&mut self.entries, &mut entries);
            let entry = entries.remove(at);
            self.entries = entries;
            Some(entry.1)
        } else {
            proof {
                use_type_invariant(&*self);
                assert(self@.remove(name@) =~= self@);
            }
            None
        }
    }

    /// The names in ascending order.
    pub fn names_in_order(&self) -> (names: Vec<String>)
        ensures
            names@.len() == self.names().len(),
            forall|i: int| 0 <= i < names@.len() ==> (#[trigger] names@[i])@ == self.names()[i],
    {
        let mut names: Vec<String> = Vec::new();
        let mut i: usize = 0;
        while i < self.entries.len()
            invariant
                i <= self.entries@.len(),
                names@.len() == i,
                forall|j: int| 0 <= j < i ==> (#[trigger] names@[j])@ == self.names()[j],
            decreases self.entries@.len() - i,
        {
            names.push(self.entries[i].0.clone());
            i += 1;
        }
        names
    }
}

} // verus!
