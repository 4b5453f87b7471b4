//! A small map from names to values that remembers the order of insertion.

use vstd::prelude::*;

verus! {

/// Maps names to values. No name occurs twice, and names keep the order in
/// which they were first inserted.
pub struct Table<V> {
    entries: Vec<(String, V)>,
}

/// Whether some pair of the sequence carries the name.
pub open spec fn has_name<V>(pairs: Seq<(Seq<char>, V)>, name: Seq<char>) -> bool {
    exists|i: int| 0 <= i < pairs.len() && #[trigger] pairs[i].0 == name
}

/// A place at which a pair carries the name: the only one where the names
/// are distinct.
pub open spec fn place_of<V>(pairs: Seq<(Seq<char>, V)>, name: Seq<char>) -> int {
    choose|i: int| 0 <= i < pairs.len() && #[trigger] pairs[i].0 == name
}

/// The map that a sequence of pairs without repeated names stands for.
pub open spec fn map_of<V>(pairs: Seq<(Seq<char>, V)>) -> Map<Seq<char>, V> {
    Map::new(|name: Seq<char>| has_name(pairs, name), |name: Seq<char>| pairs[place_of(pairs, name)].1)
}

/// No two pairs carry the same name.
pub open spec fn distinct_names<V>(pairs: Seq<(Seq<char>, V)>) -> bool {
    forall|i: int, j: int|
        0 <= i < pairs.len() && 0 <= j < pairs.len() && #[trigger] pairs[i].0 == #[trigger] pairs[j].0
            ==> i == j
}

/// The pairs after `name` has been bound to `value`: the pair that carried
/// the name is replaced where it stood, a new name goes to the end.
pub open spec fn bind<V>(pairs: Seq<(Seq<char>, V)>, name: Seq<char>, value: V) -> Seq<(Seq<char>, V)> {
    if has_name(pairs, name) {
        pairs.update(place_of(pairs, name), (name, value))
    } else {
        pairs.push((name, value))
    }
}

/// The pairs after every pair of `list` has been bound in turn, starting from
/// nothing: of two pairs with one name the later one gives the value.
pub open spec fn bind_all<V>(list: Seq<(Seq<char>, V)>) -> Seq<(Seq<char>, V)>
    decreases list.len(),
{
    if list.len() == 0 {
        Seq::empty()
    } else {
        bind(bind_all(list.drop_last()), list.last().0, list.last().1)
    }
}

/// The pairs with `f` applied to each value.
pub open spec fn lift<V, W>(pairs: Seq<(Seq<char>, V)>, f: spec_fn(V) -> W) -> Seq<(Seq<char>, W)> {
    pairs.map_values(|p: (Seq<char>, V)| (p.0, f(p.1)))
}

/// In a sequence without repeated names, a name is found at its one place.
pub proof fn lemma_place_of<V>(pairs: Seq<(Seq<char>, V)>, i: int)
    requires
        distinct_names(pairs),
        0 <= i < pairs.len(),
    ensures
        has_name(pairs, pairs[i].0),
        place_of(pairs, pairs[i].0) == i,
        map_of(pairs).contains_key(pairs[i].0),
        map_of(pairs)[pairs[i].0] == pairs[i].1,
{
    let name = pairs[i].0;
    assert(has_name(pairs, name));
    let j = place_of(pairs, name);
    assert(0 <= j < pairs.len() && pairs[j].0 == name);
}

/// Binding a name keeps the names distinct and inserts into the map.
pub proof fn lemma_bind<V>(pairs: Seq<(Seq<char>, V)>, name: Seq<char>, value: V)
    requires
        distinct_names(pairs),
    ensures
        distinct_names(bind(pairs, name, value)),
        map_of(bind(pairs, name, value)) == map_of(pairs).insert(name, value),
{
    let after = bind(pairs, name, value);
    let k = if has_name(pairs, name) { place_of(pairs, name) } else { pairs.len() as int };
    assert(0 <= k < after.len() && after[k] == (name, value));
    assert(forall|i: int| 0 <= i < pairs.len() && i != k ==> after[i] == pairs[i]);
    assert(forall|i: int| 0 <= i < after.len() && i != k ==> after[i].0 != name) by {
        assert forall|i: int| 0 <= i < after.len() && i != k implies after[i].0 != name by {
            if after[i].0 == name {
                assert(pairs[i].0 == name);
                assert(has_name(pairs, name));
                assert(pairs[k].0 == name);
            }
        }
    }
    assert(distinct_names(after)) by {
        assert forall|i: int, j: int|
            0 <= i < after.len() && 0 <= j < after.len() && #[trigger] after[i].0 == #[trigger] after[j].0
            implies i == j by {
            if i != k && j != k {
                assert(pairs[i].0 == pairs[j].0);
            }
        }
    }
    assert forall|n: Seq<char>| #[trigger] has_name(after, n) == (n == name || has_name(pairs, n)) by {
        if has_name(after, n) {
            let i = place_of(after, n);
            if i != k {
                assert(pairs[i].0 == n);
            }
        }
        if n == name {
            assert(after[k].0 == n);
        } else if has_name(pairs, n) {
            let i = place_of(pairs, n);
            assert(i != k);
            assert(after[i].0 == n);
        }
    }
    assert forall|n: Seq<char>| has_name(after, n) implies #[trigger] map_of(after)[n] == map_of(
        pairs,
    ).insert(name, value)[n] by {
        let i = place_of(after, n);
        lemma_place_of(after, i);
        if n != name {
            assert(i != k);
            lemma_place_of(pairs, i);
        }
    }
    assert(map_of(after) =~= map_of(pairs).insert(name, value));
}

/// Applying a function to the values changes no name.
pub proof fn lemma_lift_distinct<V, W>(pairs: Seq<(Seq<char>, V)>, f: spec_fn(V) -> W)
    requires
        distinct_names(pairs),
    ensures
        distinct_names(lift(pairs, f)),
        forall|name: Seq<char>| has_name(lift(pairs, f), name) == has_name(pairs, name),
{
    let lifted = lift(pairs, f);
    assert forall|i: int, j: int|
        0 <= i < lifted.len() && 0 <= j < lifted.len() && #[trigger] lifted[i].0 == #[trigger] lifted[j].0
        implies i == j by {
        assert(pairs[i].0 == pairs[j].0);
    }
    assert forall|name: Seq<char>| has_name(lifted, name) == has_name(pairs, name) by {
        if has_name(pairs, name) {
            let i = place_of(pairs, name);
            assert(lifted[i].0 == name);
        }
        if has_name(lifted, name) {
            let i = place_of(lifted, name);
            assert(pairs[i].0 == name);
        }
    }
}

/// Applying a function to the values changes no name, so binding before or
/// after it gives the same pairs.
pub proof fn lemma_bind_lift<V, W>(pairs: Seq<(Seq<char>, V)>, name: Seq<char>, value: V, f: spec_fn(V) -> W)
    requires
        distinct_names(pairs),
    ensures
        distinct_names(lift(pairs, f)),
        has_name(lift(pairs, f), name) == has_name(pairs, name),
        lift(bind(pairs, name, value), f) == bind(lift(pairs, f), name, f(value)),
{
    let lifted = lift(pairs, f);
    lemma_lift_distinct(pairs, f);
    if has_name(pairs, name) {
        let i = place_of(pairs, name);
        assert(lifted[i].0 == name);
        lemma_place_of(lifted, i);
    }
    assert(lift(bind(pairs, name, value), f) =~= bind(lifted, name, f(value)));
}

/// Binding pairs in turn never leaves a name twice.
pub proof fn lemma_bind_all_distinct<V>(list: Seq<(Seq<char>, V)>)
    ensures
        distinct_names(bind_all(list)),
    decreases list.len(),
{
    if list.len() > 0 {
        lemma_bind_all_distinct(list.drop_last());
        lemma_bind(bind_all(list.drop_last()), list.last().0, list.last().1);
    }
}

/// Applying a function to the values before or after binding pairs in turn
/// gives the same pairs.
pub proof fn lemma_bind_all_lift<V, W>(list: Seq<(Seq<char>, V)>, f: spec_fn(V) -> W)
    ensures
        lift(bind_all(list), f) == bind_all(lift(list, f)),
    decreases list.len(),
{
    if list.len() == 0 {
        assert(lift(bind_all(list), f) =~= bind_all(lift(list, f)));
    } else {
        lemma_bind_all_lift(list.drop_last(), f);
        lemma_bind_all_distinct(list.drop_last());
        lemma_bind_lift(bind_all(list.drop_last()), list.last().0, list.last().1, f);
        assert(lift(list, f).drop_last() =~= lift(list.drop_last(), f));
    }
}

impl<V> Table<V> {
    /// The pairs of the table, in order of insertion.
    pub closed spec fn pairs(&self) -> Seq<(Seq<char>, V)> {
        self.entries@.map_values(|e: (String, V)| (e.0@, e.1))
    }

    /// The invariant of the type: no name occurs twice.
    #[verifier::type_invariant]
    pub closed spec fn wf(&self) -> bool {
        distinct_names(self.pairs())
    }

    /// Every table that executable code holds has distinct names.
    pub proof fn lemma_wf(&self)
        requires
            self.wf(),
        ensures
            distinct_names(self.pairs()),
    {
    }

    /// Tells the verifier what holds of every table that executable code
    /// has: its names are distinct.
    pub(crate) fn recall_wf(&self)
        ensures
            self.wf(),
    {
        proof {
            use_type_invariant(self);
        }
    }

    /// A table without entries.
    pub fn new() -> (table: Self)
        ensures
            table.pairs() == Seq::<(Seq<char>, V)>::empty(),
            table.wf(),
    {
        let table = Table { entries: Vec::new() };
        assert(table.pairs() =~= Seq::<(Seq<char>, V)>::empty());
        table
    }

    /// The table that binds each pair of `list` in turn.
    pub fn from_pairs(list: Vec<(String, V)>) -> (table: Self)
        ensures
            table.wf(),
            table.pairs() == bind_all(list@.map_values(|e: (String, V)| (e.0@, e.1))),
    {
        let ghost all = list@.map_values(|e: (String, V)| (e.0@, e.1));
        let mut table = Table::new();
        for pair in iter: list
            invariant
                iter.seq() == list@,
                all == list@.map_values(|e: (String, V)| (e.0@, e.1)),
                table.wf(),
                table.pairs() == bind_all(all.take(iter.index() as int)),
        {
            proof {
                let k = iter.index() as int;
                assert(all.take(k + 1).drop_last() =~= all.take(k));
                assert(all.take(k + 1).last() == (pair.0@, pair.1));
            }
            table.insert(pair.0, pair.1);
        }
        assert(all.take(all.len() as int) =~= all);
        table
    }

    /// The number of entries.
    pub fn len(&self) -> (n: usize)
        ensures
            n == self.pairs().len(),
            self.wf(),
    {
        proof {
            use_type_invariant(self);
        }
        self.entries.len()
    }

    /// The place at which `name` stands, if it is bound.
    pub fn position(&self, name: &str) -> (found: Option<usize>)
        ensures
            self.wf(),
            found is Some <==> has_name(self.pairs(), name@),
            found matches Some(i) ==> i == place_of(self.pairs(), name@) && i < self.pairs().len()
                && self.pairs()[i as int].0 == name@,
    {
        proof {
            use_type_invariant(self);
        }
        let key: String = name.to_owned();
        let mut i: usize = 0;
        while i < self.entries.len()
            invariant
                i <= self.entries.len(),
                key@ == name@,
                self.wf(),
                forall|j: int| 0 <= j < i ==> (#[trigger] self.pairs()[j]).0 != name@,
            decreases self.entries.len() - i,
        {
            if self.entries[i].0 == key {
                proof {
                    assert(self.pairs()[i as int].0 == name@);
                    lemma_place_of(self.pairs(), i as int);
                }
                return Some(i);
            }
            i += 1;
        }
        None
    }

    /// The value bound to `name`, if there is one.
    pub fn get(&self, name: &str) -> (found: Option<&V>)
        ensures
            self.wf(),
            found is Some <==> self@.contains_key(name@),
            found matches Some(value) ==> *value == self@[name@],
    {
        match self.position(name) {
            Some(i) => {
                proof {
                    lemma_place_of(self.pairs(), i as int);
                }
                Some(&self.entries[i].1)
            },
            None => None,
        }
    }

    /// The name at a place.
    pub fn name_at(&self, i: usize) -> (name: &String)
        requires
            i < self.pairs().len(),
        ensures
            name@ == self.pairs()[i as int].0,
    {
        &self.entries[i].0
    }

    /// The value at a place.
    pub fn value_at(&self, i: usize) -> (value: &V)
        requires
            i < self.pairs().len(),
        ensures
            *value == self.pairs()[i as int].1,
    {
        &self.entries[i].1
    }

    /// Binds `name` to `value`. A name that was bound keeps its place and
    /// gets the new value; a new name goes to the end.
    pub fn insert(&mut self, name: String, value: V)
        ensures
            final(self).wf(),
            final(self).pairs() == bind(old(self).pairs(), name@, value),
            final(self)@ == old(self)@.insert(name@, value),
    {
        proof {
            use_type_invariant(&*self);
            lemma_bind(self.pairs(), name@, value);
        }
        let ghost before = self.pairs();
        let found = self.position(name.as_str());
        // The entries leave the table as a whole and come back changed, so
        // that the table holds distinct names at every moment.
        let mut taken = Table { entries: Vec::new() };
        assert(taken.pairs() =~= Seq::<(Seq<char>, V)>::empty());
        core::mem::swap(self, &mut taken);
        let mut entries = taken.entries;
        match found {
            Some(i) => {
                entries.set(i, (name, value));
            },
            None => {
                entries.push((name, value));
            },
        }
        assert(entries@.map_values(|e: (String, V)| (e.0@, e.1)) =~= bind(before, name@, value));
        *self = Table { entries };
    }
}

impl<V> View for Table<V> {
    type V = Map<Seq<char>, V>;

    open spec fn view(&self) -> Map<Seq<char>, V> {
        map_of(self.pairs())
    }
}

} // verus!
