//! A table from names to values, kept as a list of entries in the order in
//! which the names were first bound. A name is looked up from the front, and
//! the operations here never enter a name twice.

use vstd::prelude::*;

verus! {

/// The place of the first entry named `k`, or the number of entries where
/// there is none.
pub open spec fn first_index<V>(es: Seq<(String, V)>, k: Seq<char>) -> int
    decreases es.len(),
{
    if es.len() == 0 {
        0
    } else if es[0].0@ == k {
        0
    } else {
        1 + first_index(es.drop_first(), k)
    }
}

/// The mapping that a list of entries stands for.
pub open spec fn entries_map<V>(es: Seq<(String, V)>) -> Map<Seq<char>, V> {
    Map::new(|k: Seq<char>| first_index(es, k) < es.len(), |k: Seq<char>| es[first_index(es, k)].1)
}

/// No two entries share a name.
pub open spec fn distinct_names<V>(es: Seq<(String, V)>) -> bool {
    forall|i: int, j: int| 0 <= i < j < es.len() ==> es[i].0@ != es[j].0@
}

/// `first_index` finds the first entry of that name and nothing before it.
pub proof fn lemma_first_index<V>(es: Seq<(String, V)>, k: Seq<char>)
    ensures
        0 <= first_index(es, k) <= es.len(),
        first_index(es, k) < es.len() ==> es[first_index(es, k)].0@ == k,
        forall|j: int| 0 <= j < first_index(es, k) ==> (#[trigger] es[j]).0@ != k,
    decreases es.len(),
{
    if es.len() > 0 && es[0].0@ != k {
        let rest = es.drop_first();
        lemma_first_index(rest, k);
        assert forall|j: int| 0 <= j < first_index(es, k) implies (#[trigger] es[j]).0@ != k by {
            if j > 0 {
                assert(es[j] == rest[j - 1]);
            }
        }
    }
}

/// An entry with nothing of its name before it is the one `first_index`
/// finds.
pub proof fn lemma_first_index_is<V>(es: Seq<(String, V)>, k: Seq<char>, i: int)
    requires
        0 <= i <= es.len(),
        i < es.len() ==> es[i].0@ == k,
        forall|j: int| 0 <= j < i ==> (#[trigger] es[j]).0@ != k,
    ensures
        first_index(es, k) == i,
{
    lemma_first_index(es, k);
    let f = first_index(es, k);
    if f < i {
        assert(es[f].0@ == k);
    }
}

/// Two lists with the same names in the same places find the same place
/// for every name.
pub proof fn lemma_first_index_same<V, W>(a: Seq<(String, V)>, b: Seq<(String, W)>, k: Seq<char>)
    requires
        a.len() == b.len(),
        forall|i: int| 0 <= i < a.len() ==> (#[trigger] a[i]).0@ == b[i].0@,
    ensures
        first_index(a, k) == first_index(b, k),
{
    lemma_first_index(a, k);
    let f = first_index(a, k);
    assert forall|j: int| 0 <= j < f implies (#[trigger] b[j]).0@ != k by {
        assert(a[j].0@ != k);
    }
    if f < a.len() {
        assert(a[f].0@ == b[f].0@);
    }
    lemma_first_index_is(b, k, f);
}

/// Replacing the value of entry `i` binds its name anew and nothing else.
pub proof fn lemma_update_map<V>(es: Seq<(String, V)>, i: int, e: (String, V))
    requires
        0 <= i < es.len(),
        first_index(es, e.0@) == i,
    ensures
        entries_map(es.update(i, e)) == entries_map(es).insert(e.0@, e.1),
        distinct_names(es) ==> distinct_names(es.update(i, e)),
{
    let new = es.update(i, e);
    assert(new.len() == es.len());
    lemma_first_index(es, e.0@);
    assert forall|k: Seq<char>|
        first_index(new, k) == first_index(es, k) && (first_index(es, k) == i <==> k == e.0@) by {
        lemma_first_index(es, k);
        let f = first_index(es, k);
        assert forall|j: int| 0 <= j < f implies (#[trigger] new[j]).0@ != k by {
            assert(es[j].0@ != k);
        }
        lemma_first_index_is(new, k, f);
    }
    assert forall|k: Seq<char>|
        entries_map(new).contains_key(k) == entries_map(es).insert(e.0@, e.1).contains_key(
            k,
        ) by {
        assert(first_index(new, k) == first_index(es, k));
    }
    assert forall|k: Seq<char>| entries_map(new).contains_key(k) implies entries_map(new)[k]
        == entries_map(es).insert(e.0@, e.1)[k] by {
        let f = first_index(es, k);
        lemma_first_index(es, k);
        assert(first_index(new, k) == f && (f == i <==> k == e.0@));
        assert(first_index(new, k) < new.len());
        assert(entries_map(new)[k] == new[f].1);
        if k != e.0@ {
            assert(entries_map(es).contains_key(k));
            assert(entries_map(es)[k] == es[f].1);
            assert(new[f] == es[f]);
        }
    }
    assert(entries_map(new) =~= entries_map(es).insert(e.0@, e.1));
    if distinct_names(es) {
        assert forall|a: int, b: int| 0 <= a < b < new.len() implies new[a].0@ != new[b].0@ by {
            assert(es[a].0@ != es[b].0@);
        }
    }
}

/// The place that `first_index` finds in a list with one more entry at its
/// end.
pub open spec fn first_index_pushed<V>(es: Seq<(String, V)>, e: (String, V), k: Seq<char>) -> int {
    if first_index(es, k) < es.len() {
        first_index(es, k)
    } else if k == e.0@ {
        es.len() as int
    } else {
        (es.len() + 1) as int
    }
}

/// Appending an entry leaves every earlier entry the first of its name.
pub proof fn lemma_first_index_push<V>(es: Seq<(String, V)>, e: (String, V), k: Seq<char>)
    ensures
        first_index(es.push(e), k) == first_index_pushed(es, e, k),
{
    let new = es.push(e);
    lemma_first_index(es, k);
    let f = first_index(es, k);
    if f < es.len() {
        assert forall|j: int| 0 <= j < f implies (#[trigger] new[j]).0@ != k by {
            assert(es[j].0@ != k);
        }
        assert(new[f] == es[f]);
        lemma_first_index_is(new, k, f);
    } else {
        assert forall|j: int| 0 <= j < es.len() implies (#[trigger] new[j]).0@ != k by {
            assert(es[j].0@ != k);
        }
        if k == e.0@ {
            lemma_first_index_is(new, k, es.len() as int);
        } else {
            assert forall|j: int| 0 <= j < new.len() implies (#[trigger] new[j]).0@ != k by {
                if j < es.len() {
                    assert(es[j].0@ != k);
                }
            }
            lemma_first_index_is(new, k, new.len() as int);
        }
    }
}

/// Appending an entry whose name is new binds that name and nothing else.
pub proof fn lemma_push_map<V>(es: Seq<(String, V)>, e: (String, V))
    requires
        first_index(es, e.0@) == es.len(),
    ensures
        entries_map(es.push(e)) == entries_map(es).insert(e.0@, e.1),
        distinct_names(es) ==> distinct_names(es.push(e)),
{
    let new = es.push(e);
    lemma_first_index(es, e.0@);
    assert forall|k: Seq<char>|
        entries_map(new).contains_key(k) == entries_map(es).insert(e.0@, e.1).contains_key(
            k,
        ) by {
        lemma_first_index_push(es, e, k);
    }
    assert forall|k: Seq<char>| entries_map(new).contains_key(k) implies entries_map(new)[k]
        == entries_map(es).insert(e.0@, e.1)[k] by {
        lemma_first_index_push(es, e, k);
        lemma_first_index(es, k);
        let f = first_index(new, k);
        assert(f < new.len());
        assert(entries_map(new)[k] == new[f].1);
        if k != e.0@ {
            assert(f == first_index(es, k));
            assert(entries_map(es).contains_key(k));
            assert(entries_map(es)[k] == es[f].1);
            assert(new[f] == es[f]);
        } else {
            assert(f == es.len());
        }
    }
    assert(entries_map(new) =~= entries_map(es).insert(e.0@, e.1));
    if distinct_names(es) {
        assert forall|i: int, j: int| 0 <= i < j < new.len() implies new[i].0@ != new[j].0@ by {
            if j == es.len() {
                assert(es[i].0@ != e.0@);
            }
        }
    }
}

/// A table from names to values of type `V`.
#[derive(Debug, PartialEq)]
pub struct Table<V> {
    pub entries: Vec<(String, V)>,
}

impl<V> View for Table<V> {
    type V = Map<Seq<char>, V>;

    open spec fn view(&self) -> Map<Seq<char>, V> {
        entries_map(self.entries@)
    }
}

impl<V> Table<V> {
    /// No name is entered twice.
    pub open spec fn well_formed(&self) -> bool {
        distinct_names(self.entries@)
    }

    /// The number of names bound.
    pub open spec fn count(&self) -> nat {
        self.entries@.len()
    }

    /// An empty table.
    pub fn new() -> (t: Self)
        ensures
            t@ == Map::<Seq<char>, V>::empty(),
            t.count() == 0,
            t.well_formed(),
    {
        let t = Table { entries: Vec::new() };
        assert(t@ =~= Map::<Seq<char>, V>::empty());
        t
    }

    /// The number of names bound.
    pub fn len(&self) -> (n: usize)
        ensures
            n == self.count(),
    {
        self.entries.len()
    }

    /// The place of the entry named `key`, if there is one.
    pub fn find(&self, key: &str) -> (r: Option<usize>)
        ensures
            match r {
                Some(i) => i < self.count() && i == first_index(self.entries@, key@),
                None => first_index(self.entries@, key@) == self.count(),
            },
            r is Some <==> self@.contains_key(key@),
    {
        let wanted = key.to_owned();
        let mut i: usize = 0;
        while i < self.entries.len()
            invariant
                i <= self.entries.len(),
                wanted@ == key@,
                forall|j: int| 0 <= j < i ==> (#[trigger] self.entries@[j]).0@ != key@,
            decreases self.entries.len() - i,
        {
            if self.entries[i].0 == wanted {
                proof {
                    lemma_first_index_is(self.entries@, key@, i as int);
                }
                return Some(i);
            }
            i += 1;
        }
        proof {
            lemma_first_index_is(self.entries@, key@, i as int);
        }
        None
    }

    /// The value bound to `key`, if there is one.
    pub fn get(&self, key: &str) -> (r: Option<&V>)
        ensures
            match r {
                Some(v) => self@.contains_key(key@) && *v == self@[key@],
                None => !self@.contains_key(key@),
            },
    {
        match self.find(key) {
            Some(i) => Some(&self.entries[i].1),
            None => None,
        }
    }

    /// Binds `key` to `value`, replacing what it was bound to before.
    pub fn insert(&mut self, key: &str, value: V)
        ensures
            final(self)@ == old(self)@.insert(key@, value),
            old(self).well_formed() ==> final(self).well_formed(),
    {
        let name = key.to_owned();
        match self.find(key) {
            Some(i) => {
                proof {
                    lemma_update_map(self.entries@, i as int, (name, value));
                }
                self.entries.set(i, (name, value));
            },
            None => {
                proof {
                    lemma_push_map(self.entries@, (name, value));
                }
                self.entries.push((name, value));
            },
        }
    }

    /// The name of entry `i`.
    pub fn name_at(&self, i: usize) -> (r: &String)
        requires
            i < self.count(),
        ensures
            r@ == self.entries@[i as int].0@,
    {
        &self.entries[i].0
    }

    /// The value of entry `i`.
    pub fn value_at(&self, i: usize) -> (r: &V)
        requires
            i < self.count(),
        ensures
            *r == self.entries@[i as int].1,
    {
        &self.entries[i].1
    }

    /// Puts `value` in the place of the value of entry `i` and hands the
    /// old value out.
    pub fn replace_at(&mut self, i: usize, value: V) -> (r: V)
        requires
            i < old(self).count(),
        ensures
            r == old(self).entries@[i as int].1,
            final(self).entries@ == old(self).entries@.update(
                i as int,
                (old(self).entries@[i as int].0, value),
            ),
    {
        let ghost before = self.entries@;
        let mut held = value;
        let slot = &mut self.entries[i];
        std::mem::swap(&mut slot.1, &mut held);
        assert(self.entries@ =~= before.update(i as int, (before[i as int].0, value)));
        held
    }
}

} // verus!
