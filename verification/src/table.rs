//! A table of values named by text, kept in the order in which the names came.

use crate::text::same_text;
use vstd::prelude::*;

verus! {

/// Values named by text. A name occurs once.
pub struct Table<V> {
    entries: Vec<(String, V)>,
}

/// Whether no name occurs twice.
pub open spec fn unique_names<V>(entries: Seq<(String, V)>) -> bool {
    forall|i: int, j: int|
        0 <= i < entries.len() && 0 <= j < entries.len() && i != j ==> (#[trigger] entries[i]).0@
            != (#[trigger] entries[j]).0@
}

/// Whether a name occurs.
pub open spec fn named<V>(entries: Seq<(String, V)>, name: Seq<char>) -> bool {
    exists|i: int| 0 <= i < entries.len() && (#[trigger] entries[i]).0@ == name
}

/// Where a name occurs.
pub open spec fn place<V>(entries: Seq<(String, V)>, name: Seq<char>) -> int {
    choose|i: int| 0 <= i < entries.len() && (#[trigger] entries[i]).0@ == name
}

/// The values by their names.
pub open spec fn by_name<V>(entries: Seq<(String, V)>) -> Map<Seq<char>, V> {
    Map::new(|name: Seq<char>| named(entries, name), |name: Seq<char>| entries[place(entries, name)].1)
}

proof fn lemma_place<V>(entries: Seq<(String, V)>, i: int)
    requires
        unique_names(entries),
        0 <= i < entries.len(),
    ensures
        named(entries, entries[i].0@),
        place(entries, entries[i].0@) == i,
        by_name(entries).dom().contains(entries[i].0@),
        by_name(entries)[entries[i].0@] == entries[i].1,
{
    let name = entries[i].0@;
    assert(entries[i].0@ == name);
    let p = place(entries, name);
    assert(0 <= p < entries.len() && entries[p].0@ == name);
}

proof fn lemma_push<V>(entries: Seq<(String, V)>, name: String, value: V)
    requires
        unique_names(entries),
        !named(entries, name@),
    ensures
        unique_names(entries.push((name, value))),
        by_name(entries.push((name, value))) == by_name(entries).insert(name@, value),
{
    let after = entries.push((name, value));
    assert(unique_names(after)) by {
        assert forall|i: int, j: int| 0 <= i < after.len() && 0 <= j < after.len() && i != j implies (
        #[trigger] after[i]).0@ != (#[trigger] after[j]).0@ by {
            if i < entries.len() {
                assert(entries[i].0@ != name@);
            }
            if j < entries.len() {
                assert(entries[j].0@ != name@);
            }
        }
    }
    let left = by_name(after);
    let right = by_name(entries).insert(name@, value);
    lemma_place(after, entries.len() as int);
    assert forall|k: Seq<char>| left.dom().contains(k) == right.dom().contains(k) by {
        if named(entries, k) {
            let p = place(entries, k);
            assert(after[p].0@ == k);
        }
        if named(after, k) && k != name@ {
            let p = place(after, k);
            assert(p < entries.len());
            assert(entries[p].0@ == k);
        }
    }
    assert forall|k: Seq<char>| left.dom().contains(k) implies left[k] == right[k] by {
        if k != name@ {
            let p = place(after, k);
            assert(p < entries.len());
            lemma_place(entries, p);
        }
    }
    assert(left =~= right);
}

proof fn lemma_replace<V>(entries: Seq<(String, V)>, at: int, name: String, value: V)
    requires
        unique_names(entries),
        0 <= at < entries.len(),
        entries[at].0@ == name@,
    ensures
        unique_names(entries.update(at, (name, value))),
        by_name(entries.update(at, (name, value))) == by_name(entries).insert(name@, value),
{
    let after = entries.update(at, (name, value));
    assert(unique_names(after)) by {
        assert forall|i: int, j: int| 0 <= i < after.len() && 0 <= j < after.len() && i != j implies (
        #[trigger] after[i]).0@ != (#[trigger] after[j]).0@ by {
            assert(after[i].0@ == entries[i].0@);
            assert(after[j].0@ == entries[j].0@);
        }
    }
    let left = by_name(after);
    let right = by_name(entries).insert(name@, value);
    lemma_place(after, at);
    assert forall|k: Seq<char>| left.dom().contains(k) == right.dom().contains(k) by {
        if named(entries, k) {
            let p = place(entries, k);
            assert(after[p].0@ == k);
        }
        if named(after, k) {
            let p = place(after, k);
            assert(entries[p].0@ == k);
        }
    }
    assert forall|k: Seq<char>| left.dom().contains(k) implies left[k] == right[k] by {
        if k != name@ {
            let p = place(after, k);
            assert(entries[p].0@ == k);
            lemma_place(entries, p);
        }
    }
    assert(left =~= right);
}

proof fn lemma_remove<V>(entries: Seq<(String, V)>, at: int)
    requires
        unique_names(entries),
        0 <= at < entries.len(),
    ensures
        unique_names(entries.remove(at)),
        by_name(entries.remove(at)) == by_name(entries).remove(entries[at].0@),
{
    let after = entries.remove(at);
    let name = entries[at].0@;
    assert forall|i: int| 0 <= i < after.len() implies #[trigger] after[i] == entries[if i < at {
        i
    } else {
        i + 1
    }] by {}
    assert(unique_names(after));
    let left = by_name(after);
    let right = by_name(entries).remove(name);
    assert forall|k: Seq<char>| left.dom().contains(k) == right.dom().contains(k) by {
        if named(entries, k) && k != name {
            let p = place(entries, k);
            let q = if p < at {
                p
            } else {
                p - 1
            };
            assert(after[q].0@ == k);
        }
        if named(after, k) {
            let p = place(after, k);
            let q = if p < at {
                p
            } else {
                p + 1
            };
            assert(entries[q].0@ == k);
        }
    }
    assert forall|k: Seq<char>| left.dom().contains(k) implies left[k] == right[k] by {
        let p = place(after, k);
        let q = if p < at {
            p
        } else {
            p + 1
        };
        assert(entries[q].0@ == k);
        lemma_place(entries, q);
    }
    assert(left =~= right);
}

proof fn lemma_names<V>(entries: Seq<(String, V)>)
    requires
        unique_names(entries),
    ensures
        by_name(entries).dom().finite(),
        by_name(entries).dom().len() == entries.len(),
    decreases entries.len(),
{
    if entries.len() == 0 {
        assert(by_name(entries).dom() =~= Set::empty());
    } else {
        let front = entries.drop_last();
        let last = entries.last();
        assert(unique_names(front));
        assert(!named(front, last.0@)) by {
            if named(front, last.0@) {
                let p = place(front, last.0@);
                assert(entries[p].0@ == last.0@);
                assert(entries[entries.len() - 1].0@ == last.0@);
            }
        }
        lemma_push(front, last.0, last.1);
        assert(front.push((last.0, last.1)) == entries);
        lemma_names(front);
        assert(by_name(entries).dom() =~= by_name(front).dom().insert(last.0@));
    }
}

impl<V> View for Table<V> {
    type V = Map<Seq<char>, V>;

    closed spec fn view(&self) -> Map<Seq<char>, V> {
        by_name(self.entries@)
    }
}

impl<V> Table<V> {
    /// No name occurs twice.
    pub closed spec fn wf(&self) -> bool {
        unique_names(self.entries@)
    }

    /// The names and values in the order in which they are kept.
    pub closed spec fn in_order(&self) -> Seq<(String, V)> {
        self.entries@
    }

    /// What is kept in order is what is kept by name, each name once.
    pub proof fn lemma_in_order(&self)
        requires
            self.wf(),
        ensures
            by_name(self.in_order()) == self@,
            unique_names(self.in_order()),
            self@.dom().finite(),
            self@.dom().len() == self.in_order().len(),
            forall|i: int|
                0 <= i < self.in_order().len() ==> {
                    &&& self@.dom().contains((#[trigger] self.in_order()[i]).0@)
                    &&& self@[self.in_order()[i].0@] == self.in_order()[i].1
                },
            forall|name: Seq<char>| #[trigger]
                self@.dom().contains(name) ==> named(self.in_order(), name),
    {
        lemma_names(self.entries@);
        assert forall|i: int| 0 <= i < self.in_order().len() implies {
            &&& self@.dom().contains((#[trigger] self.in_order()[i]).0@)
            &&& self@[self.in_order()[i].0@] == self.in_order()[i].1
        } by {
            lemma_place(self.entries@, i);
        }
    }

    /// A table without values.
    pub fn new() -> (r: Self)
        ensures
            r.wf(),
            r@ == Map::<Seq<char>, V>::empty(),
            r.in_order() == Seq::<(String, V)>::empty(),
    {
        let r = Table { entries: Vec::new() };
        assert(r@ =~= Map::<Seq<char>, V>::empty());
        r
    }

    /// The number of names.
    pub fn len(&self) -> (r: usize)
        requires
            self.wf(),
        ensures
            r == self@.dom().len(),
            r == self.in_order().len(),
            self@.dom().finite(),
            r == 0 <==> self@ == Map::<Seq<char>, V>::empty(),
    {
        proof {
            lemma_names(self.entries@);
            if self.entries@.len() == 0 {
                assert(self@ =~= Map::<Seq<char>, V>::empty());
            } else {
                lemma_place(self.entries@, 0);
            }
        }
        self.entries.len()
    }

    fn position(&self, name: &str) -> (r: Option<usize>)
        requires
            self.wf(),
        ensures
            r is None ==> !named(self.entries@, name@),
            r matches Some(i) ==> i < self.entries@.len() && self.entries@[i as int].0@ == name@,
    {
        let mut i: usize = 0;
        while i < self.entries.len()
            invariant
                i <= self.entries@.len(),
                forall|k: int| 0 <= k < i ==> (#[trigger] self.entries@[k]).0@ != name@,
            decreases self.entries@.len() - i,
        {
            if same_text(self.entries[i].0.as_str(), name) {
                return Some(i);
            }
            i += 1;
        }
        None
    }

    /// Whether a name has a value.
    pub fn contains(&self, name: &str) -> (r: bool)
        requires
            self.wf(),
        ensures
            r == self@.dom().contains(name@),
    {
        match self.position(name) {
            Some(i) => {
                proof {
                    lemma_place(self.entries@, i as int);
                }
                true
            },
            None => false,
        }
    }

    /// The value of a name.
    pub fn get(&self, name: &str) -> (r: Option<&V>)
        requires
            self.wf(),
        ensures
            r is Some <==> self@.dom().contains(name@),
            r matches Some(v) ==> *v == self@[name@],
    {
        match self.position(name) {
            Some(i) => {
                proof {
                    lemma_place(self.entries@, i as int);
                }
                Some(&self.entries[i].1)
            },
            None => None,
        }
    }

    /// The name and the value at a position.
    pub fn at(&self, i: usize) -> (r: (&str, &V))
        requires
            self.wf(),
            i < self.in_order().len(),
        ensures
            r.0@ == self.in_order()[i as int].0@,
            *r.1 == self.in_order()[i as int].1,
            self@.dom().contains(r.0@),
            self@[r.0@] == *r.1,
    {
        proof {
            lemma_place(self.entries@, i as int);
        }
        (self.entries[i].0.as_str(), &self.entries[i].1)
    }

    /// The value at a position, to be changed.
    pub fn at_mut(&mut self, i: usize) -> (r: &mut V)
        requires
            old(self).wf(),
            i < old(self).in_order().len(),
        ensures
            *r == old(self).in_order()[i as int].1,
            final(self).wf(),
            final(self).in_order() == old(self).in_order().update(
                i as int,
                (old(self).in_order()[i as int].0, *final(r)),
            ),
    {
        &mut self.entries[i].1
    }

    /// Give a name a value: in the place of the one it had, or at the end if it
    /// had none.
    pub fn insert(&mut self, name: String, value: V)
        requires
            old(self).wf(),
        ensures
            final(self).wf(),
            final(self)@ == old(self)@.insert(name@, value),
            final(self).in_order() == (if named(old(self).in_order(), name@) {
                old(self).in_order().update(place(old(self).in_order(), name@), (name, value))
            } else {
                old(self).in_order().push((name, value))
            }),
    {
        match self.position(name.as_str()) {
            Some(i) => {
                proof {
                    lemma_replace(self.entries@, i as int, name, value);
                    lemma_place(self.entries@, i as int);
                }
                self.entries.set(i, (name, value));
            },
            None => {
                proof {
                    lemma_push(self.entries@, name, value);
                }
                self.entries.push((name, value));
            },
        }
    }

    /// Take a name and its value out. Returns the value it had. The others keep
    /// their order.
    pub fn remove(&mut self, name: &str) -> (r: Option<V>)
        requires
            old(self).wf(),
        ensures
            final(self).wf(),
            final(self)@ == old(self)@.remove(name@),
            final(self).in_order() == (if named(old(self).in_order(), name@) {
                old(self).in_order().remove(place(old(self).in_order(), name@))
            } else {
                old(self).in_order()
            }),
            r is Some <==> old(self)@.dom().contains(name@),
            r matches Some(v) ==> v == old(self)@[name@],
    {
        match self.position(name) {
            Some(i) => {
                proof {
                    lemma_remove(self.entries@, i as int);
                    lemma_place(self.entries@, i as int);
                }
                let (_, value) = self.entries.remove(i);
                Some(value)
            },
            None => {
                assert(self@ =~= self@.remove(name@));
                None
            },
        }
    }
}

/// What was put into a table is found there under its name, and what was there
/// under other names stays.
pub proof fn law_values_are_found<V>(
    table: &mut Table<V>,
    name: String,
    value: V,
    other: &str,
    before: Option<&V>,
    after: Option<&V>,
    present: bool,
)
    requires
        call_ensures(Table::<V>::get, (old(table), other), before),
        call_ensures(Table::<V>::insert, (table, name, value), ()),
        call_ensures(Table::<V>::get, (final(table), other), after),
        call_ensures(Table::<V>::contains, (final(table), other), present),
    ensures
        name@ == other@ ==> (after matches Some(v) && *v == value),
        name@ != other@ ==> (after is Some <==> before is Some),
        name@ != other@ ==> (after matches Some(v) ==> *v == *before->Some_0),
        present <==> after is Some,
{
}

/// What was taken out of a table is what was there, is there no more, and leaves
/// what was there under other names.
pub proof fn law_values_are_taken_out<V>(
    table: &mut Table<V>,
    name: &str,
    r: Option<V>,
    other: &str,
    before: Option<&V>,
    after: Option<&V>,
)
    requires
        call_ensures(Table::<V>::get, (old(table), other), before),
        call_ensures(Table::<V>::remove, (table, name), r),
        call_ensures(Table::<V>::get, (final(table), other), after),
    ensures
        name@ == other@ ==> after is None,
        name@ == other@ ==> (r is Some <==> before is Some),
        name@ == other@ ==> (r matches Some(v) ==> v == *before->Some_0),
        name@ != other@ ==> (after is Some <==> before is Some),
        name@ != other@ ==> (after matches Some(v) ==> *v == *before->Some_0),
{
}

} // verus!
