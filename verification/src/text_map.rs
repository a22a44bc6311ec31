//! A map from names to values that remembers the order in which the names
//! were first entered.

use vstd::prelude::*;

verus! {

/// The entries of a map: each name with its value, in order of entry.
pub type Entries<T> = Seq<(Seq<char>, T)>;

/// The first position at which `name` is entered in `m`; `m.len()` where it
/// is not entered.
pub open spec fn position<T>(m: Entries<T>, name: Seq<char>) -> int
    decreases m.len(),
{
    if m.len() == 0 {
        0
    } else if m[0].0 == name {
        0
    } else {
        1 + position(m.drop_first(), name)
    }
}

/// `name` is entered in `m`.
pub open spec fn has_name<T>(m: Entries<T>, name: Seq<char>) -> bool {
    position(m, name) < m.len()
}

/// The value entered for `name`.
pub open spec fn lookup<T>(m: Entries<T>, name: Seq<char>) -> Option<T> {
    if has_name(m, name) {
        Some(m[position(m, name)].1)
    } else {
        None
    }
}

/// `m` with `value` entered for `name`: in place of the value that `name`
/// had, or at the end if it had none.
pub open spec fn put<T>(m: Entries<T>, name: Seq<char>, value: T) -> Entries<T> {
    if has_name(m, name) {
        m.update(position(m, name), (name, value))
    } else {
        m.push((name, value))
    }
}

/// No name is entered twice.
pub open spec fn distinct_names<T>(m: Entries<T>) -> bool {
    forall|i: int, j: int| 0 <= i < j < m.len() ==> (#[trigger] m[i]).0 != (#[trigger] m[j]).0
}

/// Where `position` points: at the first entry of the name, and past the
/// end exactly when there is none.
pub proof fn lemma_position<T>(m: Entries<T>, name: Seq<char>)
    ensures
        0 <= position(m, name) <= m.len(),
        has_name(m, name) ==> m[position(m, name)].0 == name,
        forall|j: int| 0 <= j < position(m, name) ==> (#[trigger] m[j]).0 != name,
    decreases m.len(),
{
    if m.len() > 0 && m[0].0 != name {
        let t = m.drop_first();
        lemma_position(t, name);
        assert forall|j: int| 0 <= j < position(m, name) implies (#[trigger] m[j]).0 != name by {
            if j > 0 {
                assert(m[j] == t[j - 1]);
            }
        }
    }
}

/// An entry of the name with none before it is where `position` points.
pub proof fn lemma_position_is<T>(m: Entries<T>, name: Seq<char>, i: int)
    requires
        0 <= i <= m.len(),
        i < m.len() ==> m[i].0 == name,
        forall|j: int| 0 <= j < i ==> (#[trigger] m[j]).0 != name,
    ensures
        position(m, name) == i,
{
    lemma_position(m, name);
}

/// Entering a value keeps the names distinct.
pub proof fn lemma_put_distinct<T>(m: Entries<T>, name: Seq<char>, value: T)
    requires
        distinct_names(m),
    ensures
        distinct_names(put(m, name, value)),
{
    lemma_position(m, name);
}

/// After entering a value for a name, that name has the value and every
/// other name has what it had.
pub proof fn lemma_put_lookup<T>(m: Entries<T>, name: Seq<char>, value: T, other: Seq<char>)
    ensures
        lookup(put(m, name, value), other) == if other == name {
            Some(value)
        } else {
            lookup(m, other)
        },
{
    lemma_position(m, name);
    lemma_position(m, other);
    let r = put(m, name, value);
    let p = position(m, name);
    let q = position(m, other);
    if other == name {
        lemma_position_is(r, name, p);
    } else {
        if q < m.len() {
            lemma_position_is(r, other, q);
        } else {
            if has_name(m, name) {
                lemma_position_is(r, other, q);
            } else {
                lemma_position_is(r, other, q + 1);
            }
        }
    }
}

/// A map from names to values, in order of entry.
pub struct TextMap<V> {
    pub entries: Vec<(String, V)>,
}

impl<V: View> View for TextMap<V> {
    type V = Entries<V::V>;

    open spec fn view(&self) -> Entries<V::V> {
        Seq::new(self.entries@.len(), |i: int| (self.entries@[i].0@, self.entries@[i].1@))
    }
}

impl<V: View> TextMap<V> {
    /// No name is entered twice.
    pub open spec fn wf(&self) -> bool {
        distinct_names(self@)
    }

    /// The empty map.
    pub fn new() -> (r: Self)
        ensures
            r@ == Entries::<V::V>::empty(),
            r.wf(),
    {
        let r = TextMap { entries: Vec::new() };
        r
    }

    /// The number of names entered.
    pub fn len(&self) -> (r: usize)
        ensures
            r == self@.len(),
    {
        self.entries.len()
    }

    /// The position at which `name` is entered, or `len()`.
    pub fn position_of(&self, name: &String) -> (r: usize)
        ensures
            r == position(self@, name@),
            r <= self@.len(),
    {
        let mut i: usize = 0;
        while i < self.entries.len()
            invariant
                i <= self.entries.len(),
                forall|j: int| 0 <= j < i ==> (#[trigger] self@[j]).0 != name@,
            decreases self.entries.len() - i,
        {
            if self.entries[i].0 == *name {
                proof {
                    lemma_position_is(self@, name@, i as int);
                }
                return i;
            }
            i += 1;
        }
        proof {
            lemma_position_is(self@, name@, i as int);
        }
        i
    }

    /// Whether `name` is entered.
    pub fn contains_key(&self, name: &String) -> (r: bool)
        ensures
            r == has_name(self@, name@),
    {
        self.position_of(name) < self.entries.len()
    }

    /// The value entered for `name`.
    pub fn get(&self, name: &String) -> (r: Option<&V>)
        ensures
            match r {
                Some(v) => lookup(self@, name@) == Some(v@),
                None => lookup(self@, name@) is None,
            },
    {
        let i: usize = self.position_of(name);
        if i < self.entries.len() {
            Some(&self.entries[i].1)
        } else {
            None
        }
    }

    /// The name entered at position `i`.
    pub fn name_at(&self, i: usize) -> (r: &String)
        requires
            i < self@.len(),
        ensures
            r@ == self@[i as int].0,
    {
        &self.entries[i].0
    }

    /// The value entered at position `i`.
    pub fn value_at(&self, i: usize) -> (r: &V)
        requires
            i < self@.len(),
        ensures
            r@ == self@[i as int].1,
    {
        &self.entries[i].1
    }

    /// Enters `value` for `name`: in place of the value that `name` had, or
    /// at the end if it had none.
    pub fn insert(&mut self, name: String, value: V)
        ensures
            final(self)@ == put(old(self)@, name@, value@),
            old(self).wf() ==> final(self).wf(),
    {
        let i: usize = self.position_of(&name);
        proof {
            if self.wf() {
                lemma_put_distinct(self@, name@, value@);
            }
        }
        if i < self.entries.len() {
            self.entries[i] = (name, value);
            assert(self@ =~= put(old(self)@, name@, value@));
        } else {
            self.entries.push((name, value));
        }
    }
}

} // verus!
