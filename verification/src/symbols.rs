//! Symbol tables: names bound to addresses while a program is translated.

use crate::inst::Pointer;
use crate::text::{same, Token};
use vstd::prelude::*;

verus! {

/// The bindings that result from making `entries` one after the other: a
/// later entry replaces an earlier one of the same name.
pub open spec fn bound<'a, V>(entries: Seq<(&'a str, V)>) -> Map<Token, V>
    decreases entries.len(),
{
    if entries.len() == 0 {
        Map::empty()
    } else {
        bound(entries.drop_last()).insert(entries.last().0@, entries.last().1)
    }
}

/// Names bound to values. Each name is bound at most once; binding it again
/// replaces what it was bound to.
pub struct Table<'a, V> {
    entries: Vec<(&'a str, V)>,
}

impl<'a, V> View for Table<'a, V> {
    type V = Map<Token, V>;

    closed spec fn view(&self) -> Map<Token, V> {
        bound(self.entries@)
    }
}

impl<'a, V: Copy> Table<'a, V> {
    /// A table that binds nothing.
    pub fn new() -> (t: Self)
        ensures
            t@ == Map::<Token, V>::empty(),
    {
        Table { entries: Vec::new() }
    }

    /// Binds `name` to `value`.
    pub fn insert(&mut self, name: &'a str, value: V)
        ensures
            final(self)@ == old(self)@.insert(name@, value),
    {
        self.entries.push((name, value));
        assert(self.entries@.drop_last() =~= old(self).entries@);
    }

    /// What `name` is bound to, if it is bound.
    pub fn get(&self, name: &str) -> (r: Option<V>)
        ensures
            r == (if self@.contains_key(name@) {
                Some(self@[name@])
            } else {
                None
            }),
    {
        let mut i = self.entries.len();
        assert(self.entries@.take(i as int) =~= self.entries@);
        while i > 0
            invariant
                i <= self.entries@.len(),
                self@.contains_key(name@) == bound(self.entries@.take(i as int)).contains_key(
                    name@,
                ),
                self@.contains_key(name@) ==> self@[name@] == bound(
                    self.entries@.take(i as int),
                )[name@],
            decreases i,
        {
            i -= 1;
            assert(self.entries@.take(i + 1).drop_last() =~= self.entries@.take(i as int));
            let entry = self.entries[i];
            if same(entry.0, name) {
                return Some(entry.1);
            }
        }
        None
    }
}

/// Where each label stands.
pub type Labels<'a> = Table<'a, Pointer>;

/// Where each procedure begins and where control goes to skip it: the
/// address of its opening line, and the address just past its closing line.
/// The first always lies below the second.
pub struct Procedures<'a> {
    table: Table<'a, (Pointer, Pointer)>,
}

impl<'a> View for Procedures<'a> {
    type V = Map<Token, (Pointer, Pointer)>;

    closed spec fn view(&self) -> Map<Token, (Pointer, Pointer)> {
        self.table@
    }
}

impl<'a> Procedures<'a> {
    #[verifier::type_invariant]
    spec fn ordered(self) -> bool {
        forall|name: Token| #[trigger]
            self.table@.contains_key(name) ==> self.table@[name].0 < self.table@[name].1
    }

    /// A table without procedures.
    pub fn new() -> (t: Self)
        ensures
            t@ == Map::<Token, (Pointer, Pointer)>::empty(),
    {
        Procedures { table: Table::new() }
    }

    /// Records the procedure `name`, which opens at `start` and is skipped
    /// by going to `exit`.
    pub fn insert(&mut self, name: &'a str, start: Pointer, exit: Pointer)
        requires
            start < exit,
        ensures
            final(self)@ == old(self)@.insert(name@, (start, exit)),
    {
        proof {
            use_type_invariant(&*self);
        }
        // The table is taken out while it grows, so that `self` holds an
        // ordered table at every moment.
        let mut table = Table::new();
        core::mem::swap(&mut self.table, &mut table);
        table.insert(name, (start, exit));
        self.table = table;
    }

    /// The opening and the exit address of procedure `name`, if there is one.
    pub fn get(&self, name: &str) -> (r: Option<(Pointer, Pointer)>)
        ensures
            r == (if self@.contains_key(name@) {
                Some(self@[name@])
            } else {
                None
            }),
            r matches Some(found) ==> found.0 < found.1,
    {
        proof {
            use_type_invariant(self);
        }
        self.table.get(name)
    }
}

} // verus!
