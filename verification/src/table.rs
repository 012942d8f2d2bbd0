//! The variable table: a mapping from names to typed values in which every
//! name occurs once and the last write wins.

use vstd::prelude::*;
use crate::parser::VariableType;

verus! {

/// A variable's value: its kind and its text, as it was written.
#[derive(Debug, PartialEq, Eq)]
pub struct Variable {
    pub variable_type: VariableType,
    pub value: String,
}

/// A variable's value as a plain value.
pub struct VariableView {
    pub kind: VariableType,
    pub text: Seq<char>,
}

impl View for Variable {
    type V = VariableView;

    open spec fn view(&self) -> VariableView {
        VariableView { kind: self.variable_type, text: self.value@ }
    }
}

impl Clone for Variable {
    fn clone(&self) -> (copy: Variable)
        ensures
            copy@ == self@,
    {
        Variable { variable_type: self.variable_type, value: self.value.clone() }
    }
}

struct Entry {
    name: String,
    variable: Variable,
}

/// The variables of a session, by name.
pub struct VariableTable {
    entries: Vec<Entry>,
}

impl VariableTable {
    /// Whether entry `i` is the one for `name`.
    spec fn holds(&self, i: int, name: Seq<char>) -> bool {
        0 <= i < self.entries.len() && self.entries[i].name@ == name
    }

    /// The table's invariant: no name has two entries.
    pub closed spec fn wf(&self) -> bool {
        forall|i: int, j: int|
            0 <= i < j < self.entries.len() ==> self.entries[i].name@ != self.entries[j].name@
    }

    /// A table without variables.
    pub fn new() -> (table: VariableTable)
        ensures
            table.wf(),
            table@ == Map::<Seq<char>, VariableView>::empty(),
    {
        let table = VariableTable { entries: Vec::new() };
        assert(table@ =~= Map::<Seq<char>, VariableView>::empty());
        table
    }

    /// The place of the entry for `name`, if there is one.
    fn position(&self, name: &String) -> (found: Option<usize>)
        ensures
            match found {
                Some(i) => self.holds(i as int, name@),
                None => forall|i: int| !self.holds(i, name@),
            },
    {
        let mut i: usize = 0;
        while i < self.entries.len()
            invariant
                i <= self.entries.len(),
                forall|j: int| 0 <= j < i ==> !self.holds(j, name@),
            decreases self.entries.len() - i,
        {
            if self.entries[i].name == *name {
                return Some(i);
            }
            i += 1;
        }
        None
    }

    /// The value of the variable `name`, if the table has one.
    pub fn get(&self, name: &String) -> (found: Option<Variable>)
        requires
            self.wf(),
        ensures
            match found {
                Some(variable) => self@.contains_key(name@) && variable@ == self@[name@],
                None => !self@.contains_key(name@),
            },
    {
        match self.position(name) {
            Some(i) => {
                proof {
                    let k = choose|k: int| self.holds(k, name@);
                    assert(k == i);
                }
                Some(self.entries[i].variable.clone())
            },
            None => None,
        }
    }

    /// Gives the variable `name` the value `variable`, whether or not the
    /// table had one of that name. The other variables stay as they are.
    pub fn insert(&mut self, name: String, variable: Variable)
        requires
            old(self).wf(),
        ensures
            final(self).wf(),
            final(self)@ == old(self)@.insert(name@, variable@),
    {
        let ghost before = *self;
        let ghost target = name@;
        let ghost value = variable@;
        match self.position(&name) {
            Some(i) => {
                self.entries[i] = Entry { name, variable };
                proof {
                    assert forall|a: int, b: int| 0 <= a < b < self.entries.len() implies self.entries[a].name@
                        != self.entries[b].name@ by {
                        assert(before.entries[a].name@ == self.entries[a].name@);
                        assert(before.entries[b].name@ == self.entries[b].name@);
                    }
                    assert forall|n: Seq<char>, k: int| self.holds(k, n) == before.holds(k, n) by {}
                    assert forall|n: Seq<char>| #[trigger]
                        self@.contains_key(n) == before@.insert(target, value).contains_key(n) by {
                        if n == target {
                            assert(self.holds(i as int, n));
                        } else if before@.contains_key(n) {
                            let k = choose|k: int| before.holds(k, n);
                            assert(self.holds(k, n));
                        } else if self@.contains_key(n) {
                            let k = choose|k: int| self.holds(k, n);
                            assert(before.holds(k, n));
                        }
                    }
                    assert forall|n: Seq<char>| #[trigger] self@.contains_key(n) implies self@[n]
                        == before@.insert(target, value)[n] by {
                        let k = choose|k: int| self.holds(k, n);
                        if n == target {
                            assert(k == i);
                        } else {
                            let b = choose|b: int| before.holds(b, n);
                            assert(before.holds(k, n));
                            assert(b == k);
                        }
                    }
                    assert(self@ =~= before@.insert(target, value));
                }
            },
            None => {
                self.entries.push(Entry { name, variable });
                proof {
                    let last = before.entries.len() as int;
                    assert forall|a: int, b: int| 0 <= a < b < self.entries.len() implies self.entries[a].name@
                        != self.entries[b].name@ by {
                        assert(before.entries[a].name@ == self.entries[a].name@);
                        if b == last {
                            assert(!before.holds(a, target));
                        } else {
                            assert(before.entries[b].name@ == self.entries[b].name@);
                        }
                    }
                    assert forall|n: Seq<char>| #[trigger]
                        self@.contains_key(n) == before@.insert(target, value).contains_key(n) by {
                        if n == target {
                            assert(self.holds(last, n));
                        } else if before@.contains_key(n) {
                            let k = choose|k: int| before.holds(k, n);
                            assert(self.holds(k, n));
                        } else if self@.contains_key(n) {
                            let k = choose|k: int| self.holds(k, n);
                            assert(before.holds(k, n));
                        }
                    }
                    assert forall|n: Seq<char>| #[trigger] self@.contains_key(n) implies self@[n]
                        == before@.insert(target, value)[n] by {
                        let k = choose|k: int| self.holds(k, n);
                        if n == target {
                            assert(!before.holds(k, n));
                            assert(k == last);
                        } else {
                            let b = choose|b: int| before.holds(b, n);
                            assert(before.holds(k, n));
                            assert(b == k);
                        }
                    }
                    assert(self@ =~= before@.insert(target, value));
                }
            },
        }
    }
}

impl View for VariableTable {
    type V = Map<Seq<char>, VariableView>;

    closed spec fn view(&self) -> Map<Seq<char>, VariableView> {
        Map::new(
            |name: Seq<char>| exists|i: int| self.holds(i, name),
            |name: Seq<char>| self.entries[choose|i: int| self.holds(i, name)].variable@,
        )
    }
}

} // verus!
