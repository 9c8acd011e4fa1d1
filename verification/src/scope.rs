//! The variable scope a script runs in.

use crate::dynamic::Dynamic;
use vstd::prelude::*;

verus! {

/// A stack of named variables; later entries shadow earlier ones of the same name.
pub struct Scope {
    vars: Vec<(String, Dynamic)>,
}

impl View for Scope {
    type V = Seq<(String, Dynamic)>;

    open spec fn view(&self) -> Seq<(String, Dynamic)> {
        self.spec_vars()
    }
}

/// Does `vars` hold a variable whose name is `name`?
pub open spec fn vars_contain(vars: Seq<(String, Dynamic)>, name: Seq<char>) -> bool {
    exists|i: int| 0 <= i < vars.len() && (#[trigger] vars[i]).0@ == name
}

/// The index of the newest variable named `name` in `vars`, if any.
pub open spec fn newest_index(vars: Seq<(String, Dynamic)>, name: Seq<char>) -> Option<int>
    decreases vars.len(),
{
    if vars.len() == 0 {
        None
    } else if vars.last().0@ == name {
        Some(vars.len() - 1)
    } else {
        newest_index(vars.drop_last(), name)
    }
}

/// `vars` with the `len` entries starting at `start` taken out.
pub open spec fn remove_range_spec(vars: Seq<(String, Dynamic)>, start: int, len: int) -> Seq<
    (String, Dynamic),
> {
    vars.subrange(0, start) + vars.subrange(start + len, vars.len() as int)
}

/// `vars` cut back to at most `size` entries.
pub open spec fn rewind_spec(vars: Seq<(String, Dynamic)>, size: int) -> Seq<(String, Dynamic)> {
    if size < vars.len() {
        vars.subrange(0, size)
    } else {
        vars
    }
}

/// Facts about `newest_index`: it points at a matching entry, and it exists exactly when one does.
proof fn lemma_newest_index(vars: Seq<(String, Dynamic)>, name: Seq<char>)
    ensures
        newest_index(vars, name) is Some <==> vars_contain(vars, name),
        newest_index(vars, name) matches Some(i) ==> 0 <= i < vars.len() && vars[i].0@ == name
            && forall|j: int| i < j < vars.len() ==> vars[j].0@ != name,
    decreases vars.len(),
{
    if vars.len() > 0 {
        lemma_newest_index(vars.drop_last(), name);
        if vars.last().0@ != name {
            if vars_contain(vars, name) {
                let i = choose|i: int| 0 <= i < vars.len() && (#[trigger] vars[i]).0@ == name;
                assert(vars.drop_last()[i] == vars[i]);
            }
            if vars_contain(vars.drop_last(), name) {
                let i = choose|i: int|
                    0 <= i < vars.drop_last().len() && (#[trigger] vars.drop_last()[i]).0@ == name;
                assert(vars[i] == vars.drop_last()[i]);
            }
            if let Some(i) = newest_index(vars, name) {
                assert forall|j: int| i < j < vars.len() implies vars[j].0@ != name by {
                    if j < vars.len() - 1 {
                        assert(vars[j] == vars.drop_last()[j]);
                    }
                }
            }
        }
    }
}

impl Scope {
    /// The variables, oldest first.
    pub closed spec fn spec_vars(&self) -> Seq<(String, Dynamic)> {
        self.vars@
    }

    /// An empty scope.
    pub fn new() -> (s: Scope)
        ensures
            s@ == Seq::<(String, Dynamic)>::empty(),
    {
        Scope { vars: Vec::new() }
    }

    /// The number of variables.
    pub fn len(&self) -> (n: usize)
        ensures
            n == self@.len(),
    {
        self.vars.len()
    }

    /// Is the scope empty?
    pub fn is_empty(&self) -> (b: bool)
        ensures
            b == (self@.len() == 0),
    {
        self.vars.len() == 0
    }

    /// Is there a variable named `name`?
    pub fn contains(&self, name: &str) -> (b: bool)
        ensures
            b == vars_contain(self@, name@),
    {
        let name = name.to_owned();
        self.contains_name(&name)
    }

    /// Is there a variable named `name`?
    pub fn contains_name(&self, name: &String) -> (b: bool)
        ensures
            b == vars_contain(self@, name@),
    {
        let mut i: usize = 0;
        while i < self.vars.len()
            invariant
                i <= self.vars@.len(),
                forall|j: int| 0 <= j < i ==> (#[trigger] self.vars@[j]).0@ != name@,
            decreases self.vars@.len() - i,
        {
            if self.vars[i].0 == *name {
                assert(self.vars@[i as int].0@ == name@);
                return true;
            }
            i += 1;
        }
        false
    }

    /// The index of the newest variable named `name`, if any.
    pub fn index_of(&self, name: &str) -> (r: Option<usize>)
        ensures
            r matches Some(i) ==> newest_index(self@, name@) == Some(i as int),
            r is None ==> newest_index(self@, name@) is None,
    {
        let key = name.to_owned();
        let mut i: usize = self.vars.len();
        assert(self.vars@.subrange(0, i as int) =~= self.vars@);
        while i > 0
            invariant
                i <= self.vars@.len(),
                key@ == name@,
                newest_index(self.vars@, key@) == newest_index(self.vars@.subrange(0, i as int), key@),
            decreases i,
        {
            let ghost prefix = self.vars@.subrange(0, i as int);
            assert(prefix.drop_last() =~= self.vars@.subrange(0, i - 1));
            if self.vars[i - 1].0 == key {
                assert(prefix.last() == self.vars@[i - 1]);
                assert(prefix.last().0@ == key@);
                assert(newest_index(prefix, key@) == Some(i - 1));
                return Some(i - 1);
            }
            i -= 1;
        }
        assert(self.vars@.subrange(0, 0) =~= Seq::<(String, Dynamic)>::empty());
        None
    }

    /// The value of the newest variable named `name`, if any.
    pub fn get_value(&self, name: &str) -> (r: Option<&Dynamic>)
        ensures
            r matches Some(v) ==> (newest_index(self@, name@) matches Some(i) && *v == self@[i].1),
            r is None ==> newest_index(self@, name@) is None,
    {
        proof {
            lemma_newest_index(self@, name@);
        }
        match self.index_of(name) {
            Some(i) => Some(&self.vars[i].1),
            None => None,
        }
    }

    /// The name and value of the variable at `index`.
    pub fn get_at(&self, index: usize) -> (r: &(String, Dynamic))
        requires
            index < self@.len(),
        ensures
            *r == self@[index as int],
    {
        &self.vars[index]
    }

    /// Replace the value of the variable at `index`.
    pub fn set_at(&mut self, index: usize, value: Dynamic)
        requires
            index < old(self)@.len(),
        ensures
            final(self)@ == old(self)@.update(index as int, (old(self)@[index as int].0, value)),
    {
        let name = self.vars[index].0.clone();
        self.vars.set(index, (name, value));
    }

    /// Add a variable.
    pub fn push_dynamic(&mut self, name: String, value: Dynamic)
        ensures
            final(self)@ == old(self)@.push((name, value)),
    {
        self.vars.push((name, value));
    }

    /// Add a variable whose name is given as text.
    pub fn push(&mut self, name: &str, value: Dynamic)
        ensures
            final(self)@.len() == old(self)@.len() + 1,
            final(self)@.drop_last() == old(self)@,
            final(self)@.last().0@ == name@,
            final(self)@.last().1 == value,
    {
        let name = name.to_owned();
        self.vars.push((name, value));
    }

    /// Cut the scope back to at most `size` variables.
    pub fn rewind(&mut self, size: usize)
        ensures
            final(self)@ == rewind_spec(old(self)@, size as int),
    {
        self.vars.truncate(size);
    }

    /// Take out the `len` variables starting at `start`.
    pub fn remove_range(&mut self, start: usize, len: usize)
        requires
            start + len <= old(self)@.len(),
        ensures
            final(self)@ == remove_range_spec(old(self)@, start as int, len as int),
    {
        let ghost orig = self.vars@;
        let mut k: usize = 0;
        while k < len
            invariant
                k <= len,
                start + len <= orig.len(),
                self.vars@ == orig.subrange(0, start as int) + orig.subrange(
                    start + k,
                    orig.len() as int,
                ),
            decreases len - k,
        {
            let ghost before = self.vars@;
            self.vars.remove(start);
            assert(self.vars@ =~= orig.subrange(0, start as int) + orig.subrange(
                start + k + 1,
                orig.len() as int,
            ));
            k += 1;
        }
    }
}

} // verus!
