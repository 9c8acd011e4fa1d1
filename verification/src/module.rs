//! Modules: collections of functions, identified by call hashes.

use vstd::prelude::*;

verus! {

/// A module, as far as function resolution sees it: an optional identifier
/// and the hashes of the functions it holds.
pub struct Module {
    /// The module's identifier (usually the path it was loaded from).
    pub id: Option<String>,
    /// Hashes of the functions callable by their plain name.
    pub functions: Vec<u64>,
    /// Hashes of the functions callable by a qualified (`module::name`) path.
    pub qualified_functions: Vec<u64>,
}

/// The mathematical value of a module.
pub struct ModuleView {
    pub id: Option<String>,
    pub functions: Seq<u64>,
    pub qualified_functions: Seq<u64>,
}

impl View for Module {
    type V = ModuleView;

    open spec fn view(&self) -> ModuleView {
        ModuleView {
            id: self.id,
            functions: self.functions@,
            qualified_functions: self.qualified_functions@,
        }
    }
}

/// Does `hashes` hold `hash`?
pub open spec fn holds_hash(hashes: Seq<u64>, hash: u64) -> bool {
    exists|i: int| 0 <= i < hashes.len() && hashes[i] == hash
}

fn vec_holds(hashes: &Vec<u64>, hash: u64) -> (r: bool)
    ensures
        r == holds_hash(hashes@, hash),
{
    let mut i: usize = 0;
    while i < hashes.len()
        invariant
            i <= hashes@.len(),
            forall|j: int| 0 <= j < i ==> hashes@[j] != hash,
        decreases hashes@.len() - i,
    {
        if hashes[i] == hash {
            return true;
        }
        i += 1;
    }
    false
}

fn copy_hashes(hashes: &Vec<u64>) -> (r: Vec<u64>)
    ensures
        r@ == hashes@,
{
    let mut r: Vec<u64> = Vec::new();
    let mut i: usize = 0;
    while i < hashes.len()
        invariant
            i <= hashes@.len(),
            r@ == hashes@.subrange(0, i as int),
        decreases hashes@.len() - i,
    {
        r.push(hashes[i]);
        i += 1;
        assert(r@ =~= hashes@.subrange(0, i as int));
    }
    assert(hashes@.subrange(0, i as int) =~= hashes@);
    r
}

impl Module {
    /// An empty module with the given identifier.
    pub fn new(id: Option<String>) -> (m: Module)
        ensures
            m@ == (ModuleView {
                id,
                functions: Seq::empty(),
                qualified_functions: Seq::empty(),
            }),
    {
        Module { id, functions: Vec::new(), qualified_functions: Vec::new() }
    }

    /// Add a function callable by its plain name.
    pub fn add_function(&mut self, hash: u64)
        ensures
            final(self)@ == (ModuleView { functions: old(self)@.functions.push(hash), ..old(self)@ }),
    {
        self.functions.push(hash);
    }

    /// Add a function callable by a qualified path.
    pub fn add_qualified_function(&mut self, hash: u64)
        ensures
            final(self)@ == (ModuleView {
                qualified_functions: old(self)@.qualified_functions.push(hash),
                ..old(self)@
            }),
    {
        self.qualified_functions.push(hash);
    }

    /// The module's identifier, if any.
    pub fn id(&self) -> (r: Option<&str>)
        ensures
            r.is_some() == self.id.is_some(),
            r.is_some() ==> r.unwrap()@ == self.id.unwrap()@,
    {
        match &self.id {
            Some(s) => Some(s.as_str()),
            None => None,
        }
    }

    /// Does the module hold a function with this hash?
    pub fn contains_fn(&self, hash: u64) -> (r: bool)
        ensures
            r == holds_hash(self@.functions, hash),
    {
        vec_holds(&self.functions, hash)
    }

    /// Does the module hold a function with this qualified hash?
    pub fn contains_qualified_fn(&self, hash: u64) -> (r: bool)
        ensures
            r == holds_hash(self@.qualified_functions, hash),
    {
        vec_holds(&self.qualified_functions, hash)
    }

    /// A copy of the module.
    pub fn duplicate(&self) -> (r: Module)
        ensures
            r@ == self@,
    {
        let id = match &self.id {
            Some(s) => Some(s.clone()),
            None => None,
        };
        Module {
            id,
            functions: copy_hashes(&self.functions),
            qualified_functions: copy_hashes(&self.qualified_functions),
        }
    }
}

} // verus!
