//! Run-time state carried through an evaluation: the global state and the
//! function-resolution caches.

use crate::bloom::BloomFilterU64;
use crate::dynamic::Dynamic;
use crate::func_args::BorrowedOpaquePointer;
use crate::module::{holds_hash, Module};
use std::collections::HashMap;
use vstd::prelude::*;

verus! {

/// A borrowed binding as the running script sees it.
#[derive(Debug)]
pub enum ActiveBorrowedValue {
    /// A lent script value, held in a shared cell (the handle to it).
    Dynamic(Dynamic),
    /// A lent opaque host value.
    Opaque(BorrowedOpaquePointer),
}

/// The global state of an evaluation.
pub struct GlobalRuntimeState {
    /// Script-defined function libraries, in the order they were merged in.
    pub lib: Vec<Module>,
    /// Imported modules with the names they were imported under, oldest first.
    pub imports: Vec<(String, Module)>,
    /// The global constants visible to functions, if any.
    pub constants: Option<Vec<(String, Dynamic)>>,
    /// The borrowed bindings of the innermost call that lent any, each name at
    /// most once: a later binding under a name replaces the earlier one.
    pub active_borrowed_scope: Option<Vec<(String, ActiveBorrowedValue)>>,
    /// The cells of the shared store; `Dynamic::Shared(i)` refers to cell `i`.
    pub shared_values: Vec<Dynamic>,
    /// The source of the script being run, if known.
    pub source: Option<String>,
    /// The current function-call nesting level.
    pub level: usize,
    /// The number of operations performed so far.
    pub num_operations: u64,
}

/// Do the two import lists hold the same names and modules?
pub open spec fn same_imports(a: Seq<(String, Module)>, b: Seq<(String, Module)>) -> bool {
    &&& a.len() == b.len()
    &&& forall|i: int| 0 <= i < a.len() ==> (#[trigger] a[i]).0 == b[i].0 && a[i].1@ == b[i].1@
}

/// Do the two module lists hold the same modules?
pub open spec fn same_modules(a: Seq<Module>, b: Seq<Module>) -> bool {
    &&& a.len() == b.len()
    &&& forall|i: int| 0 <= i < a.len() ==> (#[trigger] a[i])@ == b[i]@
}

/// Does some module of `imports` hold a qualified function with this hash?
pub open spec fn any_import_has_qualified(imports: Seq<(String, Module)>, hash: u64) -> bool {
    exists|i: int|
        0 <= i < imports.len() && holds_hash((#[trigger] imports[i]).1@.qualified_functions, hash)
}

/// Copy a list of modules.
pub(crate) fn copy_modules(mods: &Vec<Module>) -> (r: Vec<Module>)
    ensures
        same_modules(r@, mods@),
{
    let mut r: Vec<Module> = Vec::new();
    let mut i: usize = 0;
    while i < mods.len()
        invariant
            i <= mods@.len(),
            r@.len() == i,
            forall|j: int| 0 <= j < i ==> (#[trigger] r@[j])@ == mods@[j]@,
        decreases mods@.len() - i,
    {
        r.push(mods[i].duplicate());
        i += 1;
    }
    r
}

/// Copy a list of named variables.
pub(crate) fn copy_vars(vars: &Vec<(String, Dynamic)>) -> (r: Vec<(String, Dynamic)>)
    ensures
        r@ == vars@,
{
    let mut r: Vec<(String, Dynamic)> = Vec::new();
    let mut i: usize = 0;
    while i < vars.len()
        invariant
            i <= vars@.len(),
            r@ == vars@.subrange(0, i as int),
        decreases vars@.len() - i,
    {
        let (n, v) = &vars[i];
        r.push((n.clone(), v.duplicate()));
        i += 1;
        assert(r@ =~= vars@.subrange(0, i as int));
    }
    assert(vars@.subrange(0, i as int) =~= vars@);
    r
}

impl GlobalRuntimeState {
    /// A fresh global state: nothing merged in or imported, at level 0.
    pub fn new() -> (g: GlobalRuntimeState)
        ensures
            g.lib@.len() == 0,
            g.imports@.len() == 0,
            g.constants is None,
            g.active_borrowed_scope is None,
            g.shared_values@.len() == 0,
            g.source is None,
            g.level == 0,
            g.num_operations == 0,
    {
        GlobalRuntimeState {
            lib: Vec::new(),
            imports: Vec::new(),
            constants: None,
            active_borrowed_scope: None,
            shared_values: Vec::new(),
            source: None,
            level: 0,
            num_operations: 0,
        }
    }

    /// The number of imported modules.
    pub fn num_imports(&self) -> (n: usize)
        ensures
            n == self.imports@.len(),
    {
        self.imports.len()
    }

    /// Import a module under a name.
    pub fn push_import(&mut self, name: String, module: Module)
        ensures
            final(self).imports@ == old(self).imports@.push((name, module)),
            final(self).lib == old(self).lib,
            final(self).constants == old(self).constants,
            final(self).active_borrowed_scope == old(self).active_borrowed_scope,
            final(self).shared_values == old(self).shared_values,
            final(self).source == old(self).source,
            final(self).level == old(self).level,
            final(self).num_operations == old(self).num_operations,
    {
        self.imports.push((name, module));
    }

    /// Drop the imports beyond the first `size`.
    pub fn truncate_imports(&mut self, size: usize)
        ensures
            final(self).imports@ == (if size < old(self).imports@.len() {
                old(self).imports@.subrange(0, size as int)
            } else {
                old(self).imports@
            }),
            final(self).lib == old(self).lib,
            final(self).constants == old(self).constants,
            final(self).active_borrowed_scope == old(self).active_borrowed_scope,
            final(self).shared_values == old(self).shared_values,
            final(self).source == old(self).source,
            final(self).level == old(self).level,
            final(self).num_operations == old(self).num_operations,
    {
        self.imports.truncate(size);
    }

    /// Does an imported module hold a qualified function with this hash?
    pub fn contains_qualified_fn(&self, hash: u64) -> (r: bool)
        ensures
            r == any_import_has_qualified(self.imports@, hash),
    {
        let mut i: usize = 0;
        while i < self.imports.len()
            invariant
                i <= self.imports@.len(),
                forall|j: int|
                    0 <= j < i ==> !holds_hash(
                        (#[trigger] self.imports@[j]).1@.qualified_functions,
                        hash,
                    ),
            decreases self.imports@.len() - i,
        {
            if self.imports[i].1.contains_qualified_fn(hash) {
                return true;
            }
            i += 1;
        }
        false
    }

    /// The source of the script being run, if known.
    pub fn source(&self) -> (r: Option<&str>)
        ensures
            r.is_some() == self.source.is_some(),
            r.is_some() ==> r.unwrap()@ == self.source.unwrap()@,
    {
        match &self.source {
            Some(s) => Some(s.as_str()),
            None => None,
        }
    }
}

/// A resolved function in the resolution cache.
#[derive(Debug, Clone, Copy, PartialEq, Eq, Structural)]
pub struct FnResolutionCacheEntry {
    /// The hash of the function that was resolved.
    pub func: u64,
}

/// A cache of function resolutions: per call hash, the function it resolved
/// to or `None` for "not found"; plus a filter of hashes looked up and not found.
pub struct FnResolutionCache {
    pub dict: HashMap<u64, Option<FnResolutionCacheEntry>>,
    pub bloom_filter: BloomFilterU64,
}

impl FnResolutionCache {
    /// An empty cache.
    pub fn new() -> (c: FnResolutionCache)
        ensures
            c.dict@ == Map::<u64, Option<FnResolutionCacheEntry>>::empty(),
            c.bloom_filter@ == Set::<int>::empty(),
    {
        FnResolutionCache { dict: HashMap::new(), bloom_filter: BloomFilterU64::new() }
    }
}

/// A stack of function-resolution caches, one per nested function scope.
pub struct Caches {
    pub fn_resolution: Vec<FnResolutionCache>,
}

impl Caches {
    /// No caches.
    pub fn new() -> (c: Caches)
        ensures
            c.fn_resolution@.len() == 0,
    {
        Caches { fn_resolution: Vec::new() }
    }

    /// The number of caches on the stack.
    pub fn fn_resolution_caches_len(&self) -> (n: usize)
        ensures
            n == self.fn_resolution@.len(),
    {
        self.fn_resolution.len()
    }

    /// Push an empty cache.
    pub fn push_fn_resolution_cache(&mut self)
        ensures
            final(self).fn_resolution@.len() == old(self).fn_resolution@.len() + 1,
            final(self).fn_resolution@.drop_last() == old(self).fn_resolution@,
            final(self).fn_resolution@.last().dict@ == Map::<
                u64,
                Option<FnResolutionCacheEntry>,
            >::empty(),
            final(self).fn_resolution@.last().bloom_filter@ == Set::<int>::empty(),
    {
        self.fn_resolution.push(FnResolutionCache::new());
    }

    /// Drop the caches beyond the first `len`.
    pub fn rewind_fn_resolution_caches(&mut self, len: usize)
        ensures
            final(self).fn_resolution@ == (if len < old(self).fn_resolution@.len() {
                old(self).fn_resolution@.subrange(0, len as int)
            } else {
                old(self).fn_resolution@
            }),
    {
        self.fn_resolution.truncate(len);
    }
}

} // verus!
