//! The engine's limits and registered modules, operation counting, and the
//! cached lookup of whether a script-callable function exists.

use crate::bloom::bloom_slot;
use crate::error::{EvalAltResult, Position};
use crate::module::{holds_hash, Module};
use crate::state::{
    any_import_has_qualified, Caches, FnResolutionCache, FnResolutionCacheEntry,
    GlobalRuntimeState,
};
use vstd::prelude::*;

verus! {

broadcast use vstd::std_specs::hash::group_hash_axioms;

/// The default limit on function-call nesting.
pub const MAX_CALL_STACK_DEPTH: usize = 64;

/// A scripting engine: its limits and the modules registered with it.
pub struct Engine {
    /// The deepest function-call nesting level allowed.
    pub max_call_levels: usize,
    /// The largest number of variables a scope may hold.
    pub max_variables: usize,
    /// The largest number of operations a run may perform; `0` for no limit.
    pub max_operations: u64,
    /// Modules whose functions are callable by plain name everywhere.
    pub global_modules: Vec<Module>,
    /// Modules registered under a name, callable by qualified path.
    pub global_sub_modules: Vec<(String, Module)>,
}

/// Does some module of `mods` hold a function with this hash?
pub open spec fn any_module_has(mods: Seq<Module>, hash: u64) -> bool {
    exists|i: int| 0 <= i < mods.len() && holds_hash((#[trigger] mods[i])@.functions, hash)
}

/// Is a function with this hash reachable: in the global state's libraries,
/// the engine's global modules, the imported modules, or the engine's named modules?
pub open spec fn script_fn_reachable(engine: Engine, global: GlobalRuntimeState, hash: u64) -> bool {
    ||| any_module_has(global.lib@, hash)
    ||| any_module_has(engine.global_modules@, hash)
    ||| any_import_has_qualified(global.imports@, hash)
    ||| any_import_has_qualified(engine.global_sub_modules@, hash)
}

/// The outcome of a cached lookup of `hash` in a cache with entries `dict`
/// and filter `bloom`, when the function is `reachable` or not: the answer,
/// and the cache's entries and filter afterwards.
///
/// A cached answer is returned as is. Otherwise the answer is `reachable`; a
/// miss marks the filter and is remembered in the entries as "not found".
pub open spec fn cached_lookup(
    reachable: bool,
    dict: Map<u64, Option<FnResolutionCacheEntry>>,
    bloom: Set<int>,
    hash: u64,
) -> (bool, Map<u64, Option<FnResolutionCacheEntry>>, Set<int>) {
    if dict.contains_key(hash) {
        (dict[hash] is Some, dict, bloom)
    } else if reachable {
        (true, dict, bloom)
    } else {
        (false, dict.insert(hash, None), bloom.insert(bloom_slot(hash)))
    }
}

/// The entries and filter of the cache that a lookup uses: the top of the
/// stack, or a fresh empty one when the stack is empty.
pub open spec fn top_cache(caches: Caches) -> (Map<u64, Option<FnResolutionCacheEntry>>, Set<int>) {
    if caches.fn_resolution@.len() == 0 {
        (Map::empty(), Set::empty())
    } else {
        (caches.fn_resolution@.last().dict@, caches.fn_resolution@.last().bloom_filter@)
    }
}

/// After a lookup, the cache stack is `before` with its top replaced by a
/// cache with entries `dict` and filter `bloom` (a fresh top is pushed when
/// `before` is empty).
pub open spec fn caches_after_lookup(
    before: Caches,
    after: Caches,
    dict: Map<u64, Option<FnResolutionCacheEntry>>,
    bloom: Set<int>,
) -> bool {
    let n = before.fn_resolution@.len();
    let m = if n == 0 {
        1
    } else {
        n
    };
    &&& after.fn_resolution@.len() == m
    &&& forall|i: int| 0 <= i < m - 1 ==> after.fn_resolution@[i] == before.fn_resolution@[i]
    &&& after.fn_resolution@[m - 1].dict@ == dict
    &&& after.fn_resolution@[m - 1].bloom_filter@ == bloom
}

/// What `has_script_fn` does: from the cache stack `before`, looking up
/// `hash`, it answers `r` and leaves the stack `after`.
pub open spec fn has_script_fn_post(
    engine: Engine,
    global: GlobalRuntimeState,
    before: Caches,
    after: Caches,
    hash: u64,
    r: bool,
) -> bool {
    let (d, b) = top_cache(before);
    let out = cached_lookup(script_fn_reachable(engine, global, hash), d, b, hash);
    &&& r == out.0
    &&& caches_after_lookup(before, after, out.1, out.2)
}

/// After a lookup, the cache it uses is the top of the stack.
proof fn lemma_top_after_lookup(
    before: Caches,
    after: Caches,
    dict: Map<u64, Option<FnResolutionCacheEntry>>,
    bloom: Set<int>,
)
    requires
        caches_after_lookup(before, after, dict, bloom),
    ensures
        top_cache(after) == (dict, bloom),
{
}

/// Looking a function up twice, with the engine and global state unchanged,
/// gives the same answer both times.
pub proof fn lemma_has_script_fn_repeatable(
    engine: Engine,
    global: GlobalRuntimeState,
    c0: Caches,
    c1: Caches,
    c2: Caches,
    hash: u64,
    r1: bool,
    r2: bool,
)
    requires
        has_script_fn_post(engine, global, c0, c1, hash, r1),
        has_script_fn_post(engine, global, c1, c2, hash, r2),
    ensures
        r1 == r2,
{
    let (d0, b0) = top_cache(c0);
    let out1 = cached_lookup(script_fn_reachable(engine, global, hash), d0, b0, hash);
    lemma_top_after_lookup(c0, c1, out1.1, out1.2);
}

/// A function that is looked up and not found is remembered in the top
/// cache as missing, so the next look-up answers from the cache.
pub proof fn lemma_has_script_fn_miss_cached(
    engine: Engine,
    global: GlobalRuntimeState,
    c0: Caches,
    c1: Caches,
    hash: u64,
    r: bool,
)
    requires
        has_script_fn_post(engine, global, c0, c1, hash, r),
        !r,
    ensures
        top_cache(c1).0.contains_key(hash),
        top_cache(c1).0[hash] is None,
{
    let (d0, b0) = top_cache(c0);
    let out = cached_lookup(script_fn_reachable(engine, global, hash), d0, b0, hash);
    lemma_top_after_lookup(c0, c1, out.1, out.2);
}

/// A function found in the cache as missing is reported missing, whatever
/// the modules hold now.
pub proof fn lemma_has_script_fn_cached_miss_answers_false(
    engine: Engine,
    global: GlobalRuntimeState,
    c0: Caches,
    c1: Caches,
    hash: u64,
    r: bool,
)
    requires
        has_script_fn_post(engine, global, c0, c1, hash, r),
        top_cache(c0).0.contains_key(hash),
        top_cache(c0).0[hash] is None,
    ensures
        !r,
{
}

/// A lookup answered from the cache changes nothing but possibly pushing a
/// fresh cache; a lookup that finds the function changes no entry or filter.
pub proof fn lemma_has_script_fn_hit_keeps_cache(
    engine: Engine,
    global: GlobalRuntimeState,
    c0: Caches,
    c1: Caches,
    hash: u64,
    r: bool,
)
    requires
        has_script_fn_post(engine, global, c0, c1, hash, r),
        r,
    ensures
        top_cache(c1) == top_cache(c0),
{
    let (d0, b0) = top_cache(c0);
    let out = cached_lookup(script_fn_reachable(engine, global, hash), d0, b0, hash);
    lemma_top_after_lookup(c0, c1, out.1, out.2);
}

/// Where a plain lookup finds a script function: among the plain functions of
/// the global state's libraries or of the engine's global modules, or among the
/// qualified functions of the imported modules or of the engine's named
/// modules. A hash held only as a plain function of an imported or named
/// module is not found.
pub proof fn lemma_script_fn_reachable_where(engine: Engine, global: GlobalRuntimeState, hash: u64)
    ensures
        script_fn_reachable(engine, global, hash) <==> (
        (exists|i: int, k: int|
            0 <= i < global.lib@.len() && 0 <= k < global.lib@[i]@.functions.len()
                && #[trigger] global.lib@[i]@.functions[k] == hash)
        || (exists|i: int, k: int|
            0 <= i < engine.global_modules@.len() && 0 <= k < engine.global_modules@[i]@.functions.len()
                && #[trigger] engine.global_modules@[i]@.functions[k] == hash)
        || (exists|i: int, k: int|
            0 <= i < global.imports@.len() && 0 <= k < global.imports@[i].1@.qualified_functions.len()
                && #[trigger] global.imports@[i].1@.qualified_functions[k] == hash)
        || (exists|i: int, k: int|
            0 <= i < engine.global_sub_modules@.len() && 0 <= k
                < engine.global_sub_modules@[i].1@.qualified_functions.len()
                && #[trigger] engine.global_sub_modules@[i].1@.qualified_functions[k] == hash)),
{
    if any_module_has(global.lib@, hash) {
        let i = choose|i: int| 0 <= i < global.lib@.len() && holds_hash((#[trigger] global.lib@[i])@.functions, hash);
        let k = choose|k: int| 0 <= k < global.lib@[i]@.functions.len() && global.lib@[i]@.functions[k] == hash;
        assert(global.lib@[i]@.functions[k] == hash);
    }
    if any_module_has(engine.global_modules@, hash) {
        let i = choose|i: int| 0 <= i < engine.global_modules@.len() && holds_hash((#[trigger] engine.global_modules@[i])@.functions, hash);
        let k = choose|k: int| 0 <= k < engine.global_modules@[i]@.functions.len() && engine.global_modules@[i]@.functions[k] == hash;
        assert(engine.global_modules@[i]@.functions[k] == hash);
    }
    if any_import_has_qualified(global.imports@, hash) {
        let i = choose|i: int| 0 <= i < global.imports@.len() && holds_hash((#[trigger] global.imports@[i]).1@.qualified_functions, hash);
        let k = choose|k: int| 0 <= k < global.imports@[i].1@.qualified_functions.len() && global.imports@[i].1@.qualified_functions[k] == hash;
        assert(global.imports@[i].1@.qualified_functions[k] == hash);
    }
    if any_import_has_qualified(engine.global_sub_modules@, hash) {
        let i = choose|i: int| 0 <= i < engine.global_sub_modules@.len() && holds_hash((#[trigger] engine.global_sub_modules@[i]).1@.qualified_functions, hash);
        let k = choose|k: int| 0 <= k < engine.global_sub_modules@[i].1@.qualified_functions.len() && engine.global_sub_modules@[i].1@.qualified_functions[k] == hash;
        assert(engine.global_sub_modules@[i].1@.qualified_functions[k] == hash);
    }
    assert forall|i: int, k: int|
        0 <= i < global.lib@.len() && 0 <= k < global.lib@[i]@.functions.len()
            && #[trigger] global.lib@[i]@.functions[k] == hash implies any_module_has(global.lib@, hash) by {
        assert(holds_hash(global.lib@[i]@.functions, hash));
    }
    assert forall|i: int, k: int|
        0 <= i < engine.global_modules@.len() && 0 <= k < engine.global_modules@[i]@.functions.len()
            && #[trigger] engine.global_modules@[i]@.functions[k] == hash implies any_module_has(engine.global_modules@, hash) by {
        assert(holds_hash(engine.global_modules@[i]@.functions, hash));
    }
    assert forall|i: int, k: int|
        0 <= i < global.imports@.len() && 0 <= k < global.imports@[i].1@.qualified_functions.len()
            && #[trigger] global.imports@[i].1@.qualified_functions[k] == hash implies any_import_has_qualified(global.imports@, hash) by {
        assert(holds_hash(global.imports@[i].1@.qualified_functions, hash));
    }
    assert forall|i: int, k: int|
        0 <= i < engine.global_sub_modules@.len() && 0 <= k < engine.global_sub_modules@[i].1@.qualified_functions.len()
            && #[trigger] engine.global_sub_modules@[i].1@.qualified_functions[k] == hash implies any_import_has_qualified(engine.global_sub_modules@, hash) by {
        assert(holds_hash(engine.global_sub_modules@[i].1@.qualified_functions, hash));
    }
}

/// A lookup of a hash the top cache does not hold answers whether the function
/// is found where plain lookups search (see [`lemma_script_fn_reachable_where`]),
/// and a miss is then remembered.
pub proof fn lemma_has_script_fn_uncached(
    engine: Engine,
    global: GlobalRuntimeState,
    c0: Caches,
    c1: Caches,
    hash: u64,
    r: bool,
)
    requires
        has_script_fn_post(engine, global, c0, c1, hash, r),
        !top_cache(c0).0.contains_key(hash),
    ensures
        r == script_fn_reachable(engine, global, hash),
        !r ==> top_cache(c1).0.contains_key(hash) && top_cache(c1).0[hash] is None,
{
    if !r {
        lemma_has_script_fn_miss_cached(engine, global, c0, c1, hash, r);
    }
}

fn modules_have(mods: &Vec<Module>, hash: u64) -> (r: bool)
    ensures
        r == any_module_has(mods@, hash),
{
    let mut i: usize = 0;
    while i < mods.len()
        invariant
            i <= mods@.len(),
            forall|j: int| 0 <= j < i ==> !holds_hash((#[trigger] mods@[j])@.functions, hash),
        decreases mods@.len() - i,
    {
        if mods[i].contains_fn(hash) {
            return true;
        }
        i += 1;
    }
    false
}

fn named_modules_have_qualified(mods: &Vec<(String, Module)>, hash: u64) -> (r: bool)
    ensures
        r == any_import_has_qualified(mods@, hash),
{
    let mut i: usize = 0;
    while i < mods.len()
        invariant
            i <= mods@.len(),
            forall|j: int|
                0 <= j < i ==> !holds_hash((#[trigger] mods@[j]).1@.qualified_functions, hash),
        decreases mods@.len() - i,
    {
        if mods[i].1.contains_qualified_fn(hash) {
            return true;
        }
        i += 1;
    }
    false
}

impl Engine {
    /// An engine with the default limits and no registered modules.
    pub fn new() -> (e: Engine)
        ensures
            e.max_call_levels == MAX_CALL_STACK_DEPTH,
            e.max_variables == usize::MAX,
            e.max_operations == 0,
            e.global_modules@.len() == 0,
            e.global_sub_modules@.len() == 0,
    {
        Engine {
            max_call_levels: MAX_CALL_STACK_DEPTH,
            max_variables: usize::MAX,
            max_operations: 0,
            global_modules: Vec::new(),
            global_sub_modules: Vec::new(),
        }
    }

    /// The deepest function-call nesting level allowed.
    pub fn max_call_levels(&self) -> (r: usize)
        ensures
            r == self.max_call_levels,
    {
        self.max_call_levels
    }

    /// The largest number of variables a scope may hold.
    pub fn max_variables(&self) -> (r: usize)
        ensures
            r == self.max_variables,
    {
        self.max_variables
    }

    /// The largest number of operations a run may perform; `0` for no limit.
    pub fn max_operations(&self) -> (r: u64)
        ensures
            r == self.max_operations,
    {
        self.max_operations
    }

    /// Set the deepest function-call nesting level allowed.
    pub fn set_max_call_levels(&mut self, levels: usize)
        ensures
            *final(self) == (Engine { max_call_levels: levels, ..*old(self) }),
    {
        self.max_call_levels = levels;
    }

    /// Set the largest number of variables a scope may hold.
    pub fn set_max_variables(&mut self, max: usize)
        ensures
            *final(self) == (Engine { max_variables: max, ..*old(self) }),
    {
        self.max_variables = max;
    }

    /// Set the largest number of operations a run may perform; `0` for no limit.
    pub fn set_max_operations(&mut self, max: u64)
        ensures
            *final(self) == (Engine { max_operations: max, ..*old(self) }),
    {
        self.max_operations = max;
    }

    /// Register a module whose functions are callable by plain name everywhere.
    pub fn register_global_module(&mut self, module: Module)
        ensures
            final(self).global_modules@ == old(self).global_modules@.push(module),
            final(self).global_sub_modules == old(self).global_sub_modules,
            final(self).max_call_levels == old(self).max_call_levels,
            final(self).max_variables == old(self).max_variables,
            final(self).max_operations == old(self).max_operations,
    {
        self.global_modules.push(module);
    }

    /// Register a module under a name, callable by qualified path.
    pub fn register_static_module(&mut self, name: &str, module: Module)
        ensures
            final(self).global_sub_modules@.len() == old(self).global_sub_modules@.len() + 1,
            final(self).global_sub_modules@.drop_last() == old(self).global_sub_modules@,
            final(self).global_sub_modules@.last().0@ == name@,
            final(self).global_sub_modules@.last().1 == module,
            final(self).global_modules == old(self).global_modules,
            final(self).max_call_levels == old(self).max_call_levels,
            final(self).max_variables == old(self).max_variables,
            final(self).max_operations == old(self).max_operations,
    {
        self.global_sub_modules.push((name.to_owned(), module));
    }

    /// Count one operation, and fail when the operation limit is exceeded.
    pub fn track_operation(&self, global: &mut GlobalRuntimeState, pos: Position) -> (r: Result<
        (),
        EvalAltResult,
    >)
        requires
            old(global).num_operations < u64::MAX,
        ensures
            *final(global) == (GlobalRuntimeState {
                num_operations: (old(global).num_operations + 1) as u64,
                ..*old(global)
            }),
            r == (if self.max_operations > 0 && final(global).num_operations > self.max_operations {
                Err(EvalAltResult::ErrorTooManyOperations(pos))
            } else {
                Ok(())
            }),
    {
        global.num_operations = global.num_operations + 1;
        let max = self.max_operations;
        if max > 0 && global.num_operations > max {
            return Err(EvalAltResult::ErrorTooManyOperations(pos));
        }
        Ok(())
    }

    /// Does a script-callable function with this hash exist?
    ///
    /// The answer is looked up in the top function-resolution cache first. If
    /// the function is not found, this is cached for future look-ups.
    pub fn has_script_fn(&self, global: &GlobalRuntimeState, caches: &mut Caches, hash_script: u64) -> (r:
        bool)
        ensures
            has_script_fn_post(*self, *global, *old(caches), *final(caches), hash_script, r),
    {
        if caches.fn_resolution.len() == 0 {
            caches.fn_resolution.push(FnResolutionCache::new());
        }
        let idx = caches.fn_resolution.len() - 1;
        match caches.fn_resolution[idx].dict.get(&hash_script) {
            Some(entry) => {
                return entry.is_some();
            },
            None => {},
        }
        let res = modules_have(&global.lib, hash_script) || modules_have(
            &self.global_modules,
            hash_script,
        ) || global.contains_qualified_fn(hash_script) || named_modules_have_qualified(
            &self.global_sub_modules,
            hash_script,
        );
        let ghost mid = *caches;
        let ghost top = (mid.fn_resolution@[idx as int].dict@, mid.fn_resolution@[idx as int].bloom_filter@);
        assert(top_cache(*old(caches)) == top);
        if !res {
            // Remember the miss for future look-ups.
            let mut cache = caches.fn_resolution.pop().unwrap();
            cache.bloom_filter.mark(hash_script);
            cache.dict.insert(hash_script, None);
            caches.fn_resolution.push(cache);
            let ghost out = cached_lookup(false, top.0, top.1, hash_script);
            assert(caches.fn_resolution@[idx as int] == cache);
            assert(cache.dict@ == out.1 && cache.bloom_filter@ == out.2);
            assert(forall|i: int| 0 <= i < idx ==> caches.fn_resolution@[i] == mid.fn_resolution@[i]);
        }
        assert(forall|i: int| 0 <= i < idx ==> mid.fn_resolution@[i] == old(caches).fn_resolution@[i]);
        res
    }
}

} // verus!
