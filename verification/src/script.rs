//! Calling a script-defined function: the checks before the call, setting up
//! the function's scope (arguments, lent host bindings, encapsulated
//! environment), evaluating the body, and restoring the caller's state.

use crate::binding::{
    bind_all, bind_borrowed, count_dynamic, count_dynamic_bindings, lemma_bind_active_len,
    lemma_bind_handles_len, lemma_bind_scope_prefix, lemma_count_prefix_mono,
    lemma_same_bindings_agree, lemma_same_bindings_prefix, lemma_write_back_len,
    lemma_write_back_never_handle, same_bindings, write_back_all, write_back_borrowed, BindState,
};
use crate::dynamic::Dynamic;
use crate::engine::Engine;
use crate::error::{is_system_exception_spec, with_position, EvalAltResult, Position};
use crate::func_args::BorrowedScopeEntry;
use crate::module::Module;
use crate::scope::{remove_range_spec, rewind_spec, vars_contain, Scope};
use crate::state::{copy_modules, copy_vars, same_imports, same_modules, Caches, GlobalRuntimeState};
use vstd::prelude::*;

verus! {

/// The result of evaluating script code.
pub type RhaiResult = Result<Dynamic, EvalAltResult>;

/// A script-defined function.
pub struct ScriptFuncDef {
    /// The function's name.
    pub name: String,
    /// The names of its parameters, in order.
    pub params: Vec<String>,
    /// The statements of its body, in order.
    pub body: Vec<String>,
}

/// The environment a function was defined in, carried along with it.
pub struct EncapsulatedEnviron {
    /// The function libraries of the defining module.
    pub lib: Vec<Module>,
    /// The modules imported there, with their names.
    pub imports: Vec<(String, Module)>,
    /// The constants defined there, if any.
    pub constants: Option<Vec<(String, Dynamic)>>,
}

/// The state a function body is evaluated in; the evaluator takes it and
/// hands it back.
pub struct EvalFrame {
    pub global: GlobalRuntimeState,
    pub caches: Caches,
    pub scope: Scope,
    /// The value the function is called on (`this`), if it is called as a method.
    pub this: Option<Dynamic>,
}

/// The value behind the `this` reference, if any.
pub open spec fn this_value<'b>(this_ptr: Option<&'b mut Dynamic>) -> Option<Dynamic> {
    match this_ptr {
        Some(r) => Some(*r),
        None => None,
    }
}

/// How a call goes, as decided before the body runs.
pub enum CallStage {
    /// The operation limit is exceeded.
    TooManyOperations,
    /// Calls are nested too deeply.
    StackOverflow,
    /// The body is empty: the call returns `()` at once.
    EmptyBody,
    /// The function's variables would exceed the variable limit.
    TooManyVariables,
    /// The lent binding at this index clashes with a parameter or a variable.
    Conflict(int),
    /// The body runs.
    Runs,
}

/// Does a parameter have this name?
pub open spec fn params_contain(params: Seq<String>, name: Seq<char>) -> bool {
    exists|i: int| 0 <= i < params.len() && (#[trigger] params[i])@ == name
}

/// Does this binding lend a script value under a name already taken by a
/// parameter or a variable of the scope?
pub open spec fn conflicts<'a>(
    e: BorrowedScopeEntry<'a>,
    params: Seq<String>,
    scope: Seq<(String, Dynamic)>,
) -> bool {
    e.value is Dynamic && (params_contain(params, e.name@) || vars_contain(scope, e.name@))
}

/// The index of the first conflicting binding, if any.
pub open spec fn first_conflict<'a>(
    entries: Seq<BorrowedScopeEntry<'a>>,
    params: Seq<String>,
    scope: Seq<(String, Dynamic)>,
) -> Option<int>
    decreases entries.len(),
{
    if entries.len() == 0 {
        None
    } else {
        match first_conflict(entries.drop_last(), params, scope) {
            Some(i) => Some(i),
            None => if conflicts(entries.last(), params, scope) {
                Some(entries.len() - 1)
            } else {
                None
            },
        }
    }
}

/// The message of the error raised for a conflicting binding named `name`.
pub open spec fn conflict_message(name: Seq<char>) -> Seq<char> {
    "borrowed scope binding '"@ + name + "' conflicts with an existing variable"@
}

/// How a call of `fn_def` goes, from the state before it.
pub open spec fn call_stage<'a>(
    engine: Engine,
    global: GlobalRuntimeState,
    scope: Seq<(String, Dynamic)>,
    fn_def: ScriptFuncDef,
    entries: Seq<BorrowedScopeEntry<'a>>,
) -> CallStage {
    if engine.max_operations > 0 && global.num_operations + 1 > engine.max_operations {
        CallStage::TooManyOperations
    } else if global.level > engine.max_call_levels {
        CallStage::StackOverflow
    } else if fn_def.body@.len() == 0 {
        CallStage::EmptyBody
    } else if scope.len() + fn_def.params@.len() + count_dynamic(entries) > engine.max_variables {
        CallStage::TooManyVariables
    } else {
        match first_conflict(entries, fn_def.params@, scope) {
            Some(i) => CallStage::Conflict(i),
            None => CallStage::Runs,
        }
    }
}

/// The result of a call that does not run its body.
pub open spec fn early_result_matches<'a>(
    stage: CallStage,
    entries: Seq<BorrowedScopeEntry<'a>>,
    pos: Position,
    r: RhaiResult,
) -> bool {
    match stage {
        CallStage::TooManyOperations => r == Err::<Dynamic, EvalAltResult>(
            EvalAltResult::ErrorTooManyOperations(pos),
        ),
        CallStage::StackOverflow => r == Err::<Dynamic, EvalAltResult>(
            EvalAltResult::ErrorStackOverflow(pos),
        ),
        CallStage::EmptyBody => r == Ok::<Dynamic, EvalAltResult>(Dynamic::Unit),
        CallStage::TooManyVariables => r == Err::<Dynamic, EvalAltResult>(
            EvalAltResult::ErrorTooManyVariables(pos),
        ),
        CallStage::Conflict(i) => r matches Err(
            EvalAltResult::ErrorRuntime(Dynamic::Str(m), p),
        ) && m@ == conflict_message(entries[i].name@) && p == pos,
        CallStage::Runs => true,
    }
}

/// The parameters paired with the argument values, in order.
pub open spec fn params_with_args(params: Seq<String>, args: Seq<Dynamic>) -> Seq<(String, Dynamic)> {
    Seq::new(params.len(), |i: int| (params[i], args[i]))
}

/// The mathematical value of optional constants.
pub open spec fn constants_view(c: Option<Vec<(String, Dynamic)>>) -> Option<Seq<(String, Dynamic)>> {
    match c {
        Some(v) => Some(v@),
        None => None,
    }
}

/// `s` cut back to at most `n` elements.
pub open spec fn truncated<T>(s: Seq<T>, n: int) -> Seq<T> {
    if n < s.len() {
        s.subrange(0, n)
    } else {
        s
    }
}

/// The source named in an error raised inside the function: the identifier
/// of the last library of its environment, else the global state's source, else empty.
pub open spec fn error_source(env: Option<&EncapsulatedEnviron>, global: GlobalRuntimeState) -> Seq<
    char,
> {
    let from_global = match global.source {
        Some(s) => s@,
        None => Seq::empty(),
    };
    match env {
        Some(e) => if e.lib@.len() > 0 && e.lib@.last().id is Some {
            e.lib@.last().id.unwrap()@
        } else {
            from_global
        },
        None => from_global,
    }
}

/// The call's result `r` from the body's outcome: a returned value is the
/// result; `exit` and system errors pass through at the call's position; any
/// other error is wrapped as an error in the call of `fn_name` from `source`.
pub open spec fn call_result_matches(
    outcome: RhaiResult,
    fn_name: String,
    source: Seq<char>,
    pos: Position,
    r: RhaiResult,
) -> bool {
    match outcome {
        Ok(v) => r == Ok::<Dynamic, EvalAltResult>(v),
        Err(EvalAltResult::Return(x, _)) => r == Ok::<Dynamic, EvalAltResult>(x),
        Err(e) => if e is Exit || is_system_exception_spec(e) {
            r == Err::<Dynamic, EvalAltResult>(with_position(e, pos))
        } else {
            r matches Err(EvalAltResult::ErrorInFunctionCall(f, s, inner, p)) && f == fn_name && s@
                == source && *inner == e && p == pos
        },
    }
}

/// How a body's outcome becomes the call's result, error kind by error kind:
/// a value (returned or by `return`) is the result; `exit` and the system
/// errors (host system errors, parse and custom-syntax failures, the limits on
/// operations, modules, call depth and data size, termination) come back as
/// they are, at the call's position; every other error comes back wrapped as
/// an error in the call of the function, at the call's position.
pub proof fn lemma_call_result_by_kind(
    outcome: RhaiResult,
    fn_name: String,
    source: Seq<char>,
    pos: Position,
    r: RhaiResult,
)
    requires
        call_result_matches(outcome, fn_name, source, pos, r),
    ensures
        outcome matches Ok(v) ==> r == Ok::<Dynamic, EvalAltResult>(v),
        outcome matches Err(EvalAltResult::Return(v, _)) ==> r == Ok::<Dynamic, EvalAltResult>(v),
        outcome matches Err(EvalAltResult::Exit(v, _)) ==> r == Err::<Dynamic, EvalAltResult>(
            EvalAltResult::Exit(v, pos),
        ),
        outcome matches Err(EvalAltResult::ErrorSystem(m)) ==> r == Err::<Dynamic, EvalAltResult>(
            EvalAltResult::ErrorSystem(m),
        ),
        outcome matches Err(EvalAltResult::ErrorParsing(m, _)) ==> r == Err::<Dynamic, EvalAltResult>(
            EvalAltResult::ErrorParsing(m, pos),
        ),
        outcome matches Err(EvalAltResult::ErrorCustomSyntax(m, _)) ==> r == Err::<
            Dynamic,
            EvalAltResult,
        >(EvalAltResult::ErrorCustomSyntax(m, pos)),
        outcome matches Err(EvalAltResult::ErrorTooManyOperations(_)) ==> r == Err::<
            Dynamic,
            EvalAltResult,
        >(EvalAltResult::ErrorTooManyOperations(pos)),
        outcome matches Err(EvalAltResult::ErrorTooManyModules(_)) ==> r == Err::<
            Dynamic,
            EvalAltResult,
        >(EvalAltResult::ErrorTooManyModules(pos)),
        outcome matches Err(EvalAltResult::ErrorStackOverflow(_)) ==> r == Err::<
            Dynamic,
            EvalAltResult,
        >(EvalAltResult::ErrorStackOverflow(pos)),
        outcome matches Err(EvalAltResult::ErrorDataTooLarge(m, _)) ==> r == Err::<
            Dynamic,
            EvalAltResult,
        >(EvalAltResult::ErrorDataTooLarge(m, pos)),
        outcome matches Err(EvalAltResult::ErrorTerminated(v, _)) ==> r == Err::<
            Dynamic,
            EvalAltResult,
        >(EvalAltResult::ErrorTerminated(v, pos)),
        ({
            let e = outcome->Err_0;
            outcome is Err && (e is ErrorTooManyVariables || e is ErrorVariableNotFound
                || e is ErrorMismatchDataType || e is ErrorRuntime || e is ErrorInFunctionCall)
                ==> (r matches Err(EvalAltResult::ErrorInFunctionCall(f, s, inner, p)) && f == fn_name
                && s@ == source && *inner == e && p == pos)
        }),
{
}

/// A lent binding clashes exactly when it lends a script value under a name
/// that a parameter or a variable of the scope already has; an opaque binding
/// never clashes. The clash reported is that of the first such binding.
pub proof fn lemma_first_conflict_exact<'a>(
    entries: Seq<BorrowedScopeEntry<'a>>,
    params: Seq<String>,
    scope: Seq<(String, Dynamic)>,
)
    ensures
        first_conflict(entries, params, scope) matches Some(i) ==> (0 <= i < entries.len()
            && entries[i].value is Dynamic && ((exists|k: int|
            0 <= k < params.len() && (#[trigger] params[k])@ == entries[i].name@) || (exists|k: int|
            0 <= k < scope.len() && (#[trigger] scope[k]).0@ == entries[i].name@))),
        first_conflict(entries, params, scope) matches Some(i) ==> forall|j: int|
            0 <= j < i ==> !((#[trigger] entries[j]).value is Dynamic && ((exists|k: int|
                0 <= k < params.len() && (#[trigger] params[k])@ == entries[j].name@) || (exists|k: int|
                0 <= k < scope.len() && (#[trigger] scope[k]).0@ == entries[j].name@))),
        first_conflict(entries, params, scope) is None ==> forall|j: int|
            0 <= j < entries.len() ==> !((#[trigger] entries[j]).value is Dynamic && ((exists|k: int|
                0 <= k < params.len() && (#[trigger] params[k])@ == entries[j].name@) || (exists|k: int|
                0 <= k < scope.len() && (#[trigger] scope[k]).0@ == entries[j].name@))),
    decreases entries.len(),
{
    if entries.len() > 0 {
        let prefix = entries.drop_last();
        lemma_first_conflict_exact(prefix, params, scope);
        let last = entries.len() - 1;
        assert(entries.last() == entries[last]);
        let bound = match first_conflict(entries, params, scope) {
            Some(i) => i,
            None => entries.len() as int,
        };
        assert forall|j: int| 0 <= j < bound implies !((#[trigger] entries[j]).value is Dynamic && ((exists|k: int|
            0 <= k < params.len() && (#[trigger] params[k])@ == entries[j].name@) || (exists|k: int|
            0 <= k < scope.len() && (#[trigger] scope[k]).0@ == entries[j].name@))) by {
            if j < prefix.len() {
                assert(prefix[j] == entries[j]);
            } else {
                assert(!conflicts(entries[last], params, scope));
            }
        }
    }
}

/// Opaque bindings never stop a call: a call is refused for a clash only at a
/// binding that lends a script value, so a call whose bindings are all opaque
/// is never refused for a clash.
pub proof fn lemma_opaque_never_conflicts<'a>(
    engine: Engine,
    global: GlobalRuntimeState,
    scope: Seq<(String, Dynamic)>,
    fn_def: ScriptFuncDef,
    entries: Seq<BorrowedScopeEntry<'a>>,
)
    ensures
        call_stage(engine, global, scope, fn_def, entries) matches CallStage::Conflict(i) ==> (0 <= i
            < entries.len() && entries[i].value is Dynamic),
        (forall|j: int| 0 <= j < entries.len() ==> (#[trigger] entries[j]).value is Opaque) ==> !(call_stage(
            engine,
            global,
            scope,
            fn_def,
            entries,
        ) is Conflict),
{
    lemma_first_conflict_exact(entries, fn_def.params@, scope);
}

/// The lending of `entries` that a call starting from `global` and `scope` performs.
pub open spec fn call_bindings<'a>(
    global: GlobalRuntimeState,
    scope: Seq<(String, Dynamic)>,
    entries: Seq<BorrowedScopeEntry<'a>>,
) -> BindState {
    bind_all(
        entries,
        BindState {
            scope: scope,
            shared: global.shared_values@,
            active: Seq::empty(),
            handles: Seq::empty(),
        },
    )
}

/// The frame `fin` that the body of `fn_def` is evaluated in, when called
/// from `global`, `caches` and `scope` with these arguments and lent bindings.
///
/// Its scope is the caller's, then the lent script values, then the
/// parameters bound to the arguments. Its global state has one more operation
/// counted, the environment's imports and libraries appended and its constants
/// in place (when there is an environment), the lent bindings active (when
/// there are any), and the lent script values in new shared cells.
pub open spec fn entered_frame<'a>(
    global: GlobalRuntimeState,
    caches: Caches,
    scope: Seq<(String, Dynamic)>,
    env: Option<&EncapsulatedEnviron>,
    fn_def: ScriptFuncDef,
    args: Seq<Dynamic>,
    entries: Seq<BorrowedScopeEntry<'a>>,
    fin: EvalFrame,
) -> bool {
    let st = call_bindings(global, scope, entries);
    let g = fin.global;
    &&& fin.scope@ == st.scope + params_with_args(fn_def.params@, args)
    &&& fin.caches == caches
    &&& match env {
        Some(e) => {
            &&& same_modules(g.lib@, global.lib@ + e.lib@)
            &&& same_imports(g.imports@, global.imports@ + e.imports@)
            &&& constants_view(g.constants) == constants_view(e.constants)
        },
        None => {
            &&& g.lib == global.lib
            &&& g.imports == global.imports
            &&& g.constants == global.constants
        },
    }
    &&& if st.active.len() > 0 {
        g.active_borrowed_scope matches Some(a) && a@ == st.active
    } else {
        g.active_borrowed_scope == global.active_borrowed_scope
    }
    &&& g.shared_values@ == st.shared
    &&& g.source == global.source
    &&& g.level == global.level
    &&& g.num_operations == global.num_operations + 1
}

/// The state after the call, from the frame `fout` the body left and the
/// state before the call.
///
/// The scope loses the lent bindings and parameters (and, when
/// `rewind_scope`, all variables the body defined); the libraries and imports
/// are cut back to their lengths before the call; the constants and active
/// bindings are restored when the call replaced them; the shared store has the
/// lent values' cells expired; the caches are cut back to their number before
/// the call.
pub open spec fn left_frame<'a>(
    global: GlobalRuntimeState,
    caches: Caches,
    scope: Seq<(String, Dynamic)>,
    env: Option<&EncapsulatedEnviron>,
    fn_def: ScriptFuncDef,
    entries: Seq<BorrowedScopeEntry<'a>>,
    rewind_scope: bool,
    fout: EvalFrame,
    global_after: GlobalRuntimeState,
    caches_after: Caches,
    scope_after: Seq<(String, Dynamic)>,
) -> bool {
    let st = call_bindings(global, scope, entries);
    let n_bound = fn_def.params@.len() + st.handles.len();
    let g = fout.global;
    &&& scope_after == if rewind_scope {
        rewind_spec(fout.scope@, scope.len() as int)
    } else if n_bound > 0 {
        remove_range_spec(fout.scope@, scope.len() as int, n_bound as int)
    } else {
        fout.scope@
    }
    &&& global_after.lib@ == truncated(g.lib@, global.lib@.len() as int)
    &&& global_after.imports@ == truncated(g.imports@, global.imports@.len() as int)
    &&& global_after.constants == if env is Some {
        global.constants
    } else {
        g.constants
    }
    &&& global_after.active_borrowed_scope == if st.active.len() > 0 {
        global.active_borrowed_scope
    } else {
        g.active_borrowed_scope
    }
    &&& global_after.shared_values@ == write_back_all(entries, st.handles, g.shared_values@).1
    &&& global_after.source == g.source
    &&& global_after.level == g.level
    &&& global_after.num_operations == g.num_operations
    &&& caches_after.fn_resolution@ == truncated(
        fout.caches.fn_resolution@,
        caches.fn_resolution@.len() as int,
    )
}

/// Is `a + b + c` more than `max`?
fn exceeds(a: usize, b: usize, c: usize, max: usize) -> (r: bool)
    ensures
        r == (a + b + c > max),
{
    a > max || b > max - a || c > max - a - b
}

/// Does a parameter have this name?
fn params_have(params: &Vec<String>, name: &String) -> (r: bool)
    ensures
        r == params_contain(params@, name@),
{
    let mut i: usize = 0;
    while i < params.len()
        invariant
            i <= params@.len(),
            forall|j: int| 0 <= j < i ==> (#[trigger] params@[j])@ != name@,
        decreases params@.len() - i,
    {
        if params[i] == *name {
            assert(params@[i as int]@ == name@);
            return true;
        }
        i += 1;
    }
    false
}

/// The index of the first binding that lends a script value under a name
/// already taken by a parameter or a variable.
fn find_conflict<'a>(entries: &Vec<BorrowedScopeEntry<'a>>, params: &Vec<String>, scope: &Scope) -> (r:
    Option<usize>)
    ensures
        r matches Some(i) ==> first_conflict(entries@, params@, scope@) == Some(i as int) && i
            < entries@.len(),
        r is None ==> first_conflict(entries@, params@, scope@) is None,
{
    let mut i: usize = 0;
    assert(entries@.subrange(0, 0) =~= Seq::<BorrowedScopeEntry<'a>>::empty());
    while i < entries.len()
        invariant
            i <= entries@.len(),
            first_conflict(entries@.subrange(0, i as int), params@, scope@) is None,
        decreases entries@.len() - i,
    {
        let ghost prefix = entries@.subrange(0, i + 1);
        assert(prefix.drop_last() =~= entries@.subrange(0, i as int));
        let e = &entries[i];
        if e.is_dynamic() && (params_have(params, &e.name) || scope.contains_name(&e.name)) {
            assert(first_conflict(prefix, params@, scope@) == Some(i as int));
            proof {
                lemma_first_conflict_prefix(entries@, i as int + 1, params@, scope@);
            }
            return Some(i);
        }
        i += 1;
    }
    assert(entries@.subrange(0, i as int) =~= entries@);
    None
}

/// A conflict found in a prefix is the first conflict of the whole.
proof fn lemma_first_conflict_prefix<'a>(
    entries: Seq<BorrowedScopeEntry<'a>>,
    n: int,
    params: Seq<String>,
    scope: Seq<(String, Dynamic)>,
)
    requires
        0 <= n <= entries.len(),
        first_conflict(entries.subrange(0, n), params, scope) is Some,
    ensures
        first_conflict(entries, params, scope) == first_conflict(entries.subrange(0, n), params, scope),
    decreases entries.len() - n,
{
    if n < entries.len() {
        assert(entries.subrange(0, n + 1).drop_last() =~= entries.subrange(0, n));
        lemma_first_conflict_prefix(entries, n + 1, params, scope);
    } else {
        assert(entries.subrange(0, n) =~= entries);
    }
}

/// The message for a conflicting binding named `name`.
fn conflict_error_message(name: &String) -> (m: String)
    ensures
        m@ == conflict_message(name@),
{
    let mut m = String::from_str("borrowed scope binding '");
    m.append(name.as_str());
    m.append("' conflicts with an existing variable");
    m
}

/// Bind the parameters to the arguments as new variables, consuming the
/// arguments (each is left as `()`).
fn bind_params(scope: &mut Scope, params: &Vec<String>, args: &mut Vec<Dynamic>)
    requires
        old(args)@.len() == params@.len(),
    ensures
        final(scope)@ == old(scope)@ + params_with_args(params@, old(args)@),
        final(args)@.len() == old(args)@.len(),
        forall|i: int| 0 <= i < old(args)@.len() ==> #[trigger] final(args)@[i] == Dynamic::Unit,
{
    let ghost orig_args = args@;
    let ghost orig_scope = scope@;
    let mut i: usize = 0;
    while i < params.len()
        invariant
            i <= params@.len(),
            args@.len() == params@.len(),
            orig_args.len() == params@.len(),
            forall|j: int| 0 <= j < i ==> #[trigger] args@[j] == Dynamic::Unit,
            forall|j: int| i <= j < args@.len() ==> #[trigger] args@[j] == orig_args[j],
            scope@ == orig_scope + params_with_args(params@, orig_args).subrange(0, i as int),
        decreases params@.len() - i,
    {
        let value = args[i].take();
        scope.push_dynamic(params[i].clone(), value);
        i += 1;
        assert(scope@ =~= orig_scope + params_with_args(params@, orig_args).subrange(0, i as int));
    }
    assert(params_with_args(params@, orig_args).subrange(0, i as int) =~= params_with_args(
        params@,
        orig_args,
    ));
}

/// Merge the defining environment into the global state: its imports and
/// libraries are appended and its constants put in place. Returns the
/// constants that were in place before.
fn merge_environ(global: &mut GlobalRuntimeState, env: &EncapsulatedEnviron) -> (saved: Option<
    Vec<(String, Dynamic)>,
>)
    ensures
        same_modules(final(global).lib@, old(global).lib@ + env.lib@),
        same_imports(final(global).imports@, old(global).imports@ + env.imports@),
        constants_view(final(global).constants) == constants_view(env.constants),
        saved == old(global).constants,
        final(global).active_borrowed_scope == old(global).active_borrowed_scope,
        final(global).shared_values == old(global).shared_values,
        final(global).source == old(global).source,
        final(global).level == old(global).level,
        final(global).num_operations == old(global).num_operations,
{
    let ghost g0 = *global;
    let mut i: usize = 0;
    while i < env.imports.len()
        invariant
            i <= env.imports@.len(),
            same_imports(global.imports@, g0.imports@ + env.imports@.subrange(0, i as int)),
            global.lib == g0.lib,
            global.constants == g0.constants,
            global.active_borrowed_scope == g0.active_borrowed_scope,
            global.shared_values == g0.shared_values,
            global.source == g0.source,
            global.level == g0.level,
            global.num_operations == g0.num_operations,
        decreases env.imports@.len() - i,
    {
        let (name, module) = &env.imports[i];
        global.push_import(name.clone(), module.duplicate());
        i += 1;
        assert(g0.imports@ + env.imports@.subrange(0, i as int) =~= (g0.imports@
            + env.imports@.subrange(0, i - 1)).push(env.imports@[i - 1]));
    }
    assert(env.imports@.subrange(0, i as int) =~= env.imports@);
    let mut lib = copy_modules(&env.lib);
    global.lib.append(&mut lib);
    let constants = match &env.constants {
        Some(c) => Some(copy_vars(c)),
        None => None,
    };
    let mut saved = constants;
    std::mem::swap(&mut global.constants, &mut saved);
    saved
}

/// The source to name in an error raised inside the function.
fn error_source_string(env: Option<&EncapsulatedEnviron>, global: &GlobalRuntimeState) -> (s: String)
    ensures
        s@ == error_source(env, *global),
{
    let from_env = match env {
        Some(e) => if e.lib.len() > 0 {
            e.lib[e.lib.len() - 1].id()
        } else {
            None
        },
        None => None,
    };
    match from_env {
        Some(id) => id.to_owned(),
        None => match global.source() {
            Some(src) => src.to_owned(),
            None => String::new(),
        },
    }
}

/// The call's result from the body's outcome.
fn call_result(outcome: RhaiResult, fn_name: &String, source: String, pos: Position) -> (r:
    RhaiResult)
    ensures
        call_result_matches(outcome, *fn_name, source@, pos, r),
{
    match outcome {
        Ok(v) => Ok(v),
        Err(EvalAltResult::Return(x, _)) => Ok(x),
        Err(err) => {
            let is_exit = match &err {
                EvalAltResult::Exit(..) => true,
                _ => false,
            };
            if is_exit || err.is_system_exception() {
                let mut err = err;
                err.set_position(pos);
                Err(err)
            } else {
                Err(EvalAltResult::ErrorInFunctionCall(fn_name.clone(), source, Box::new(err), pos))
            }
        },
    }
}

/// After a call that ran its body, the scope holds the caller's variables
/// (as the body left them) and, without `rewind_scope`, the variables the body
/// defined after the parameters; the parameters and lent script values are gone.
pub proof fn lemma_call_scope_after<'a>(
    global: GlobalRuntimeState,
    caches: Caches,
    scope: Seq<(String, Dynamic)>,
    env: Option<&EncapsulatedEnviron>,
    fn_def: ScriptFuncDef,
    args: Seq<Dynamic>,
    entries: Seq<BorrowedScopeEntry<'a>>,
    rewind_scope: bool,
    fin: EvalFrame,
    fout: EvalFrame,
    global_after: GlobalRuntimeState,
    caches_after: Caches,
    scope_after: Seq<(String, Dynamic)>,
)
    requires
        args.len() == fn_def.params@.len(),
        entered_frame(global, caches, scope, env, fn_def, args, entries, fin),
        left_frame(
            global,
            caches,
            scope,
            env,
            fn_def,
            entries,
            rewind_scope,
            fout,
            global_after,
            caches_after,
            scope_after,
        ),
        fout.scope@.len() >= fin.scope@.len(),
    ensures
        scope_after.subrange(0, scope.len() as int) == fout.scope@.subrange(0, scope.len() as int),
        rewind_scope ==> scope_after.len() == scope.len(),
        !rewind_scope ==> scope_after.len() == fout.scope@.len() - (fin.scope@.len() - scope.len()),
        !rewind_scope ==> scope_after.subrange(scope.len() as int, scope_after.len() as int)
            == fout.scope@.subrange(fin.scope@.len() as int, fout.scope@.len() as int),
{
    let st = call_bindings(global, scope, entries);
    lemma_bind_handles_len(
        entries,
        BindState { scope, shared: global.shared_values@, active: Seq::empty(), handles: Seq::empty() },
    );
    assert(fin.scope@.len() == scope.len() + st.handles.len() + fn_def.params@.len());
    if rewind_scope {
        assert(scope_after =~= fout.scope@.subrange(0, scope.len() as int));
    } else {
        let n = fn_def.params@.len() + st.handles.len();
        if n > 0 {
            assert(scope_after.subrange(0, scope.len() as int) =~= fout.scope@.subrange(
                0,
                scope.len() as int,
            ));
            assert(scope_after.subrange(scope.len() as int, scope_after.len() as int)
                =~= fout.scope@.subrange(fin.scope@.len() as int, fout.scope@.len() as int));
        } else {
            assert(scope_after.subrange(scope.len() as int, scope_after.len() as int)
                =~= fout.scope@.subrange(fin.scope@.len() as int, fout.scope@.len() as int));
        }
    }
}

/// A call that ran its body leaves no more libraries, imports or caches than
/// the caller had, puts back the caller's constants when it brought an
/// environment, and puts back the caller's active bindings when it lent any.
pub proof fn lemma_call_restores_caller_state<'a>(
    global: GlobalRuntimeState,
    caches: Caches,
    scope: Seq<(String, Dynamic)>,
    env: Option<&EncapsulatedEnviron>,
    fn_def: ScriptFuncDef,
    entries: Seq<BorrowedScopeEntry<'a>>,
    rewind_scope: bool,
    fout: EvalFrame,
    global_after: GlobalRuntimeState,
    caches_after: Caches,
    scope_after: Seq<(String, Dynamic)>,
)
    requires
        left_frame(
            global,
            caches,
            scope,
            env,
            fn_def,
            entries,
            rewind_scope,
            fout,
            global_after,
            caches_after,
            scope_after,
        ),
    ensures
        global_after.lib@.len() <= global.lib@.len(),
        global_after.imports@.len() <= global.imports@.len(),
        caches_after.fn_resolution@.len() <= caches.fn_resolution@.len(),
        env is Some ==> global_after.constants == global.constants,
        entries.len() > 0 ==> global_after.active_borrowed_scope
            == global.active_borrowed_scope,
{
    let st = call_bindings(global, scope, entries);
    lemma_bind_handles_len(
        entries,
        BindState { scope, shared: global.shared_values@, active: Seq::empty(), handles: Seq::empty() },
    );
    lemma_bind_active_len(
        entries,
        BindState { scope, shared: global.shared_values@, active: Seq::empty(), handles: Seq::empty() },
    );
}

/// A call whose body keeps the caller's part of the state (it neither
/// renames the caller's variables nor drops the libraries, imports or caches it
/// was given, and leaves alone the constants and active bindings where the
/// call does not restore them) gives the caller back its own variable names,
/// and exactly its numbers of libraries, imports and caches, its constants and
/// its active bindings; with `rewind_scope`, exactly its number of variables.
pub proof fn lemma_call_restores_caller_exactly<'a>(
    global: GlobalRuntimeState,
    caches: Caches,
    scope: Seq<(String, Dynamic)>,
    env: Option<&EncapsulatedEnviron>,
    fn_def: ScriptFuncDef,
    args: Seq<Dynamic>,
    entries: Seq<BorrowedScopeEntry<'a>>,
    rewind_scope: bool,
    fin: EvalFrame,
    fout: EvalFrame,
    global_after: GlobalRuntimeState,
    caches_after: Caches,
    scope_after: Seq<(String, Dynamic)>,
)
    requires
        args.len() == fn_def.params@.len(),
        entered_frame(global, caches, scope, env, fn_def, args, entries, fin),
        left_frame(
            global,
            caches,
            scope,
            env,
            fn_def,
            entries,
            rewind_scope,
            fout,
            global_after,
            caches_after,
            scope_after,
        ),
        fout.scope@.len() >= fin.scope@.len(),
        forall|i: int| 0 <= i < scope.len() ==> (#[trigger] fout.scope@[i]).0 == fin.scope@[i].0,
        fout.global.lib@.len() >= fin.global.lib@.len(),
        fout.global.imports@.len() >= fin.global.imports@.len(),
        fout.caches.fn_resolution@.len() >= fin.caches.fn_resolution@.len(),
        env is None ==> fout.global.constants == fin.global.constants,
        entries.len() == 0 ==> fout.global.active_borrowed_scope == fin.global.active_borrowed_scope,
    ensures
        forall|i: int| 0 <= i < scope.len() ==> (#[trigger] scope_after[i]).0 == scope[i].0,
        rewind_scope ==> scope_after.len() == scope.len(),
        global_after.lib@.len() == global.lib@.len(),
        global_after.imports@.len() == global.imports@.len(),
        caches_after.fn_resolution@.len() == caches.fn_resolution@.len(),
        global_after.constants == global.constants,
        global_after.active_borrowed_scope == global.active_borrowed_scope,
{
    let init = BindState {
        scope,
        shared: global.shared_values@,
        active: Seq::empty(),
        handles: Seq::empty(),
    };
    lemma_call_scope_after(
        global,
        caches,
        scope,
        env,
        fn_def,
        args,
        entries,
        rewind_scope,
        fin,
        fout,
        global_after,
        caches_after,
        scope_after,
    );
    lemma_bind_scope_prefix(entries, init);
    lemma_bind_active_len(entries, init);
    let st = call_bindings(global, scope, entries);
    assert forall|i: int| 0 <= i < scope.len() implies (#[trigger] scope_after[i]).0 == scope[i].0 by {
        assert(scope_after[i] == scope_after.subrange(0, scope.len() as int)[i]);
        assert(fout.scope@[i] == fout.scope@.subrange(0, scope.len() as int)[i]);
        assert(fin.scope@[i] == st.scope[i]);
        assert(st.scope[i] == st.scope.subrange(0, scope.len() as int)[i]);
    }
}

impl Engine {
    /// Call a script-defined function.
    ///
    /// The body is evaluated by `eval_body`, which receives the frame set up
    /// for the function (see [`entered_frame`]) and hands back the frame it
    /// leaves together with the body's outcome. Arguments are consumed (each is
    /// left as `()`). Each lent script value is exposed to the body as a
    /// variable and written back to the host when the call returns (see
    /// [`write_back_all`]). When the function is called as a method, the value
    /// behind `this_ptr` is handed to the body as `this`, and what the body
    /// leaves there is written back. If `rewind_scope` is `false`, the
    /// arguments and lent bindings are removed from the scope but new variables
    /// are not.
    pub fn call_script_fn<'a, 't, F>(
        &self,
        global: &mut GlobalRuntimeState,
        caches: &mut Caches,
        scope: &mut Scope,
        this_ptr: Option<&'t mut Dynamic>,
        env: Option<&EncapsulatedEnviron>,
        fn_def: &ScriptFuncDef,
        args: &mut Vec<Dynamic>,
        borrowed_scope: &mut Vec<BorrowedScopeEntry<'a>>,
        rewind_scope: bool,
        pos: Position,
        eval_body: F,
    ) -> (r: RhaiResult) where F: FnOnce(EvalFrame) -> (EvalFrame, RhaiResult)
        requires
            old(args)@.len() == fn_def.params@.len(),
            old(global).num_operations < u64::MAX,
            forall|fin: EvalFrame| call_requires(eval_body, (fin,)),
            forall|fin: EvalFrame, fout: EvalFrame, outcome: RhaiResult|
                #[trigger] call_ensures(eval_body, (fin,), (fout, outcome)) ==> fout.scope@.len()
                    >= fin.scope@.len() && (fout.this is Some <==> fin.this is Some),
        ensures
            ({
                let stage = call_stage(
                    *self,
                    *old(global),
                    old(scope)@,
                    *fn_def,
                    old(borrowed_scope)@,
                );
                if stage is Runs {
                    exists|fin: EvalFrame, fout: EvalFrame, outcome: RhaiResult|
                        {
                            &&& entered_frame(
                                *old(global),
                                *old(caches),
                                old(scope)@,
                                env,
                                *fn_def,
                                old(args)@,
                                old(borrowed_scope)@,
                                fin,
                            )
                            &&& fin.this == this_value(this_ptr)
                            &&& #[trigger] call_ensures(eval_body, (fin,), (fout, outcome))
                            &&& (this_ptr matches Some(t) ==> *final(t) == fout.this->Some_0)
                            &&& left_frame(
                                *old(global),
                                *old(caches),
                                old(scope)@,
                                env,
                                *fn_def,
                                old(borrowed_scope)@,
                                rewind_scope,
                                fout,
                                *final(global),
                                *final(caches),
                                final(scope)@,
                            )
                            &&& call_result_matches(
                                outcome,
                                fn_def.name,
                                error_source(env, fout.global),
                                pos,
                                r,
                            )
                            &&& forall|i: int|
                                0 <= i < old(borrowed_scope)@.len() && (#[trigger] old(
                                    borrowed_scope,
                                )@[i]).value is Dynamic ==> *final(borrowed_scope)@[i].value->Dynamic_0
                                    == write_back_all(
                                    old(borrowed_scope)@,
                                    call_bindings(
                                        *old(global),
                                        old(scope)@,
                                        old(borrowed_scope)@,
                                    ).handles,
                                    fout.global.shared_values@,
                                ).0[count_dynamic(old(borrowed_scope)@.subrange(0, i)) as int]
                        }
                } else {
                    &&& early_result_matches(stage, old(borrowed_scope)@, pos, r)
                    &&& *final(global) == (GlobalRuntimeState {
                        num_operations: (old(global).num_operations + 1) as u64,
                        ..*old(global)
                    })
                    &&& *final(caches) == *old(caches)
                    &&& final(scope)@ == old(scope)@
                    &&& final(args)@ == old(args)@
                    &&& final(borrowed_scope)@ == old(borrowed_scope)@
                    &&& (this_ptr matches Some(t) ==> *final(t) == *t)
                }
            }),
            same_bindings(old(borrowed_scope)@, final(borrowed_scope)@),
            forall|i: int|
                0 <= i < old(borrowed_scope)@.len() && (#[trigger] old(borrowed_scope)@[i]).value is Dynamic
                    ==> *final(final(borrowed_scope)@[i].value->Dynamic_0) == *final(old(borrowed_scope)@[i].value->Dynamic_0),
            call_stage(*self, *old(global), old(scope)@, *fn_def, old(borrowed_scope)@) is Runs ==> {
                &&& forall|i: int|
                    0 <= i < old(borrowed_scope)@.len() && (#[trigger] old(borrowed_scope)@[i]).value is Dynamic
                        ==> !(*final(borrowed_scope)@[i].value->Dynamic_0 is Shared)
                &&& final(args)@.len() == old(args)@.len()
                &&& forall|i: int| 0 <= i < old(args)@.len() ==> #[trigger] final(args)@[i] == Dynamic::Unit
            },
    {
        let ghost g0 = *global;
        let ghost c0 = *caches;
        let ghost s0 = scope@;
        let ghost a0 = args@;
        let ghost b0 = borrowed_scope@;
        let ghost st = call_bindings(g0, s0, b0);

        self.track_operation(global, pos)?;

        // Check for stack overflow
        if global.level > self.max_call_levels {
            return Err(EvalAltResult::ErrorStackOverflow(pos));
        }
        if fn_def.body.len() == 0 {
            return Ok(Dynamic::Unit);
        }

        let orig_scope_len = scope.len();
        let orig_lib_len = global.lib.len();
        let orig_imports_len = global.num_imports();

        let borrowed_scope_count = count_dynamic_bindings(borrowed_scope);

        // Guard against too many variables
        if exceeds(scope.len(), fn_def.params.len(), borrowed_scope_count, self.max_variables) {
            return Err(EvalAltResult::ErrorTooManyVariables(pos));
        }

        // Lent script values must not shadow a parameter or a variable
        match find_conflict(borrowed_scope, &fn_def.params, scope) {
            Some(i) => {
                let message = conflict_error_message(&borrowed_scope[i].name);
                return Err(EvalAltResult::ErrorRuntime(Dynamic::Str(message), pos));
            },
            None => {},
        }

        let (active, handles) = bind_borrowed(borrowed_scope, scope, &mut global.shared_values);
        let ghost b1 = borrowed_scope@;
        proof {
            lemma_bind_handles_len(b0, BindState { scope: s0, shared: g0.shared_values@, active: Seq::empty(), handles: Seq::empty() });
            lemma_same_bindings_agree(b0, b1, handles@, g0.shared_values@);
        }
        assert(scope@ == st.scope);
        assert(global.shared_values@ == st.shared);
        assert(active@ == st.active);
        assert(handles@ == st.handles);

        let mut orig_borrowed_scope = None;
        if active.len() > 0 {
            let mut installed = Some(active);
            std::mem::swap(&mut global.active_borrowed_scope, &mut installed);
            orig_borrowed_scope = Some(installed);
        }

        // Put arguments into scope as variables, after the lent bindings
        bind_params(scope, &fn_def.params, args);
        let bound_end = scope.len();
        assert(scope@ == st.scope + params_with_args(fn_def.params@, a0));
        assert(bound_end == s0.len() + st.handles.len() + fn_def.params@.len());

        // Hand the value the function is called on to the body
        let mut this_ptr = this_ptr;
        let this = match &mut this_ptr {
            Some(t) => Some((**t).take()),
            None => None,
        };

        // Merge in the encapsulated environment, if any
        let orig_fn_resolution_caches_len = caches.fn_resolution_caches_len();
        let orig_constants = match env {
            Some(e) => Some(merge_environ(global, e)),
            None => None,
        };

        // Evaluate the function
        let mut g = GlobalRuntimeState::new();
        std::mem::swap(global, &mut g);
        let mut c = Caches::new();
        std::mem::swap(caches, &mut c);
        let mut s = Scope::new();
        std::mem::swap(scope, &mut s);
        let fin = EvalFrame { global: g, caches: c, scope: s, this };
        let ghost fin_g = fin;
        assert(entered_frame(g0, c0, s0, env, *fn_def, a0, b0, fin_g));
        let out = eval_body(fin);
        let ghost fout_g = out.0;
        let ghost outcome_g = out.1;
        assert(call_ensures(eval_body, (fin_g,), (fout_g, outcome_g)));
        let (fout, outcome) = out;
        let EvalFrame { global: g2, caches: c2, scope: s2, this: this_after } = fout;
        *global = g2;
        *caches = c2;
        *scope = s2;
        match this_ptr {
            Some(t) => match this_after {
                Some(v) => {
                    *t = v;
                },
                None => {},
            },
            None => {},
        }

        let source = error_source_string(env, global);
        let result = call_result(outcome, &fn_def.name, source, pos);

        // Write the lent script values back and expire their cells
        proof {
            lemma_same_bindings_agree(b0, b1, handles@, fout_g.global.shared_values@);
        }
        write_back_borrowed(borrowed_scope, &handles, &mut global.shared_values);
        let ghost b2 = borrowed_scope@;
        assert forall|i: int| 0 <= i < b0.len() && (#[trigger] b0[i]).value is Dynamic implies *b2[i].value->Dynamic_0
            == write_back_all(b0, st.handles, fout_g.global.shared_values@).0[count_dynamic(b0.subrange(0, i)) as int] by {
            lemma_same_bindings_prefix(b0, b1, i);
            lemma_same_bindings_agree(b0.subrange(0, i), b1.subrange(0, i), handles@, fout_g.global.shared_values@);
            assert(b1[i].value is Dynamic);
        }
        proof {
            lemma_write_back_never_handle(b0, st.handles, fout_g.global.shared_values@);
            lemma_write_back_len(b0, st.handles, fout_g.global.shared_values@);
            assert forall|i: int| 0 <= i < b0.len() && (#[trigger] b0[i]).value is Dynamic implies !(*b2[i].value->Dynamic_0 is Shared) by {
                lemma_count_prefix_mono(b0, i, b0.len() as int);
                assert(b0.subrange(0, b0.len() as int) =~= b0);
            }
        }

        // Remove the arguments and lent bindings (or everything new) from the scope
        let num_bound_values = bound_end - orig_scope_len;
        if rewind_scope {
            scope.rewind(orig_scope_len);
        } else if num_bound_values > 0 {
            scope.remove_range(orig_scope_len, num_bound_values);
        }
        global.lib.truncate(orig_lib_len);
        global.truncate_imports(orig_imports_len);

        // Restore constants
        match orig_constants {
            Some(constants) => {
                global.constants = constants;
            },
            None => {},
        }

        // Restore state
        caches.rewind_fn_resolution_caches(orig_fn_resolution_caches_len);
        match orig_borrowed_scope {
            Some(orig) => {
                global.active_borrowed_scope = orig;
            },
            None => {},
        }
        assert(call_stage(*self, g0, s0, *fn_def, b0) is Runs);
        assert(call_result_matches(outcome_g, fn_def.name, error_source(env, fout_g.global), pos, result));
        assert(scope@ == if rewind_scope {
            rewind_spec(fout_g.scope@, s0.len() as int)
        } else if fn_def.params@.len() + st.handles.len() > 0 {
            remove_range_spec(fout_g.scope@, s0.len() as int, (fn_def.params@.len() + st.handles.len()) as int)
        } else {
            fout_g.scope@
        });
        assert(global.lib@ == truncated(fout_g.global.lib@, g0.lib@.len() as int));
        assert(global.imports@ == truncated(fout_g.global.imports@, g0.imports@.len() as int));
        assert(global.constants == if env is Some { g0.constants } else { fout_g.global.constants });
        assert(global.active_borrowed_scope == if st.active.len() > 0 { g0.active_borrowed_scope } else { fout_g.global.active_borrowed_scope });
        assert(global.shared_values@ == write_back_all(b0, st.handles, fout_g.global.shared_values@).1);
        assert(global.source == fout_g.global.source);
        assert(global.level == fout_g.global.level);
        assert(global.num_operations == fout_g.global.num_operations);
        assert(caches.fn_resolution@ == truncated(fout_g.caches.fn_resolution@, c0.fn_resolution@.len() as int));
        assert(left_frame(g0, c0, s0, env, *fn_def, b0, rewind_scope, fout_g, *global, *caches, scope@));
        result
    }
}

} // verus!
