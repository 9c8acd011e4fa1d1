// Unit tests of the library's pieces: values, arguments, scopes, modules,
// caches, and the checks and bookkeeping around a script function call.

use lib::{
    ActiveBorrowedValue, BloomFilterU64, BorrowToken, BorrowedFuncArgs, BorrowedOpaquePointer, BorrowedScopeEntry,
    BorrowedScopeValue, Caches, Dynamic, EncapsulatedEnviron, Engine, EvalAltResult, EvalFrame,
    FuncArgs, GlobalRuntimeState, Module, Position, RhaiResult, Scope, ScriptFuncDef,
    MAX_CALL_STACK_DEPTH,
};

fn def(name: &str, params: &[&str], body: &[&str]) -> ScriptFuncDef {
    ScriptFuncDef {
        name: name.to_string(),
        params: params.iter().map(|p| p.to_string()).collect(),
        body: body.iter().map(|s| s.to_string()).collect(),
    }
}

fn module(id: Option<&str>, fns: &[u64], qualified: &[u64]) -> Module {
    let mut m = Module::new(id.map(|s| s.to_string()));
    for h in fns {
        m.add_function(*h);
    }
    for h in qualified {
        m.add_qualified_function(*h);
    }
    m
}

/// Call `f` with no arguments and no borrowed bindings, evaluating with `eval`.
fn call_simple<F>(
    engine: &Engine,
    global: &mut GlobalRuntimeState,
    caches: &mut Caches,
    scope: &mut Scope,
    env: Option<&EncapsulatedEnviron>,
    f: &ScriptFuncDef,
    rewind_scope: bool,
    pos: Position,
    eval: F,
) -> RhaiResult
where
    F: FnOnce(EvalFrame) -> (EvalFrame, RhaiResult),
{
    let mut args = Vec::new();
    let mut borrowed: Vec<BorrowedScopeEntry> = Vec::new();
    engine.call_script_fn(global, caches, scope, None, env, f, &mut args, &mut borrowed, rewind_scope, pos, eval)
}

#[test]
fn borrow_token_carries_its_name() {
    let t = BorrowToken::new("host_state");
    assert_eq!(t.name(), "host_state");
    let u = t.clone();
    assert_eq!(u.name(), t.name());
    assert!(t == u);
    assert!(t != BorrowToken::new("other"));
}

#[test]
fn borrowed_opaque_pointer_keeps_its_handle() {
    let p = BorrowedOpaquePointer::new(7);
    assert_eq!(p.ptr, 7);
}

#[test]
fn borrowed_scope_entry_constructors() {
    let mut v = Dynamic::Int(1);
    let e = BorrowedScopeEntry::dynamic("v", &mut v);
    assert_eq!(e.name(), "v");
    assert!(e.is_dynamic());
    match &e.value {
        BorrowedScopeValue::Dynamic(r) => assert_eq!(**r, Dynamic::Int(1)),
        BorrowedScopeValue::Opaque(_) => panic!("expected a script value"),
    }

    let o = BorrowedScopeEntry::opaque("o", 9);
    assert_eq!(o.name(), "o");
    assert!(!o.is_dynamic());
    match &o.value {
        BorrowedScopeValue::Opaque(p) => assert_eq!(p.ptr, 9),
        BorrowedScopeValue::Dynamic(_) => panic!("expected an opaque value"),
    }
}

#[test]
fn func_args_tuple_appends_in_order() {
    let mut args = vec![Dynamic::Unit];
    (1i64, true, 'c', "s".to_string(), ()).parse(&mut args);
    assert_eq!(
        args,
        vec![
            Dynamic::Unit,
            Dynamic::Int(1),
            Dynamic::Bool(true),
            Dynamic::Char('c'),
            Dynamic::Str("s".to_string()),
            Dynamic::Unit,
        ]
    );
}

#[test]
fn func_args_longest_tuple() {
    let mut args = Vec::new();
    (1i64, 2i64, 3i64, 4i64, 5i64, 6i64, 7i64, 8i64, 9i64, 10i64, 11i64, 12i64, 13i64, 14i64, 15i64, 16i64, 17i64, 18i64, 19i64, 20i64)
        .parse(&mut args);
    assert_eq!(args.len(), 20);
    for (i, a) in args.iter().enumerate() {
        assert_eq!(a.as_int(), Some(i as i64 + 1));
    }
}

#[test]
fn func_args_vec_array_and_unit() {
    let mut args = Vec::new();
    vec![1i64, 2, 3].parse(&mut args);
    [true, false].parse(&mut args);
    FuncArgs::parse((), &mut args);
    vec![Dynamic::Str("x".to_string())].parse(&mut args);
    assert_eq!(
        args,
        vec![
            Dynamic::Int(1),
            Dynamic::Int(2),
            Dynamic::Int(3),
            Dynamic::Bool(true),
            Dynamic::Bool(false),
            Dynamic::Str("x".to_string()),
        ]
    );
}

#[test]
fn borrowed_func_args_append_in_order() {
    let mut a = Dynamic::Int(1);
    let mut b = Dynamic::Int(2);
    let mut entries: Vec<BorrowedScopeEntry> = Vec::new();
    BorrowedFuncArgs::parse((), &mut entries);
    assert!(entries.is_empty());
    BorrowedFuncArgs::parse(vec![BorrowedScopeEntry::dynamic("a", &mut a)], &mut entries);
    BorrowedFuncArgs::parse(
        [BorrowedScopeEntry::opaque("o", 3), BorrowedScopeEntry::dynamic("b", &mut b)],
        &mut entries,
    );
    let names: Vec<&str> = entries.iter().map(|e| e.name()).collect();
    assert_eq!(names, vec!["a", "o", "b"]);
}

#[test]
fn dynamic_helpers() {
    let mut v = Dynamic::Str("abc".to_string());
    assert_eq!(v.duplicate(), v);
    assert_eq!(v.as_str(), Some("abc"));
    let taken = v.take();
    assert_eq!(taken, Dynamic::Str("abc".to_string()));
    assert!(v.is_unit());
    assert!(Dynamic::Shared(3).is_shared());
    assert_eq!(Dynamic::Bool(true).as_bool(), Some(true));
    assert_eq!(Dynamic::Int(5).as_bool(), None);
    assert_eq!(
        Dynamic::make_expired_borrowed_binding("x".to_string()),
        Dynamic::ExpiredBinding("x".to_string())
    );
}

#[test]
fn scope_operations() {
    let mut scope = Scope::new();
    assert!(scope.is_empty());
    scope.push("a", Dynamic::Int(1));
    scope.push("b", Dynamic::Int(2));
    scope.push("a", Dynamic::Int(3));
    assert_eq!(scope.len(), 3);
    assert!(scope.contains("b"));
    assert!(!scope.contains("c"));
    // The newest variable of a name shadows older ones.
    assert_eq!(scope.index_of("a"), Some(2));
    assert_eq!(scope.get_value("a"), Some(&Dynamic::Int(3)));
    assert_eq!(scope.get_value("c"), None);
    scope.set_at(1, Dynamic::Int(20));
    assert_eq!(scope.get_value("b"), Some(&Dynamic::Int(20)));
    scope.remove_range(0, 2);
    assert_eq!(scope.len(), 1);
    assert_eq!(scope.get_at(0).0, "a");
    scope.push_dynamic("d".to_string(), Dynamic::Unit);
    scope.rewind(5);
    assert_eq!(scope.len(), 2);
    scope.rewind(0);
    assert!(scope.is_empty());
}

#[test]
fn bloom_filter_marks_low_byte_slots() {
    let mut f = BloomFilterU64::new();
    assert!(f.is_absent(0x1234));
    assert!(f.is_absent_and_set(0x1234));
    assert!(!f.is_absent(0x1234));
    // Hashes with the same low byte share a slot.
    assert!(!f.is_absent(0x9934));
    assert!(!f.is_absent_and_set(0x9934));
    assert!(f.is_absent(0x1235));
    f.mark(0x1235);
    assert!(!f.is_absent(0x35));
}

#[test]
fn has_script_fn_searches_every_namespace() {
    let mut engine = Engine::new();
    engine.register_global_module(module(None, &[2], &[]));
    engine.register_static_module("m", module(None, &[], &[4]));
    let mut global = GlobalRuntimeState::new();
    global.lib.push(module(Some("script"), &[1], &[]));
    global.push_import("imp".to_string(), module(None, &[], &[3]));
    let mut caches = Caches::new();

    assert!(engine.has_script_fn(&global, &mut caches, 1));
    assert!(engine.has_script_fn(&global, &mut caches, 2));
    assert!(engine.has_script_fn(&global, &mut caches, 3));
    assert!(engine.has_script_fn(&global, &mut caches, 4));
    assert!(!engine.has_script_fn(&global, &mut caches, 5));
    // Only the plain hash of a module counts for plain lookups and vice versa.
    assert!(!engine.has_script_fn(&global, &mut caches, 6));
    assert_eq!(caches.fn_resolution_caches_len(), 1);
}

#[test]
fn has_script_fn_remembers_miss() {
    let engine = Engine::new();
    let mut global = GlobalRuntimeState::new();
    let mut caches = Caches::new();

    // A miss is remembered at once, and the filter is marked.
    assert!(!engine.has_script_fn(&global, &mut caches, 42));
    assert_eq!(caches.fn_resolution[0].dict.get(&42), Some(&None));
    assert!(!caches.fn_resolution[0].bloom_filter.is_absent(42));

    // The same answer again.
    assert!(!engine.has_script_fn(&global, &mut caches, 42));
    assert_eq!(caches.fn_resolution[0].dict.len(), 1);

    // The remembered answer is used even after the function appears.
    global.lib.push(module(None, &[42], &[]));
    assert!(!engine.has_script_fn(&global, &mut caches, 42));

    // A fresh cache sees it; a hit is not recorded.
    caches.push_fn_resolution_cache();
    assert!(engine.has_script_fn(&global, &mut caches, 42));
    assert!(caches.fn_resolution[1].dict.is_empty());
    assert!(engine.has_script_fn(&global, &mut caches, 42));
    caches.rewind_fn_resolution_caches(1);
    assert_eq!(caches.fn_resolution_caches_len(), 1);
}

#[test]
fn track_operation_counts_and_limits() {
    let mut engine = Engine::new();
    let mut global = GlobalRuntimeState::new();
    assert_eq!(engine.track_operation(&mut global, Position::none()), Ok(()));
    engine.set_max_operations(2);
    assert_eq!(engine.track_operation(&mut global, Position::none()), Ok(()));
    assert_eq!(
        engine.track_operation(&mut global, Position::new(1, 2)),
        Err(EvalAltResult::ErrorTooManyOperations(Position::new(1, 2)))
    );
    assert_eq!(global.num_operations, 3);
}

#[test]
fn engine_limits() {
    let mut engine = Engine::new();
    assert_eq!(engine.max_call_levels(), MAX_CALL_STACK_DEPTH);
    assert_eq!(engine.max_variables(), usize::MAX);
    assert_eq!(engine.max_operations(), 0);
    engine.set_max_call_levels(3);
    engine.set_max_variables(10);
    assert_eq!(engine.max_call_levels(), 3);
    assert_eq!(engine.max_variables(), 10);
}

#[test]
fn call_fails_on_too_many_operations() {
    let mut engine = Engine::new();
    engine.set_max_operations(1);
    let mut global = GlobalRuntimeState::new();
    global.num_operations = 1;
    let mut caches = Caches::new();
    let mut scope = Scope::new();
    let f = def("f", &[], &["1"]);
    let pos = Position::new(3, 4);
    let mut ran = false;
    let r = call_simple(&engine, &mut global, &mut caches, &mut scope, None, &f, true, pos, |fr| {
        ran = true;
        (fr, Ok(Dynamic::Unit))
    });
    assert!(!ran);
    assert_eq!(r, Err(EvalAltResult::ErrorTooManyOperations(pos)));
    assert_eq!(global.num_operations, 2);
}

#[test]
fn call_fails_on_stack_overflow() {
    let engine = Engine::new();
    let mut global = GlobalRuntimeState::new();
    global.level = MAX_CALL_STACK_DEPTH + 1;
    let mut caches = Caches::new();
    let mut scope = Scope::new();
    let f = def("f", &[], &["1"]);
    let pos = Position::new(5, 1);
    let r = call_simple(&engine, &mut global, &mut caches, &mut scope, None, &f, true, pos, |fr| {
        (fr, Ok(Dynamic::Unit))
    });
    assert_eq!(r, Err(EvalAltResult::ErrorStackOverflow(pos)));

    // At the limit itself the call goes ahead.
    global.level = MAX_CALL_STACK_DEPTH;
    let r = call_simple(&engine, &mut global, &mut caches, &mut scope, None, &f, true, pos, |fr| {
        (fr, Ok(Dynamic::Int(1)))
    });
    assert_eq!(r, Ok(Dynamic::Int(1)));
}

#[test]
fn call_with_empty_body_returns_unit() {
    let engine = Engine::new();
    let mut global = GlobalRuntimeState::new();
    let mut caches = Caches::new();
    let mut scope = Scope::new();
    let f = def("f", &["x"], &[]);
    let mut args = vec![Dynamic::Int(1)];
    let mut borrowed: Vec<BorrowedScopeEntry> = Vec::new();
    let r = engine.call_script_fn(
        &mut global,
        &mut caches,
        &mut scope,
        None,
        None,
        &f,
        &mut args,
        &mut borrowed,
        true,
        Position::none(),
        |fr: EvalFrame| (fr, Ok(Dynamic::Int(99))),
    );
    assert_eq!(r, Ok(Dynamic::Unit));
    // Nothing was consumed or bound.
    assert_eq!(args, vec![Dynamic::Int(1)]);
    assert_eq!(scope.len(), 0);
}

#[test]
fn call_fails_on_too_many_variables() {
    let mut engine = Engine::new();
    engine.set_max_variables(2);
    let mut global = GlobalRuntimeState::new();
    let mut caches = Caches::new();
    let mut scope = Scope::new();
    scope.push("a", Dynamic::Unit);
    let f = def("f", &["x"], &["x"]);
    let pos = Position::new(2, 2);

    let mut host = Dynamic::Int(0);
    let mut args = vec![Dynamic::Int(1)];
    let mut borrowed = vec![BorrowedScopeEntry::dynamic("h", &mut host)];
    let r = engine.call_script_fn(
        &mut global,
        &mut caches,
        &mut scope,
        None,
        None,
        &f,
        &mut args,
        &mut borrowed,
        true,
        pos,
        |fr: EvalFrame| (fr, Ok(Dynamic::Unit)),
    );
    assert_eq!(r, Err(EvalAltResult::ErrorTooManyVariables(pos)));

    // An opaque binding does not count as a variable.
    let mut args = vec![Dynamic::Int(1)];
    let mut borrowed = vec![BorrowedScopeEntry::opaque("h", 1)];
    let r = engine.call_script_fn(
        &mut global,
        &mut caches,
        &mut scope,
        None,
        None,
        &f,
        &mut args,
        &mut borrowed,
        true,
        pos,
        |fr: EvalFrame| (fr, Ok(Dynamic::Int(7))),
    );
    assert_eq!(r, Ok(Dynamic::Int(7)));
}

#[test]
fn lent_value_may_not_shadow_a_parameter() {
    let engine = Engine::new();
    let mut global = GlobalRuntimeState::new();
    let mut caches = Caches::new();
    let mut scope = Scope::new();
    let f = def("f", &["x"], &["x"]);
    let mut host = Dynamic::Int(5);
    let mut args = vec![Dynamic::Int(1)];
    let r = {
        let mut borrowed = vec![
            BorrowedScopeEntry::opaque("x", 1),
            BorrowedScopeEntry::dynamic("x", &mut host),
        ];
        engine.call_script_fn(
            &mut global,
            &mut caches,
            &mut scope,
            None,
            None,
            &f,
            &mut args,
            &mut borrowed,
            true,
            Position::new(1, 1),
            |fr: EvalFrame| (fr, Ok(Dynamic::Unit)),
        )
    };
    assert_eq!(
        r,
        Err(EvalAltResult::ErrorRuntime(
            Dynamic::Str("borrowed scope binding 'x' conflicts with an existing variable".to_string()),
            Position::new(1, 1)
        ))
    );
    // Nothing was touched.
    assert_eq!(host, Dynamic::Int(5));
    assert_eq!(args, vec![Dynamic::Int(1)]);
    assert!(global.active_borrowed_scope.is_none());
}

#[test]
fn call_result_from_return_exit_and_errors() {
    let engine = Engine::new();
    let mut global = GlobalRuntimeState::new();
    global.source = Some("main.rhai".to_string());
    let mut caches = Caches::new();
    let mut scope = Scope::new();
    let f = def("f", &[], &["body"]);
    let pos = Position::new(10, 5);

    let r = call_simple(&engine, &mut global, &mut caches, &mut scope, None, &f, true, pos, |fr| {
        (fr, Err(EvalAltResult::Return(Dynamic::Int(7), Position::new(1, 1))))
    });
    assert_eq!(r, Ok(Dynamic::Int(7)));

    let r = call_simple(&engine, &mut global, &mut caches, &mut scope, None, &f, true, pos, |fr| {
        (fr, Err(EvalAltResult::Exit(Dynamic::Int(1), Position::new(1, 1))))
    });
    assert_eq!(r, Err(EvalAltResult::Exit(Dynamic::Int(1), pos)));

    let r = call_simple(&engine, &mut global, &mut caches, &mut scope, None, &f, true, pos, |fr| {
        (fr, Err(EvalAltResult::ErrorTooManyModules(Position::new(1, 1))))
    });
    assert_eq!(r, Err(EvalAltResult::ErrorTooManyModules(pos)));

    let r = call_simple(&engine, &mut global, &mut caches, &mut scope, None, &f, true, pos, |fr| {
        (fr, Err(EvalAltResult::ErrorSystem("boom".to_string())))
    });
    assert_eq!(r, Err(EvalAltResult::ErrorSystem("boom".to_string())));

    let inner = EvalAltResult::ErrorVariableNotFound("y".to_string(), Position::new(2, 3));
    let inner_copy = EvalAltResult::ErrorVariableNotFound("y".to_string(), Position::new(2, 3));
    let r = call_simple(&engine, &mut global, &mut caches, &mut scope, None, &f, true, pos, |fr| {
        (fr, Err(inner))
    });
    assert_eq!(
        r,
        Err(EvalAltResult::ErrorInFunctionCall(
            "f".to_string(),
            "main.rhai".to_string(),
            Box::new(inner_copy),
            pos
        ))
    );

    // The environment's last library names the source when it has an identifier.
    let env = EncapsulatedEnviron {
        lib: vec![module(Some("first"), &[], &[]), module(Some("lib.rhai"), &[], &[])],
        imports: Vec::new(),
        constants: None,
    };
    let r = call_simple(&engine, &mut global, &mut caches, &mut scope, Some(&env), &f, true, pos, |fr| {
        (fr, Err(EvalAltResult::ErrorRuntime(Dynamic::Unit, Position::new(1, 1))))
    });
    match r {
        Err(EvalAltResult::ErrorInFunctionCall(name, src, _, p)) => {
            assert_eq!(name, "f");
            assert_eq!(src, "lib.rhai");
            assert_eq!(p, pos);
        }
        other => panic!("unexpected {:?}", other),
    }

    // Without any source the source is empty.
    global.source = None;
    let r = call_simple(&engine, &mut global, &mut caches, &mut scope, None, &f, true, pos, |fr| {
        (fr, Err(EvalAltResult::ErrorRuntime(Dynamic::Unit, Position::new(1, 1))))
    });
    match r {
        Err(EvalAltResult::ErrorInFunctionCall(_, src, _, _)) => assert_eq!(src, ""),
        other => panic!("unexpected {:?}", other),
    }
}

#[test]
fn call_binds_parameters_and_consumes_arguments() {
    let engine = Engine::new();
    let mut global = GlobalRuntimeState::new();
    let mut caches = Caches::new();
    let mut scope = Scope::new();
    scope.push("outer", Dynamic::Int(0));
    let f = def("add", &["x", "n"], &["x + n"]);
    let mut args = vec![Dynamic::Int(40), Dynamic::Int(2)];
    let mut borrowed: Vec<BorrowedScopeEntry> = Vec::new();
    let r = engine.call_script_fn(
        &mut global,
        &mut caches,
        &mut scope,
        None,
        None,
        &f,
        &mut args,
        &mut borrowed,
        true,
        Position::none(),
        |fr: EvalFrame| {
            assert_eq!(fr.scope.len(), 3);
            assert_eq!(fr.scope.get_at(1).0, "x");
            assert_eq!(fr.scope.get_at(2).0, "n");
            assert_eq!(fr.global.num_operations, 1);
            let x = fr.scope.get_value("x").unwrap().as_int().unwrap();
            let n = fr.scope.get_value("n").unwrap().as_int().unwrap();
            (fr, Ok(Dynamic::Int(x + n)))
        },
    );
    assert_eq!(r, Ok(Dynamic::Int(42)));
    assert_eq!(args, vec![Dynamic::Unit, Dynamic::Unit]);
    assert_eq!(scope.len(), 1);
}

#[test]
fn call_scope_rewinding() {
    let engine = Engine::new();
    let mut global = GlobalRuntimeState::new();
    let mut caches = Caches::new();
    let mut scope = Scope::new();
    scope.push("foo", Dynamic::Int(42));
    let define_var = def("define_var", &["scale"], &["let bar = 21;", "bar * scale"]);
    let body = |mut fr: EvalFrame| {
        fr.scope.push("bar", Dynamic::Int(21));
        let scale = fr.scope.get_value("scale").unwrap().as_int().unwrap();
        (fr, Ok(Dynamic::Int(21 * scale)))
    };

    let mut args = vec![Dynamic::Int(2)];
    let mut borrowed: Vec<BorrowedScopeEntry> = Vec::new();
    let r = engine.call_script_fn(
        &mut global, &mut caches, &mut scope, None, None, &define_var, &mut args, &mut borrowed, true,
        Position::none(), body,
    );
    assert_eq!(r, Ok(Dynamic::Int(42)));
    assert!(!scope.contains("bar"));
    assert_eq!(scope.len(), 1);

    let mut args = vec![Dynamic::Int(2)];
    let r = engine.call_script_fn(
        &mut global, &mut caches, &mut scope, None, None, &define_var, &mut args, &mut borrowed, false,
        Position::none(), body,
    );
    assert_eq!(r, Ok(Dynamic::Int(42)));
    assert_eq!(scope.get_value("bar"), Some(&Dynamic::Int(21)));
    assert!(!scope.contains("scale"));
    assert_eq!(scope.len(), 2);
}

#[test]
fn call_merges_and_restores_environment() {
    let engine = Engine::new();
    let mut global = GlobalRuntimeState::new();
    global.lib.push(module(Some("main"), &[1], &[]));
    global.constants = Some(vec![("C".to_string(), Dynamic::Int(1))]);
    let mut caches = Caches::new();
    caches.push_fn_resolution_cache();
    let mut scope = Scope::new();
    let env = EncapsulatedEnviron {
        lib: vec![module(Some("defining"), &[2], &[])],
        imports: vec![("m".to_string(), module(None, &[], &[3]))],
        constants: Some(vec![("D".to_string(), Dynamic::Int(2))]),
    };
    let f = def("f", &[], &["import \"x\" as x;"]);
    let r = call_simple(&engine, &mut global, &mut caches, &mut scope, Some(&env), &f, true, Position::none(), |mut fr| {
        assert_eq!(fr.global.lib.len(), 2);
        assert_eq!(fr.global.lib[1].id(), Some("defining"));
        assert_eq!(fr.global.num_imports(), 1);
        assert_eq!(fr.global.imports[0].0, "m");
        assert_eq!(fr.global.constants, Some(vec![("D".to_string(), Dynamic::Int(2))]));
        // The body imports a module and opens a cache of its own.
        fr.global.push_import("x".to_string(), module(None, &[], &[]));
        fr.caches.push_fn_resolution_cache();
        (fr, Ok(Dynamic::Unit))
    });
    assert_eq!(r, Ok(Dynamic::Unit));
    assert_eq!(global.lib.len(), 1);
    assert_eq!(global.num_imports(), 0);
    assert_eq!(global.constants, Some(vec![("C".to_string(), Dynamic::Int(1))]));
    assert_eq!(caches.fn_resolution_caches_len(), 1);
}

#[test]
fn lent_binding_is_active_during_the_call_only() {
    let engine = Engine::new();
    let mut global = GlobalRuntimeState::new();
    let mut caches = Caches::new();
    let mut scope = Scope::new();
    let f = def("f", &[], &["h"]);
    let mut host = Dynamic::Int(10);
    {
        let mut args = Vec::new();
        let mut borrowed = vec![
            BorrowedScopeEntry::dynamic("h", &mut host),
            BorrowedScopeEntry::opaque("o", 4),
        ];
        let r = engine.call_script_fn(
            &mut global,
            &mut caches,
            &mut scope,
            None,
            None,
            &f,
            &mut args,
            &mut borrowed,
            true,
            Position::none(),
            |fr: EvalFrame| {
                let active = fr.global.active_borrowed_scope.as_ref().unwrap();
                assert_eq!(active.len(), 2);
                assert_eq!(active[0].0, "h");
                assert_eq!(active[1].0, "o");
                // The lent value sits in a shared cell; the variable holds its handle.
                assert_eq!(fr.scope.get_value("h"), Some(&Dynamic::Shared(0)));
                assert_eq!(fr.global.shared_values[0], Dynamic::Int(10));
                assert!(!fr.scope.contains("o"));
                (fr, Ok(Dynamic::Unit))
            },
        );
        assert_eq!(r, Ok(Dynamic::Unit));
        assert_eq!(borrowed[0].name(), "h");
    }
    assert!(global.active_borrowed_scope.is_none());
    assert_eq!(global.shared_values[0], Dynamic::ExpiredBinding("h".to_string()));
    assert_eq!(host, Dynamic::Int(10));
    assert_eq!(scope.len(), 0);
}

#[test]
fn later_binding_under_a_name_replaces_the_earlier() {
    let engine = Engine::new();
    let mut global = GlobalRuntimeState::new();
    let mut caches = Caches::new();
    let mut scope = Scope::new();
    let f = def("f", &[], &["o"]);
    let mut args = Vec::new();
    let mut borrowed = vec![
        BorrowedScopeEntry::opaque("o", 4),
        BorrowedScopeEntry::opaque("p", 5),
        BorrowedScopeEntry::opaque("o", 7),
    ];
    let r = engine.call_script_fn(
        &mut global,
        &mut caches,
        &mut scope,
        None,
        None,
        &f,
        &mut args,
        &mut borrowed,
        true,
        Position::none(),
        |fr: EvalFrame| {
            let active = fr.global.active_borrowed_scope.as_ref().unwrap();
            assert_eq!(active.len(), 2);
            assert_eq!(active[0].0, "o");
            assert!(matches!(active[0].1, ActiveBorrowedValue::Opaque(BorrowedOpaquePointer { ptr: 7 })));
            assert_eq!(active[1].0, "p");
            assert!(matches!(active[1].1, ActiveBorrowedValue::Opaque(BorrowedOpaquePointer { ptr: 5 })));
            (fr, Ok(Dynamic::Unit))
        },
    );
    assert_eq!(r, Ok(Dynamic::Unit));
    assert!(global.active_borrowed_scope.is_none());
}

#[test]
fn error_position_and_system_exceptions() {
    let mut e = EvalAltResult::ErrorRuntime(Dynamic::Unit, Position::none());
    assert!(!e.is_system_exception());
    e.set_position(Position::new(4, 2));
    assert_eq!(e, EvalAltResult::ErrorRuntime(Dynamic::Unit, Position::new(4, 2)));
    let mut s = EvalAltResult::ErrorSystem("x".to_string());
    assert!(s.is_system_exception());
    s.set_position(Position::new(4, 2));
    assert_eq!(s, EvalAltResult::ErrorSystem("x".to_string()));
    assert!(EvalAltResult::ErrorTerminated(Dynamic::Unit, Position::none()).is_system_exception());
    assert!(!EvalAltResult::Exit(Dynamic::Unit, Position::none()).is_system_exception());
}

#[test]
fn module_lookup_and_copy() {
    let m = module(Some("m"), &[1, 2], &[3]);
    assert!(m.contains_fn(2));
    assert!(!m.contains_fn(3));
    assert!(m.contains_qualified_fn(3));
    let c = m.duplicate();
    assert_eq!(c.id(), Some("m"));
    assert_eq!(c.functions, vec![1, 2]);
    let mut global = GlobalRuntimeState::new();
    global.push_import("a".to_string(), c);
    assert!(global.contains_qualified_fn(3));
    global.truncate_imports(0);
    assert!(!global.contains_qualified_fn(3));
    assert_eq!(global.source(), None);
}

#[test]
fn lending_a_shared_handle_reuses_its_cell() {
    let engine = Engine::new();
    let mut global = GlobalRuntimeState::new();
    global.shared_values.push(Dynamic::Int(5));
    let mut caches = Caches::new();
    let mut scope = Scope::new();
    let f = def("f", &[], &["h += 1"]);
    let mut host = Dynamic::Shared(0);
    {
        let mut args = Vec::new();
        let mut borrowed = vec![BorrowedScopeEntry::dynamic("h", &mut host)];
        let r = engine.call_script_fn(
            &mut global,
            &mut caches,
            &mut scope,
            None,
            None,
            &f,
            &mut args,
            &mut borrowed,
            true,
            Position::none(),
            |mut fr: EvalFrame| {
                // No new cell: the variable holds the host's own handle.
                assert_eq!(fr.global.shared_values.len(), 1);
                assert_eq!(fr.scope.get_value("h"), Some(&Dynamic::Shared(0)));
                fr.global.shared_values[0] = Dynamic::Int(6);
                (fr, Ok(Dynamic::Unit))
            },
        );
        assert_eq!(r, Ok(Dynamic::Unit));
    }
    // The host gets the cell's content, and the cell is expired.
    assert_eq!(host, Dynamic::Int(6));
    assert_eq!(global.shared_values, vec![Dynamic::ExpiredBinding("h".to_string())]);
}

#[test]
fn write_back_reads_through_nested_handles() {
    let engine = Engine::new();
    let mut global = GlobalRuntimeState::new();
    global.shared_values.push(Dynamic::Int(5));
    let mut caches = Caches::new();
    let mut scope = Scope::new();
    let f = def("f", &[], &["h = other"]);
    let mut host = Dynamic::Int(1);
    {
        let mut args = Vec::new();
        let mut borrowed = vec![BorrowedScopeEntry::dynamic("h", &mut host)];
        let r = engine.call_script_fn(
            &mut global,
            &mut caches,
            &mut scope,
            None,
            None,
            &f,
            &mut args,
            &mut borrowed,
            true,
            Position::none(),
            |mut fr: EvalFrame| {
                // The binding's cell (cell 1) is left holding a handle to cell 0.
                assert_eq!(fr.scope.get_value("h"), Some(&Dynamic::Shared(1)));
                fr.global.shared_values[1] = Dynamic::Shared(0);
                (fr, Ok(Dynamic::Unit))
            },
        );
        assert_eq!(r, Ok(Dynamic::Unit));
    }
    // The host gets the value behind the handle, not the handle.
    assert_eq!(host, Dynamic::Int(5));
    assert_eq!(global.shared_values[1], Dynamic::ExpiredBinding("h".to_string()));
}
