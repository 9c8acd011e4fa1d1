// Calling script-defined functions. A function body is run by an evaluator
// closure that does what the script statements of the body would do.

use lib::{
    BorrowedFuncArgs, BorrowedScopeEntry, Caches, Dynamic, Engine, EvalAltResult, EvalFrame,
    FuncArgs, GlobalRuntimeState, Position, RhaiResult, Scope, ScriptFuncDef,
};
use lib::ActiveBorrowedValue;

fn def(name: &str, params: &[&str], body: &[&str]) -> ScriptFuncDef {
    ScriptFuncDef {
        name: name.to_string(),
        params: params.iter().map(|p| p.to_string()).collect(),
        body: body.iter().map(|s| s.to_string()).collect(),
    }
}

/// The value of the newest variable `name`, read through a shared handle.
fn read_var(frame: &EvalFrame, name: &str) -> Dynamic {
    let v = frame.scope.get_value(name).expect("variable should exist");
    match v {
        Dynamic::Shared(id) => frame.global.shared_values[*id].duplicate(),
        other => other.duplicate(),
    }
}

/// Assign to the newest variable `name`, writing through a shared handle.
fn write_var(frame: &mut EvalFrame, name: &str, value: Dynamic) {
    let idx = frame.scope.index_of(name).expect("variable should exist");
    match &frame.scope.get_at(idx).1 {
        Dynamic::Shared(id) => {
            let id = *id;
            frame.global.shared_values[id] = value;
        }
        _ => frame.scope.set_at(idx, value),
    }
}

struct Options {
    pub foo: bool,
    pub bar: String,
    pub baz: i64,
}

impl FuncArgs for Options {
    fn parse(self, container: &mut Vec<Dynamic>) {
        container.push(Dynamic::Bool(self.foo));
        container.push(Dynamic::Str(self.bar));
        container.push(Dynamic::Int(self.baz));
    }
}

#[test]
fn test_call_fn_args() {
    let options = Options { foo: false, bar: "world".to_string(), baz: 42 };

    let engine = Engine::new();
    let mut global = GlobalRuntimeState::new();
    let mut caches = Caches::new();
    let mut scope = Scope::new();
    let hello = def("hello", &["x", "y", "z"], &["if x { `hello ${y}` } else { y + z }"]);

    let mut args = Vec::new();
    options.parse(&mut args);
    assert_eq!(args, vec![Dynamic::Bool(false), Dynamic::Str("world".to_string()), Dynamic::Int(42)]);

    let mut borrowed: Vec<BorrowedScopeEntry> = Vec::new();
    let result = engine.call_script_fn(
        &mut global,
        &mut caches,
        &mut scope,
        None,
        None,
        &hello,
        &mut args,
        &mut borrowed,
        true,
        Position::none(),
        |frame: EvalFrame| {
            let x = read_var(&frame, "x").as_bool().unwrap();
            let y = read_var(&frame, "y").as_str().unwrap().to_string();
            let out = if x {
                format!("hello {}", y)
            } else {
                format!("{}{}", y, read_var(&frame, "z").as_int().unwrap())
            };
            (frame, Ok(Dynamic::Str(out)))
        },
    );

    assert_eq!(result.unwrap().as_str(), Some("world42"));
    // The arguments were consumed.
    assert!(args.iter().all(|a| a.is_unit()));
    assert_eq!(scope.len(), 0);
}

#[test]
fn test_call_fn_scope() {
    let engine = Engine::new();
    let mut global = GlobalRuntimeState::new();
    let mut caches = Caches::new();
    let mut scope = Scope::new();
    let foo = def("foo", &["x"], &["let hello = 42;", "bar + hello + x"]);

    for _ in 0..50 {
        // Evaluating the script's top level defines `bar`.
        scope.push("bar", Dynamic::Int(123));

        let mut args = vec![Dynamic::Int(3)];
        let mut borrowed: Vec<BorrowedScopeEntry> = Vec::new();
        let r = engine.call_script_fn(
            &mut global,
            &mut caches,
            &mut scope,
            None,
            None,
            &foo,
            &mut args,
            &mut borrowed,
            false,
            Position::none(),
            |mut frame: EvalFrame| {
                frame.scope.push("hello", Dynamic::Int(42));
                let bar = read_var(&frame, "bar").as_int().unwrap();
                let hello = read_var(&frame, "hello").as_int().unwrap();
                let x = read_var(&frame, "x").as_int().unwrap();
                (frame, Ok(Dynamic::Int(bar + hello + x)))
            },
        );
        assert_eq!(r.unwrap().as_int(), Some(168));
    }

    assert_eq!(scope.len(), 100);
}

fn update_body(mut frame: EvalFrame) -> (EvalFrame, RhaiResult) {
    let counter = read_var(&frame, "host_counter").as_int().unwrap();
    write_var(&mut frame, "host_counter", Dynamic::Int(counter + 1));
    if read_var(&frame, "flag").as_bool().unwrap() {
        let text = read_var(&frame, "host_text").as_str().unwrap().to_string();
        write_var(&mut frame, "host_text", Dynamic::Str(format!("{}!", text)));
    }
    (frame, Ok(Dynamic::Unit))
}

#[test]
fn test_call_fn_with_borrowed_scope_bindings() {
    let engine = Engine::new();
    let mut global = GlobalRuntimeState::new();
    let mut caches = Caches::new();
    let mut scope = Scope::new();
    let update = def("update", &["flag"], &["host_counter += 1;", "if flag { host_text += \"!\"; }"]);

    let mut host_counter = Dynamic::Int(41);
    let mut host_text = Dynamic::Str("abc".to_string());

    {
        let mut args = Vec::new();
        (true,).parse(&mut args);
        let mut borrowed = Vec::new();
        BorrowedFuncArgs::parse(
            [
                BorrowedScopeEntry::dynamic("host_counter", &mut host_counter),
                BorrowedScopeEntry::dynamic("host_text", &mut host_text),
            ],
            &mut borrowed,
        );
        let r = engine.call_script_fn(
            &mut global,
            &mut caches,
            &mut scope,
            None,
            None,
            &update,
            &mut args,
            &mut borrowed,
            true,
            Position::none(),
            update_body,
        );
        assert_eq!(r, Ok(Dynamic::Unit));
    }

    assert_eq!(host_counter.as_int(), Some(42));
    assert_eq!(host_text.as_str(), Some("abc!"));
}

#[test]
fn test_call_fn_with_borrowed_scope_bindings_optional_usage() {
    let engine = Engine::new();
    let mut global = GlobalRuntimeState::new();
    let mut caches = Caches::new();
    let mut scope = Scope::new();
    let maybe_use = def("maybe_use", &["flag"], &["if flag { host_data += 1; }"]);

    let mut host_data = Dynamic::Int(40);

    {
        let mut args = Vec::new();
        (false,).parse(&mut args);
        let mut borrowed = vec![BorrowedScopeEntry::dynamic("host_data", &mut host_data)];
        let r = engine.call_script_fn(
            &mut global,
            &mut caches,
            &mut scope,
            None,
            None,
            &maybe_use,
            &mut args,
            &mut borrowed,
            true,
            Position::none(),
            |mut frame: EvalFrame| {
                if read_var(&frame, "flag").as_bool().unwrap() {
                    let v = read_var(&frame, "host_data").as_int().unwrap();
                    write_var(&mut frame, "host_data", Dynamic::Int(v + 1));
                }
                (frame, Ok(Dynamic::Unit))
            },
        );
        assert_eq!(r, Ok(Dynamic::Unit));
    }

    assert_eq!(host_data.as_int(), Some(40));
}

#[test]
fn test_call_fn_with_borrowed_scope_binding_conflict() {
    let engine = Engine::new();
    let mut global = GlobalRuntimeState::new();
    let mut caches = Caches::new();
    let mut scope = Scope::new();
    scope.push("existing", Dynamic::Int(1));
    let foo = def("foo", &[], &["let _x = 1;"]);

    let mut host_value = Dynamic::Int(42);
    let mut called = false;

    let err = {
        let mut args = Vec::new();
        FuncArgs::parse((), &mut args);
        let mut borrowed = vec![BorrowedScopeEntry::dynamic("existing", &mut host_value)];
        engine
            .call_script_fn(
                &mut global,
                &mut caches,
                &mut scope,
                None,
                None,
                &foo,
                &mut args,
                &mut borrowed,
                true,
                Position::none(),
                |frame: EvalFrame| {
                    called = true;
                    (frame, Ok(Dynamic::Unit))
                },
            )
            .unwrap_err()
    };

    match err {
        EvalAltResult::ErrorRuntime(Dynamic::Str(msg), _) => {
            assert!(msg.contains("conflicts with an existing variable"));
            assert_eq!(msg, "borrowed scope binding 'existing' conflicts with an existing variable");
        }
        other => panic!("unexpected error {:?}", other),
    }
    assert!(!called);
    assert_eq!(host_value.as_int(), Some(42));
    assert_eq!(scope.len(), 1);
}

#[test]
fn test_call_fn_with_borrowed_scope_binding_expired_access() {
    let engine = Engine::new();
    let mut global = GlobalRuntimeState::new();
    let mut caches = Caches::new();
    let mut scope = Scope::new();
    scope.push("saved", Dynamic::Unit);
    let capture = def("capture", &[], &["saved = || borrowed + 1;"]);
    let invoke = def("invoke", &[], &["saved.call()"]);

    let mut host_value = Dynamic::Int(41);

    {
        let mut borrowed = vec![BorrowedScopeEntry::dynamic("borrowed", &mut host_value)];
        let mut args = Vec::new();
        engine
            .call_script_fn(
                &mut global,
                &mut caches,
                &mut scope,
                None,
                None,
                &capture,
                &mut args,
                &mut borrowed,
                false,
                Position::none(),
                |mut frame: EvalFrame| {
                    // The closure captures the binding's shared handle.
                    let handle = frame.scope.get_value("borrowed").unwrap().duplicate();
                    let idx = frame.scope.index_of("saved").unwrap();
                    frame.scope.set_at(idx, handle);
                    (frame, Ok(Dynamic::Unit))
                },
            )
            .unwrap();
    }

    let mut borrowed: Vec<BorrowedScopeEntry> = Vec::new();
    let mut args = Vec::new();
    let err = engine
        .call_script_fn(
            &mut global,
            &mut caches,
            &mut scope,
            None,
            None,
            &invoke,
            &mut args,
            &mut borrowed,
            true,
            Position::none(),
            |frame: EvalFrame| {
                let out = match frame.scope.get_value("saved").unwrap() {
                    Dynamic::Shared(id) => match &frame.global.shared_values[*id] {
                        Dynamic::ExpiredBinding(name) => Err(EvalAltResult::ErrorRuntime(
                            Dynamic::Str(format!("borrowed binding '{}' is no longer valid", name)),
                            Position::none(),
                        )),
                        Dynamic::Int(v) => Ok(Dynamic::Int(v + 1)),
                        _ => Ok(Dynamic::Unit),
                    },
                    _ => Ok(Dynamic::Unit),
                };
                (frame, out)
            },
        )
        .unwrap_err();

    match err {
        EvalAltResult::ErrorInFunctionCall(name, _, inner, _) => {
            assert_eq!(name, "invoke");
            match *inner {
                EvalAltResult::ErrorRuntime(Dynamic::Str(msg), _) => assert!(msg.contains("no longer valid")),
                other => panic!("unexpected error {:?}", other),
            }
        }
        other => panic!("unexpected error {:?}", other),
    }
    assert_eq!(host_value.as_int(), Some(41));
}

#[test]
fn test_call_fn_with_borrowed_scope_bindings_with_registered_rust_fn() {
    struct NonCloneState {
        value: i64,
    }

    let engine = Engine::new();
    let mut global = GlobalRuntimeState::new();
    let mut caches = Caches::new();
    let mut scope = Scope::new();
    let run = def("run", &[], &["bump_state(host_state);", "scale_add_state(host_state, 2);"]);

    // The host keeps its opaque values in a table; a binding carries the index.
    let mut host_states = vec![NonCloneState { value: 20 }];

    let mut borrowed = vec![BorrowedScopeEntry::opaque("host_state", 0)];
    let mut args = Vec::new();
    let r = engine.call_script_fn(
        &mut global,
        &mut caches,
        &mut scope,
        None,
        None,
        &run,
        &mut args,
        &mut borrowed,
        true,
        Position::none(),
        |frame: EvalFrame| {
            let ptr = match &frame.global.active_borrowed_scope {
                Some(bindings) => bindings
                    .iter()
                    .rev()
                    .find(|(n, _)| n == "host_state")
                    .map(|(_, v)| match v {
                        ActiveBorrowedValue::Opaque(p) => p.ptr,
                        ActiveBorrowedValue::Dynamic(_) => panic!("not opaque"),
                    })
                    .unwrap(),
                None => panic!("no active bindings"),
            };
            // An opaque binding is not a script variable.
            assert!(!frame.scope.contains("host_state"));
            let state = &mut host_states[ptr as usize];
            // bump_state(host_state)
            state.value += 1;
            // scale_add_state(host_state, 2)
            state.value = state.value * 2 + 1;
            (frame, Ok(Dynamic::Unit))
        },
    );
    assert_eq!(r, Ok(Dynamic::Unit));

    // ((20 + 1) * 2) + 1 = 43
    assert_eq!(host_states[0].value, 43);
    // The bindings are no longer active.
    assert!(global.active_borrowed_scope.is_none());
}

/// A call hash for a function name and arity.
fn fn_hash(name: &str, arity: usize) -> u64 {
    let mut h: u64 = 0xcbf29ce484222325;
    for b in name.bytes() {
        h ^= b as u64;
        h = h.wrapping_mul(0x100000001b3);
    }
    h ^ (arity as u64)
}

/// Call `f` with the given arguments, evaluating its body with `eval`.
fn call<F>(
    engine: &Engine,
    global: &mut GlobalRuntimeState,
    caches: &mut Caches,
    scope: &mut Scope,
    f: &ScriptFuncDef,
    args: impl FuncArgs,
    rewind_scope: bool,
    eval: F,
) -> RhaiResult
where
    F: FnOnce(EvalFrame) -> (EvalFrame, RhaiResult),
{
    let mut arg_values = Vec::new();
    args.parse(&mut arg_values);
    let mut borrowed: Vec<BorrowedScopeEntry> = Vec::new();
    engine.call_script_fn(
        global,
        caches,
        scope,
        None,
        None,
        f,
        &mut arg_values,
        &mut borrowed,
        rewind_scope,
        Position::none(),
        eval,
    )
}

fn int_var(frame: &EvalFrame, name: &str) -> i64 {
    read_var(frame, name).as_int().unwrap()
}

#[test]
fn test_call_fn() {
    let mut engine = Engine::new();
    let mut global = GlobalRuntimeState::new();
    let mut caches = Caches::new();
    let mut scope = Scope::new();

    // engine.register_fn("test", |x: INT, y: bool| if y { x + 1 } else { x - 1 });
    let mut native = lib::Module::new(None);
    native.add_function(fn_hash("test", 2));
    engine.register_global_module(native);
    scope.push("foo", Dynamic::Int(42));

    let mut ast = lib::Module::new(None);
    for (name, arity) in [("hello", 2), ("hello", 1), ("hello", 0), ("define_var", 1)] {
        ast.add_function(fn_hash(name, arity));
    }
    let hello2 = def("hello", &["x", "y"], &["x + y"]);
    let hello1 = def("hello", &["x"], &["x *= foo;", "foo = 1;", "x"]);
    let hello0 = def("hello", &[], &["41 + foo"]);
    let define_var = def("define_var", &["scale"], &["let bar = 21;", "bar * scale"]);

    let r = call(&engine, &mut global, &mut caches, &mut scope, &hello2, (42i64, 123i64), true, |f| {
        let v = int_var(&f, "x") + int_var(&f, "y");
        (f, Ok(Dynamic::Int(v)))
    });
    assert_eq!(r.unwrap().as_int(), Some(165));

    let r = call(&engine, &mut global, &mut caches, &mut scope, &hello1, (123i64,), true, |mut f| {
        let x = int_var(&f, "x") * int_var(&f, "foo");
        write_var(&mut f, "x", Dynamic::Int(x));
        write_var(&mut f, "foo", Dynamic::Int(1));
        (f, Ok(Dynamic::Int(x)))
    });
    assert_eq!(r.unwrap().as_int(), Some(5166));

    let r = call(&engine, &mut global, &mut caches, &mut scope, &hello0, (), true, |f| {
        let v = 41 + int_var(&f, "foo");
        (f, Ok(Dynamic::Int(v)))
    });
    assert_eq!(r.unwrap().as_int(), Some(42));

    assert_eq!(scope.get_value("foo").expect("variable foo should exist").as_int(), Some(1));

    let body = |mut f: EvalFrame| {
        f.scope.push("bar", Dynamic::Int(21));
        let v = int_var(&f, "bar") * int_var(&f, "scale");
        (f, Ok(Dynamic::Int(v)))
    };
    let r = call(&engine, &mut global, &mut caches, &mut scope, &define_var, (2i64,), true, body);
    assert_eq!(r.unwrap().as_int(), Some(42));

    assert!(!scope.contains("bar"));

    let r = call(&engine, &mut global, &mut caches, &mut scope, &define_var, (2i64,), false, body);
    assert_eq!(r.unwrap().as_int(), Some(42));

    assert_eq!(scope.get_value("bar").expect("variable bar should exist").as_int(), Some(21));

    assert!(!scope.contains("scale"));

    // Only the script's own functions: "test" is not among them.
    assert!(!ast.contains_fn(fn_hash("test", 2)));

    // In all namespaces "test" is found, and test(41, true) is 42.
    global.lib.push(ast);
    assert!(engine.has_script_fn(&global, &mut caches, fn_hash("test", 2)));
    let (x, y) = (41i64, true);
    let r = if y { x + 1 } else { x - 1 };
    assert_eq!(r, 42);
}

#[test]
fn test_call_fn_private() {
    let engine = Engine::new();
    let mut global = GlobalRuntimeState::new();
    let mut caches = Caches::new();
    let mut scope = Scope::new();

    let add = def("add", &["x", "n"], &["x + n"]);
    let body = |f: EvalFrame| {
        let v = int_var(&f, "x") + int_var(&f, "n");
        (f, Ok(Dynamic::Int(v)))
    };

    let r = call(&engine, &mut global, &mut caches, &mut scope, &add, (40i64, 2i64), true, body);
    assert_eq!(r.unwrap().as_int(), Some(42));

    // private fn add(x, n, ) { x + n }
    let r = call(&engine, &mut global, &mut caches, &mut scope, &add, (40i64, 2i64), true, body);
    assert_eq!(r.unwrap().as_int(), Some(42));
}

#[test]
fn test_fn_ptr_raw() {
    let engine = Engine::new();
    let mut global = GlobalRuntimeState::new();
    let mut caches = Caches::new();
    let mut scope = Scope::new();

    // fn foo(x) { this += x; }  let x = 41; x.bar(foo, 1); x
    let foo = def("foo", &["x"], &["this += x;"]);
    let mut x = Dynamic::Int(41);
    let mut args = vec![Dynamic::Int(1)];
    let mut borrowed: Vec<BorrowedScopeEntry> = Vec::new();
    let r = engine.call_script_fn(
        &mut global,
        &mut caches,
        &mut scope,
        Some(&mut x),
        None,
        &foo,
        &mut args,
        &mut borrowed,
        true,
        Position::none(),
        |mut f: EvalFrame| {
            let this = f.this.as_ref().unwrap().as_int().unwrap();
            f.this = Some(Dynamic::Int(this + int_var(&f, "x")));
            (f, Ok(Dynamic::Unit))
        },
    );
    assert!(r.is_ok());
    assert_eq!(x.as_int(), Some(42));

    // fn foo(x, y) { this += x + y; }  let x = 40; let v = 1; x.bar(Fn("foo").curry(v), 1); x
    let foo2 = def("foo", &["x", "y"], &["this += x + y;"]);
    let mut x = Dynamic::Int(40);
    let mut args = vec![Dynamic::Int(1), Dynamic::Int(1)];
    let r = engine.call_script_fn(
        &mut global,
        &mut caches,
        &mut scope,
        Some(&mut x),
        None,
        &foo2,
        &mut args,
        &mut borrowed,
        true,
        Position::none(),
        |mut f: EvalFrame| {
            let this = f.this.as_ref().unwrap().as_int().unwrap();
            f.this = Some(Dynamic::Int(this + int_var(&f, "x") + int_var(&f, "y")));
            (f, Ok(Dynamic::Unit))
        },
    );
    assert!(r.is_ok());
    assert_eq!(x.as_int(), Some(42));

    // private fn foo(x) { this += x; }  let x = 41; x.bar(Fn("foo"), 1); x
    let mut x = Dynamic::Int(41);
    let mut args = vec![Dynamic::Int(1)];
    let r = engine.call_script_fn(
        &mut global,
        &mut caches,
        &mut scope,
        Some(&mut x),
        None,
        &foo,
        &mut args,
        &mut borrowed,
        true,
        Position::none(),
        |mut f: EvalFrame| {
            let this = f.this.as_ref().unwrap().as_int().unwrap();
            f.this = Some(Dynamic::Int(this + int_var(&f, "x")));
            (f, Ok(Dynamic::Unit))
        },
    );
    assert!(r.is_ok());
    assert_eq!(x.as_int(), Some(42));
}

#[test]
fn test_anonymous_fn() {
    let engine = Engine::new();
    let mut global = GlobalRuntimeState::new();
    let mut caches = Caches::new();
    let mut scope = Scope::new();

    let calc = def("calc", &["x", "y", "z"], &["(x + y) * z"]);
    let r = call(&engine, &mut global, &mut caches, &mut scope, &calc, (42i64, 123i64, 9i64), true, |f| {
        let v = (int_var(&f, "x") + int_var(&f, "y")) * int_var(&f, "z");
        (f, Ok(Dynamic::Int(v)))
    });
    assert_eq!(r.unwrap().as_int(), Some(1485));

    let calc_len = def("calc", &["x", "y", "z"], &["(x + len(y)) * z"]);
    let body = |f: EvalFrame| {
        let len = read_var(&f, "y").as_str().unwrap().chars().count() as i64;
        let v = (int_var(&f, "x") + len) * int_var(&f, "z");
        (f, Ok(Dynamic::Int(v)))
    };
    for _ in 0..3 {
        let r = call(
            &engine,
            &mut global,
            &mut caches,
            &mut scope,
            &calc_len,
            (42i64, "hello".to_string(), 9i64),
            true,
            body,
        );
        assert_eq!(r.unwrap().as_int(), Some(423));
    }
}

#[test]
fn test_call_fn_events() {
    // Event handler
    struct Handler {
        engine: Engine,
        global: GlobalRuntimeState,
        caches: Caches,
        scope: Scope,
    }

    impl Handler {
        fn new() -> Self {
            let engine = Engine::new();
            let mut scope = Scope::new();
            scope.push("state", Dynamic::Bool(false));
            // fn start(data) { 42 + data }  fn end(data) { 0 }
            let mut ast = lib::Module::new(None);
            ast.add_function(fn_hash("start", 1));
            ast.add_function(fn_hash("end", 1));
            let mut global = GlobalRuntimeState::new();
            global.lib.push(ast);
            Handler { engine, global, caches: Caches::new(), scope }
        }

        fn on_event(&mut self, event_name: &str, event_data: i64) -> Dynamic {
            let hash = fn_hash(event_name, 1);
            if !self.engine.has_script_fn(&self.global, &mut self.caches, hash) {
                if event_name == "update" {
                    // Default implementation of 'update' event handler
                    let idx = self.scope.index_of("state").unwrap();
                    self.scope.set_at(idx, Dynamic::Bool(true));
                    return Dynamic::Unit;
                }
                panic!("unknown event: {}", event_name);
            }
            let f = match event_name {
                "start" => def("start", &["data"], &["42 + data"]),
                _ => def("end", &["data"], &["0"]),
            };
            let start = event_name == "start";
            call(&self.engine, &mut self.global, &mut self.caches, &mut self.scope, &f, (event_data,), true, |fr| {
                let v = if start { 42 + int_var(&fr, "data") } else { 0 };
                (fr, Ok(Dynamic::Int(v)))
            })
            .unwrap()
        }
    }

    let mut handler = Handler::new();
    assert!(!handler.scope.get_value("state").unwrap().as_bool().unwrap());
    let _ = handler.on_event("update", 999);
    assert!(handler.scope.get_value("state").unwrap().as_bool().unwrap());
    assert_eq!(handler.on_event("start", 999).as_int().unwrap(), 1041);
}

/// `set_state(name)`: set the opaque host state lent under `name` to 99.
fn set_state(frame: &EvalFrame, name: &str, states: &mut Vec<i64>) -> Result<(), EvalAltResult> {
    match &frame.global.active_borrowed_scope {
        None => Err(EvalAltResult::ErrorRuntime(
            Dynamic::Str("borrowed bindings are unavailable outside call_fn_with_borrowed_scope".to_string()),
            Position::none(),
        )),
        Some(bindings) => match bindings.iter().rev().find(|(n, _)| n == name) {
            Some((_, ActiveBorrowedValue::Opaque(p))) => {
                states[p.ptr as usize] = 99;
                Ok(())
            }
            _ => Err(EvalAltResult::ErrorRuntime(
                Dynamic::Str(format!("borrowed binding '{}' is not found", name)),
                Position::none(),
            )),
        },
    }
}

fn inner_message(err: EvalAltResult) -> String {
    match err {
        EvalAltResult::ErrorInFunctionCall(_, _, inner, _) => match *inner {
            EvalAltResult::ErrorRuntime(Dynamic::Str(m), _) => m,
            other => panic!("unexpected {:?}", other),
        },
        other => panic!("unexpected {:?}", other),
    }
}

#[test]
fn test_register_borrow_fn_missing_or_inactive_binding_errors() {
    let engine = Engine::new();
    let mut global = GlobalRuntimeState::new();
    let mut caches = Caches::new();
    let mut scope = Scope::new();
    let run = def("run", &["name"], &["set_state(name);"]);
    let mut states = vec![20i64];

    // Inactive borrowed scope.
    let err = call(&engine, &mut global, &mut caches, &mut scope, &run, ("host_state".to_string(),), true, |f| {
        let name = read_var(&f, "name").as_str().unwrap().to_string();
        let out = set_state(&f, &name, &mut states).map(|_| Dynamic::Unit);
        (f, out)
    })
    .unwrap_err();
    assert!(inner_message(err).contains("borrowed bindings are unavailable outside call_fn_with_borrowed_scope"));

    // Active borrowed scope but missing binding.
    let mut args = Vec::new();
    ("unknown".to_string(),).parse(&mut args);
    let mut borrowed = vec![BorrowedScopeEntry::opaque("host_state", 0)];
    let err = engine
        .call_script_fn(
            &mut global,
            &mut caches,
            &mut scope,
            None,
            None,
            &run,
            &mut args,
            &mut borrowed,
            true,
            Position::none(),
            |f: EvalFrame| {
                let name = read_var(&f, "name").as_str().unwrap().to_string();
                let out = set_state(&f, &name, &mut states).map(|_| Dynamic::Unit);
                (f, out)
            },
        )
        .unwrap_err();
    assert!(inner_message(err).contains("borrowed binding 'unknown' is not found"));
    assert_eq!(states[0], 20);
}
