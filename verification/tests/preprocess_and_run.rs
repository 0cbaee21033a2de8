use calcit_runner::code::Code;
use calcit_runner::diagnostics::{display_stack, LocatedWarning};
use calcit_runner::preprocess::preprocess_ns_def;
use calcit_runner::runner::run_program;
use calcit_runner::stack::CallStackList;
use calcit_runner::store::ProgramStore;
use calcit_runner::value::Value;

fn leaf(s: &str) -> Code {
    Code::Leaf(s.to_string())
}

fn form(xs: Vec<Code>) -> Code {
    Code::Form(xs)
}

fn defn(name: &str, params: Vec<&str>, body: Code) -> Code {
    let ps: Vec<Code> = params.into_iter().map(leaf).collect();
    form(vec![leaf("defn"), leaf(name), form(ps), body])
}

fn pp(
    store: &ProgramStore,
    ns: &str,
    def: &str,
) -> (
    Result<calcit_runner::expr::Expr, calcit_runner::diagnostics::LocatedFailure>,
    Vec<LocatedWarning>,
) {
    let mut warnings: Vec<LocatedWarning> = Vec::new();
    let stack = CallStackList::default();
    let r = preprocess_ns_def(
        store,
        &ns.to_string(),
        &def.to_string(),
        &mut warnings,
        &stack,
    );
    (r, warnings)
}

#[test]
fn preprocessing_resolves_a_simple_function() {
    let mut store = ProgramStore::new();
    store.upsert(
        "app.main".to_string(),
        "add3".to_string(),
        defn("add3", vec!["x"], form(vec![leaf("&+"), leaf("x"), leaf("3")])),
    );
    let (r, warnings) = pp(&store, "app.main", "add3");
    let e = r.unwrap();
    assert!(warnings.is_empty());
    let shown = format!("{e:?}");
    assert!(shown.contains("Defn"), "got: {shown}");
    assert!(shown.contains("ProcRef"), "got: {shown}");
}

#[test]
fn preprocessing_twice_gives_identical_results() {
    let mut store = ProgramStore::new();
    store.upsert(
        "app.main".to_string(),
        "main!".to_string(),
        defn(
            "main!",
            vec![],
            form(vec![leaf("&+"), leaf("1"), form(vec![leaf("&*"), leaf("2"), leaf("mystery")])]),
        ),
    );
    let (r1, w1) = pp(&store, "app.main", "main!");
    let (r2, w2) = pp(&store, "app.main", "main!");
    assert_eq!(format!("{:?}", r1.unwrap()), format!("{:?}", r2.unwrap()));
    let m1: Vec<String> = w1.iter().map(|w| w.render()).collect();
    let m2: Vec<String> = w2.iter().map(|w| w.render()).collect();
    assert_eq!(m1, m2);
}

#[test]
fn an_undefined_symbol_gives_exactly_one_warning_and_still_completes() {
    let mut store = ProgramStore::new();
    store.upsert(
        "app.main".to_string(),
        "main!".to_string(),
        defn("main!", vec![], leaf("undefined-thing")),
    );
    let (r, warnings) = pp(&store, "app.main", "main!");
    assert!(r.is_ok());
    assert_eq!(warnings.len(), 1);
    assert_eq!(warnings[0].message, "unresolved symbol: undefined-thing");
}

#[test]
fn missing_namespace_and_definition_are_failures() {
    let store = ProgramStore::new();
    let (r, _) = pp(&store, "nope", "main!");
    assert_eq!(r.unwrap_err().message, "namespace not found: nope");
    let mut store2 = ProgramStore::new();
    store2.upsert("app.main".to_string(), "other".to_string(), leaf("1"));
    let (r2, _) = pp(&store2, "app.main", "main!");
    assert_eq!(r2.unwrap_err().message, "definition not found: app.main/main!");
}

#[test]
fn macro_expansion_rewrites_the_call() {
    let mut store = ProgramStore::new();
    store.upsert(
        "app.main".to_string(),
        "twice".to_string(),
        form(vec![
            leaf("defmacro"),
            leaf("twice"),
            form(vec![leaf("x")]),
            form(vec![leaf("&+"), leaf("x"), leaf("x")]),
        ]),
    );
    store.upsert(
        "app.main".to_string(),
        "main!".to_string(),
        defn("main!", vec![], form(vec![leaf("twice"), leaf("4")])),
    );
    let mut outputs: Vec<String> = Vec::new();
    let v = run_program(
        &store,
        &"app.main".to_string(),
        &"main!".to_string(),
        vec![],
        &mut outputs,
    )
    .unwrap();
    assert!(matches!(v, Value::NumV(8)), "got: {v:?}");
}

#[test]
fn cyclic_macro_expansion_hits_the_depth_bound() {
    let mut store = ProgramStore::new();
    store.upsert(
        "app.main".to_string(),
        "m".to_string(),
        form(vec![
            leaf("defmacro"),
            leaf("m"),
            form(vec![leaf("x")]),
            form(vec![leaf("m"), leaf("x")]),
        ]),
    );
    store.upsert(
        "app.main".to_string(),
        "main!".to_string(),
        defn("main!", vec![], form(vec![leaf("m"), leaf("1")])),
    );
    let (r, _) = pp(&store, "app.main", "main!");
    assert_eq!(r.unwrap_err().message, "macro expansion too deep");
}

#[test]
fn numbers_out_of_range_are_rejected() {
    let mut store = ProgramStore::new();
    store.upsert(
        "app.main".to_string(),
        "main!".to_string(),
        defn("main!", vec![], leaf("99999999999999999999")),
    );
    let (r, _) = pp(&store, "app.main", "main!");
    assert_eq!(r.unwrap_err().message, "number out of range");
}

#[test]
fn reload_of_an_unrelated_namespace_keeps_normalized_forms() {
    let mut store = ProgramStore::new();
    store.upsert(
        "app.lib".to_string(),
        "helper".to_string(),
        defn("helper", vec!["x"], leaf("x")),
    );
    store.upsert(
        "app.main".to_string(),
        "main!".to_string(),
        defn("main!", vec![], form(vec![leaf("&+"), leaf("1"), leaf("2")])),
    );
    let (before, _) = pp(&store, "app.main", "main!");
    let before_shown = format!("{:?}", before.unwrap());
    // hot reload: replace a definition in another namespace
    store.upsert(
        "app.lib".to_string(),
        "helper".to_string(),
        defn("helper", vec!["x"], form(vec![leaf("&*"), leaf("x"), leaf("x")])),
    );
    let (after, _) = pp(&store, "app.main", "main!");
    assert_eq!(before_shown, format!("{:?}", after.unwrap()));
    // re-preprocessing the changed definition reflects the new form
    let (changed, _) = pp(&store, "app.lib", "helper");
    let changed_shown = format!("{:?}", changed.unwrap());
    assert!(changed_shown.contains("&*"), "got: {changed_shown}");
}

#[test]
fn running_a_simple_program_returns_its_value() {
    let mut store = ProgramStore::new();
    store.upsert(
        "app.main".to_string(),
        "main!".to_string(),
        defn("main!", vec![], form(vec![leaf("&+"), leaf("1"), leaf("2")])),
    );
    let mut outputs: Vec<String> = Vec::new();
    let v = run_program(
        &store,
        &"app.main".to_string(),
        &"main!".to_string(),
        vec![],
        &mut outputs,
    )
    .unwrap();
    assert!(matches!(v, Value::NumV(3)));
    assert!(outputs.is_empty());
}

#[test]
fn print_effects_are_collected_in_order() {
    let mut store = ProgramStore::new();
    store.upsert(
        "app.main".to_string(),
        "main!".to_string(),
        defn(
            "main!",
            vec![],
            form(vec![
                leaf("&+"),
                form(vec![leaf("println"), leaf("|hello"), leaf("|world")]),
                form(vec![leaf("println"), leaf("42")]),
            ]),
        ),
    );
    let mut outputs: Vec<String> = Vec::new();
    let r = run_program(
        &store,
        &"app.main".to_string(),
        &"main!".to_string(),
        vec![],
        &mut outputs,
    );
    // println returns nil, so the sum itself fails; outputs are kept
    assert!(r.is_err());
    assert_eq!(outputs, vec!["hello world".to_string(), "42".to_string()]);
}

#[test]
fn runtime_error_three_frames_deep_lists_innermost_first() {
    let mut store = ProgramStore::new();
    store.upsert(
        "app.main".to_string(),
        "a".to_string(),
        defn("a", vec![], form(vec![leaf("b")])),
    );
    store.upsert(
        "app.main".to_string(),
        "b".to_string(),
        defn("b", vec![], form(vec![leaf("c")])),
    );
    store.upsert(
        "app.main".to_string(),
        "c".to_string(),
        defn("c", vec![], form(vec![leaf("&/"), leaf("1"), leaf("0")])),
    );
    let mut outputs: Vec<String> = Vec::new();
    let f = run_program(
        &store,
        &"app.main".to_string(),
        &"a".to_string(),
        vec![],
        &mut outputs,
    )
    .unwrap_err();
    assert_eq!(f.message, "division by zero");
    let text = display_stack(&f.message, &f.stack, f.coord.as_ref());
    assert_eq!(
        text,
        "division by zero\n  at app.main/c\n  at app.main/b\n  at app.main/a"
    );
}

#[test]
fn runtime_errors_cover_the_taxonomy() {
    let mut store = ProgramStore::new();
    store.upsert(
        "app.main".to_string(),
        "one".to_string(),
        defn("one", vec!["x"], leaf("x")),
    );
    store.upsert(
        "app.main".to_string(),
        "arity".to_string(),
        defn("arity", vec![], form(vec![leaf("one")])),
    );
    store.upsert(
        "app.main".to_string(),
        "boom".to_string(),
        defn("boom", vec![], form(vec![leaf("raise"), leaf("|bad"), leaf("|input")])),
    );
    store.upsert(
        "app.main".to_string(),
        "overflow".to_string(),
        defn(
            "overflow",
            vec![],
            form(vec![leaf("&*"), leaf("9223372036854775807"), leaf("2")]),
        ),
    );
    let mut outputs: Vec<String> = Vec::new();
    let ns = "app.main".to_string();
    let f1 = run_program(&store, &ns, &"arity".to_string(), vec![], &mut outputs).unwrap_err();
    assert_eq!(f1.message, "arity mismatch calling one");
    let f2 = run_program(&store, &ns, &"boom".to_string(), vec![], &mut outputs).unwrap_err();
    assert_eq!(f2.message, "bad input");
    let f3 = run_program(&store, &ns, &"overflow".to_string(), vec![], &mut outputs).unwrap_err();
    assert_eq!(f3.message, "integer overflow");
    let f4 = run_program(&store, &ns, &"absent".to_string(), vec![], &mut outputs).unwrap_err();
    assert_eq!(f4.message, "definition not found: app.main/absent");
}

#[test]
fn conditionals_and_recursion_terminate() {
    let mut store = ProgramStore::new();
    store.upsert(
        "app.main".to_string(),
        "count".to_string(),
        defn(
            "count",
            vec!["n"],
            form(vec![
                leaf("if"),
                form(vec![leaf("&<"), leaf("n"), leaf("1")]),
                leaf("0"),
                form(vec![leaf("count"), form(vec![leaf("&-"), leaf("n"), leaf("1")])]),
            ]),
        ),
    );
    let mut outputs: Vec<String> = Vec::new();
    let v = run_program(
        &store,
        &"app.main".to_string(),
        &"count".to_string(),
        vec![Value::NumV(5)],
        &mut outputs,
    )
    .unwrap();
    assert!(matches!(v, Value::NumV(0)));
}

#[test]
fn list_values_print_their_items() {
    let mut store = ProgramStore::new();
    store.upsert(
        "app.main".to_string(),
        "main!".to_string(),
        defn(
            "main!",
            vec![],
            form(vec![
                leaf("println"),
                form(vec![leaf("&list"), leaf("1"), leaf("|two"), leaf(":three")]),
            ]),
        ),
    );
    let mut outputs: Vec<String> = Vec::new();
    let v = run_program(
        &store,
        &"app.main".to_string(),
        &"main!".to_string(),
        vec![],
        &mut outputs,
    )
    .unwrap();
    assert!(matches!(v, Value::Nil));
    assert_eq!(outputs, vec!["(1 two :three)".to_string()]);
}
