use calcit_runner::code::Code;
use calcit_runner::codegen::run_codegen;
use calcit_runner::entries::make_program_entries;
use calcit_runner::loader::{create_file_from_snippet, parse_snapshot, parse_snippet};
use calcit_runner::snapshot::extract_program_data;
use calcit_runner::store::ProgramStore;

fn leaf(s: &str) -> Code {
    Code::Leaf(s.to_string())
}

fn form(xs: Vec<Code>) -> Code {
    Code::Form(xs)
}

fn defn(name: &str, params: Vec<&str>, body: Code) -> Code {
    let ps: Vec<Code> = params.into_iter().map(leaf).collect();
    form(vec![leaf("defn"), leaf(name), form(ps), body])
}

fn store_with_entries(reload_body: Code) -> ProgramStore {
    let mut store = ProgramStore::new();
    store.upsert(
        "app.main".to_string(),
        "main!".to_string(),
        defn("main!", vec![], form(vec![leaf("&+"), leaf("1"), leaf("2")])),
    );
    store.upsert(
        "app.main".to_string(),
        "reload!".to_string(),
        defn("reload!", vec![], reload_body),
    );
    store
}

#[test]
fn a_warning_writes_a_diagnostic_sentinel_and_blocks_emission() {
    let store = store_with_entries(leaf("undefined-thing"));
    let entries = make_program_entries(
        "app.main/main!".to_string(),
        "app.main/reload!".to_string(),
    )
    .unwrap();
    let blocked = run_codegen(&store, &entries, false).unwrap_err();
    assert_eq!(
        blocked.failure.message,
        "Found 1 warnings, codegen blocked. errors in calcit.build-errors.js"
    );
    // the warnings gate is a policy refusal, not a descent: no frames
    assert_eq!(blocked.failure.stack.depth(), 0);
    let sentinel = blocked.sentinel.unwrap();
    assert_eq!(
        sentinel,
        "export default \"unresolved symbol: undefined-thing (3)\";"
    );
    assert!(sentinel.contains("undefined-thing"));
}

#[test]
fn a_clean_program_writes_the_null_sentinel_and_emits_units() {
    let store = store_with_entries(leaf("nil"));
    let entries = make_program_entries(
        "app.main/main!".to_string(),
        "app.main/reload!".to_string(),
    )
    .unwrap();
    let units = run_codegen(&store, &entries, false).unwrap();
    assert_eq!(units[0].name, "calcit.build-errors.js");
    assert_eq!(units[0].content, "export default null;");
    assert_eq!(units.len(), 2);
    assert_eq!(units[1].name, "app.main.js");
    assert_eq!(
        units[1].content,
        "main! = (defn main! () (&+ 1 2))\nreload! = (defn reload! () nil)\n"
    );
}

#[test]
fn ir_emission_produces_a_single_portable_unit() {
    let store = store_with_entries(leaf("nil"));
    let entries = make_program_entries(
        "app.main/main!".to_string(),
        "app.main/reload!".to_string(),
    )
    .unwrap();
    let units = run_codegen(&store, &entries, true).unwrap();
    assert_eq!(units.len(), 2);
    assert_eq!(units[0].content, "export default null;");
    assert_eq!(units[1].name, "program-ir.cirru");
    assert_eq!(
        units[1].content,
        "entries app.main/main! app.main/reload!\n(defn main! () (&+ 1 2))\n(defn reload! () nil)\n"
    );
}

#[test]
fn an_init_preprocessing_failure_writes_its_own_sentinel() {
    let store = ProgramStore::new();
    let entries = make_program_entries(
        "app.main/main!".to_string(),
        "app.main/reload!".to_string(),
    )
    .unwrap();
    let blocked = run_codegen(&store, &entries, false).unwrap_err();
    assert_eq!(blocked.failure.message, "namespace not found: app.main");
    let sentinel = blocked.sentinel.unwrap();
    assert!(sentinel.starts_with("export default \"Preprocessing failed:"));
    assert!(sentinel.contains("namespace not found: app.main"));
}

#[test]
fn a_reload_preprocessing_failure_blocks_without_a_sentinel() {
    let mut store = ProgramStore::new();
    store.upsert(
        "app.main".to_string(),
        "main!".to_string(),
        defn("main!", vec![], leaf("nil")),
    );
    let entries = make_program_entries(
        "app.main/main!".to_string(),
        "app.main/reload!".to_string(),
    )
    .unwrap();
    let blocked = run_codegen(&store, &entries, false).unwrap_err();
    assert_eq!(blocked.failure.message, "definition not found: app.main/reload!");
    assert!(blocked.sentinel.is_none());
}

#[test]
fn snapshot_text_loads_files_and_configs() {
    let text = "\n{}\n  :configs $ {}\n    :init-fn |app.main/main!\n    :reload-fn |app.main/reload!\n  :files $ {}\n    |app.main $ {}\n      :ns $ quote\n        ns app.main\n      :defs $ {}\n        |main! $ quote\n          defn main! () $ &+ 1 2\n        |reload! $ quote\n          defn reload! () nil\n";
    let snapshot = parse_snapshot(text).unwrap();
    assert_eq!(snapshot.configs.init_fn, "app.main/main!");
    assert_eq!(snapshot.configs.reload_fn, "app.main/reload!");
    assert!(snapshot.configs.modules.is_empty());
    let table = extract_program_data(snapshot.files);
    let mut store = ProgramStore::new();
    store.replace_all(table);
    let entries = make_program_entries(
        "app.main/main!".to_string(),
        "app.main/reload!".to_string(),
    )
    .unwrap();
    let units = run_codegen(&store, &entries, false).unwrap();
    assert_eq!(units[0].content, "export default null;");
    let mut outputs: Vec<String> = Vec::new();
    let v = calcit_runner::runner::run_program(
        &store,
        &"app.main".to_string(),
        &"main!".to_string(),
        vec![],
        &mut outputs,
    )
    .unwrap();
    assert!(matches!(v, calcit_runner::value::Value::NumV(3)));
}

#[test]
fn snippets_parse_into_a_main_file() {
    let forms = parse_snippet("&+ 1 2").unwrap();
    assert_eq!(forms.len(), 1);
    let file = create_file_from_snippet(forms);
    assert_eq!(file.ns, "app.main");
    let main_def = file.defs.get(&"main!".to_string()).unwrap();
    assert_eq!(
        calcit_runner::codegen::render_code(main_def),
        "(defn main! () (&+ 1 2))"
    );
}

#[test]
fn named_entry_configs_override_the_default() {
    let text = "\n{}\n  :configs $ {}\n    :init-fn |app.main/main!\n    :reload-fn |app.main/reload!\n  :entries $ {}\n    |dev $ {}\n      :init-fn |app.main/dev!\n      :reload-fn |app.main/reload!\n  :files $ {}\n    |app.main $ {}\n      :ns $ quote\n        ns app.main\n      :defs $ {}\n        |main! $ quote\n          defn main! () 1\n";
    let snapshot = parse_snapshot(text).unwrap();
    let dev = snapshot.entries.get(&"dev".to_string()).unwrap();
    assert_eq!(dev.init_fn, "app.main/dev!");
    assert_eq!(dev.reload_fn, "app.main/reload!");
    assert!(snapshot.entries.get(&"prod".to_string()).is_none());
}

#[test]
fn macro_definitions_are_expanded_not_emitted() {
    let mut store = store_with_entries(leaf("nil"));
    store.upsert(
        "app.main".to_string(),
        "twice".to_string(),
        form(vec![
            leaf("defmacro"),
            leaf("twice"),
            form(vec![leaf("x")]),
            form(vec![leaf("&+"), leaf("x"), leaf("x")]),
        ]),
    );
    store.upsert(
        "app.main".to_string(),
        "use-twice".to_string(),
        defn("use-twice", vec![], form(vec![leaf("twice"), leaf("4")])),
    );
    let entries = make_program_entries(
        "app.main/main!".to_string(),
        "app.main/reload!".to_string(),
    )
    .unwrap();
    let units = run_codegen(&store, &entries, false).unwrap();
    // the macro itself is not emitted; its call site is emitted expanded
    assert_eq!(
        units[1].content,
        "main! = (defn main! () (&+ 1 2))\nreload! = (defn reload! () nil)\nuse-twice = (defn use-twice () (&+ 4 4))\n"
    );
}


#[test]
fn a_codegen_failure_keeps_its_backtrace_innermost_first() {
    // init entry expands m1, which expands m2, whose expansion is a
    // malformed `if`: the failure's stack holds main!, m1, m2, and the
    // shared renderer lists them innermost first.
    let mut store = ProgramStore::new();
    store.upsert(
        "app.main".to_string(),
        "m2".to_string(),
        form(vec![
            leaf("defmacro"),
            leaf("m2"),
            form(vec![leaf("x")]),
            form(vec![leaf("if"), leaf("x")]),
        ]),
    );
    store.upsert(
        "app.main".to_string(),
        "m1".to_string(),
        form(vec![
            leaf("defmacro"),
            leaf("m1"),
            form(vec![leaf("x")]),
            form(vec![leaf("m2"), leaf("x")]),
        ]),
    );
    store.upsert(
        "app.main".to_string(),
        "main!".to_string(),
        defn("main!", vec![], form(vec![leaf("m1"), leaf("5")])),
    );
    store.upsert(
        "app.main".to_string(),
        "reload!".to_string(),
        defn("reload!", vec![], leaf("nil")),
    );
    let entries = make_program_entries(
        "app.main/main!".to_string(),
        "app.main/reload!".to_string(),
    )
    .unwrap();
    let blocked = run_codegen(&store, &entries, false).unwrap_err();
    assert_eq!(blocked.failure.message, "if expects 3 arguments");
    let text = calcit_runner::diagnostics::display_stack(
        &blocked.failure.message,
        &blocked.failure.stack,
        blocked.failure.coord.as_ref(),
    );
    assert_eq!(
        text,
        "if expects 3 arguments\n  at (3)\n  at app.main/m2 (3)\n  at app.main/m1 (3)\n  at app.main/main!"
    );
}
