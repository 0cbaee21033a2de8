use calcit_runner::code::Code;
use calcit_runner::codegen::render_code;
use calcit_runner::snapshot::{attach_files, extract_program_data, FileInSnapshot};
use calcit_runner::store::ProgramStore;
use calcit_runner::table::NameTable;

fn leaf(s: &str) -> Code {
    Code::Leaf(s.to_string())
}

fn form(xs: Vec<Code>) -> Code {
    Code::Form(xs)
}

fn one_def_file(ns: &str, def: &str, code: Code) -> FileInSnapshot {
    let mut defs: NameTable<Code> = NameTable::new();
    defs.insert(def.to_string(), code);
    FileInSnapshot { ns: ns.to_string(), defs }
}

fn file_table(files: Vec<FileInSnapshot>) -> NameTable<FileInSnapshot> {
    let mut t: NameTable<FileInSnapshot> = NameTable::new();
    for f in files {
        let key = f.ns.clone();
        t.insert(key, f);
    }
    t
}

#[test]
fn later_merged_file_wins_for_a_shared_namespace() {
    // app file first, module file merged afterwards: last merge wins.
    let mut files = file_table(vec![one_def_file("app.main", "a", leaf("app-version"))]);
    let incoming = file_table(vec![one_def_file("app.main", "a", leaf("module-version"))]);
    attach_files(&mut files, incoming);
    let f = files.get(&"app.main".to_string()).unwrap();
    let code = f.defs.get(&"a".to_string()).unwrap();
    assert_eq!(render_code(code), "module-version");
}

#[test]
fn merge_keeps_unrelated_namespaces() {
    let mut files = file_table(vec![
        one_def_file("app.main", "a", leaf("1")),
        one_def_file("app.lib", "b", leaf("2")),
    ]);
    let incoming = file_table(vec![one_def_file("app.extra", "c", leaf("3"))]);
    attach_files(&mut files, incoming);
    assert_eq!(files.len(), 3);
    let untouched = files.get(&"app.lib".to_string()).unwrap();
    assert_eq!(render_code(untouched.defs.get(&"b".to_string()).unwrap()), "2");
    let added = files.get(&"app.extra".to_string()).unwrap();
    assert_eq!(render_code(added.defs.get(&"c".to_string()).unwrap()), "3");
}

#[test]
fn extracted_program_data_maps_each_namespace_to_its_defs() {
    let files = file_table(vec![
        one_def_file("app.main", "a", leaf("1")),
        one_def_file("app.lib", "b", form(vec![leaf("x"), leaf("y")])),
    ]);
    let table = extract_program_data(files);
    let mut store = ProgramStore::new();
    store.replace_all(table);
    let a = store.lookup(&"app.main".to_string(), &"a".to_string()).unwrap();
    assert_eq!(render_code(a), "1");
    let b = store.lookup(&"app.lib".to_string(), &"b".to_string()).unwrap();
    assert_eq!(render_code(b), "(x y)");
    assert!(store.lookup(&"app.main".to_string(), &"missing".to_string()).is_none());
    assert!(store.lookup(&"nope".to_string(), &"a".to_string()).is_none());
}

#[test]
fn upsert_replaces_one_definition_only() {
    let mut store = ProgramStore::new();
    store.upsert("app.main".to_string(), "a".to_string(), leaf("old"));
    store.upsert("app.main".to_string(), "b".to_string(), leaf("kept"));
    store.upsert("app.lib".to_string(), "c".to_string(), leaf("also-kept"));
    store.upsert("app.main".to_string(), "a".to_string(), leaf("new"));
    let a = store.lookup(&"app.main".to_string(), &"a".to_string()).unwrap();
    assert_eq!(render_code(a), "new");
    let b = store.lookup(&"app.main".to_string(), &"b".to_string()).unwrap();
    assert_eq!(render_code(b), "kept");
    let c = store.lookup(&"app.lib".to_string(), &"c".to_string()).unwrap();
    assert_eq!(render_code(c), "also-kept");
}

#[test]
fn table_last_insert_wins_and_order_is_kept() {
    let mut t: NameTable<Code> = NameTable::new();
    t.insert("x".to_string(), leaf("1"));
    t.insert("y".to_string(), leaf("2"));
    t.insert("x".to_string(), leaf("3"));
    assert_eq!(t.len(), 2);
    assert_eq!(render_code(t.get(&"x".to_string()).unwrap()), "3");
    // replacement keeps the first-insertion position
    let (first_name, _) = t.entry_at(0);
    assert_eq!(first_name, "x");
    let (second_name, _) = t.entry_at(1);
    assert_eq!(second_name, "y");
    assert!(t.get(&"z".to_string()).is_none());
}
