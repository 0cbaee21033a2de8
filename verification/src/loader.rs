//! Snapshot decoding: turns the plain-text program notation into the
//! snapshot the store is populated from. The text is parsed by the
//! `cirru_edn` crate; the resulting data value is opaque here, so the
//! decoding below is verified for every value the accessors can hand
//! back, and its results are plain snapshot values the rest of the
//! library reasons about exactly.

use vstd::prelude::*;
use cirru_edn::Edn;
use cirru_parser::Cirru;
use crate::code::{Code, CodeView};
use crate::snapshot::{FileInSnapshot, Snapshot, SnapshotConfigs};
use crate::table::NameTable;

verus! {

broadcast use vstd::std_specs::vec::group_vec_axioms, vstd::seq::group_seq_axioms;

#[verifier::external_type_specification]
#[verifier::external_body]
pub struct ExEdn(Edn);

#[verifier::external_type_specification]
#[verifier::external_body]
pub struct ExCirru(Cirru);

/// Relies on cirru_edn::parse: reads the plain-text program notation
/// into a data value, or reports why the text is not well formed.
#[verifier::external_body]
fn parse_edn(s: &str) -> Result<Edn, String> {
    cirru_edn::parse(s).map_err(|e| format!("{e}"))
}

/// Relies on cirru_parser::parse: reads an inline code snippet into
/// syntax trees, or reports why the text is not well formed.
#[verifier::external_body]
fn parse_cirru_snippet(s: &str) -> Result<Vec<Cirru>, String> {
    cirru_parser::parse(s).map_err(|e| format!("{e}"))
}

/// Relies on the shape of cirru_parser::Cirru: a token leaf or a list,
/// carried over one for one into the library's own code form.
#[verifier::external_body]
fn cirru_to_code(c: &Cirru) -> Code {
    match c {
        Cirru::Leaf(s) => Code::Leaf((**s).to_owned()),
        Cirru::List(xs) => Code::Form(xs.iter().map(cirru_to_code).collect()),
    }
}

/// Relies on cirru_edn::Edn::Map: hands the map's entries out as pairs,
/// in no promised order.
#[verifier::external_body]
fn edn_map_entries(d: &Edn) -> Option<Vec<(Edn, Edn)>> {
    match d {
        Edn::Map(m) => Option::Some(m.0.iter().map(|(k, v)| (k.clone(), v.clone())).collect()),
        _ => Option::None,
    }
}

/// Relies on cirru_edn's EdnMapView::get_or_nil: the value under a
/// string or tag key, or nil when the key is absent or the value is no
/// map.
#[verifier::external_body]
fn edn_get(d: &Edn, key: &str) -> Edn {
    match d {
        Edn::Map(m) => m.get_or_nil(key),
        _ => Edn::Nil,
    }
}

/// Relies on cirru_edn::Edn::Str: the text a string value holds.
#[verifier::external_body]
fn edn_str(d: &Edn) -> Option<String> {
    match d {
        Edn::Str(s) => Option::Some((**s).to_owned()),
        _ => Option::None,
    }
}

/// Relies on cirru_edn::Edn::Nil: whether the value is nil.
#[verifier::external_body]
fn edn_is_nil(d: &Edn) -> bool {
    matches!(d, Edn::Nil)
}

/// Relies on cirru_edn::Edn::Quote: the quoted code a value holds.
#[verifier::external_body]
fn edn_quote(d: &Edn) -> Option<Cirru> {
    match d {
        Edn::Quote(c) => Option::Some(c.clone()),
        _ => Option::None,
    }
}

/// Relies on cirru_edn::Edn::List: the items a list value holds; nil
/// counts as the empty list, as the crate's own list viewer reads it.
#[verifier::external_body]
fn edn_list_items(d: &Edn) -> Option<Vec<Edn>> {
    match d {
        Edn::List(xs) => Option::Some(xs.0.clone()),
        Edn::Nil => Option::Some(Vec::new()),
        _ => Option::None,
    }
}

/// Decodes one file's definition table: each entry must be a string name
/// with quoted code.
fn decode_defs(d: &Edn) -> Result<NameTable<Code>, String> {
    let entries = match edn_map_entries(d) {
        Option::Some(es) => es,
        Option::None => {
            return Result::Err("expected a map of definitions".to_owned());
        },
    };
    let mut defs: NameTable<Code> = NameTable::new();
    let n = entries.len();
    let mut i: usize = 0;
    while i < n
        invariant
            n == entries@.len(),
            i <= n,
        decreases n - i,
    {
        let (k, v) = (&entries[i].0, &entries[i].1);
        let name = match edn_str(k) {
            Option::Some(s) => s,
            Option::None => {
                return Result::Err("expected a string definition name".to_owned());
            },
        };
        let code = match edn_quote(v) {
            Option::Some(c) => cirru_to_code(&c),
            Option::None => {
                return Result::Err("expected quoted code in a definition".to_owned());
            },
        };
        defs.insert(name, code);
        i = i + 1;
    }
    Result::Ok(defs)
}

/// Decodes a configuration: the init and reload entry names, and the
/// module descriptors to attach.
fn decode_configs(d: &Edn) -> Result<SnapshotConfigs, String> {
    let init_edn = edn_get(d, "init-fn");
    let init_fn = match edn_str(&init_edn) {
        Option::Some(s) => s,
        Option::None => {
            return Result::Err("missing `init-fn` in configs".to_owned());
        },
    };
    let reload_edn = edn_get(d, "reload-fn");
    let reload_fn = match edn_str(&reload_edn) {
        Option::Some(s) => s,
        Option::None => {
            return Result::Err("missing `reload-fn` in configs".to_owned());
        },
    };
    let modules_edn = edn_get(d, "modules");
    let items = match edn_list_items(&modules_edn) {
        Option::Some(xs) => xs,
        Option::None => {
            return Result::Err("expected a list of modules".to_owned());
        },
    };
    let mut modules: Vec<String> = Vec::new();
    let n = items.len();
    let mut i: usize = 0;
    while i < n
        invariant
            n == items@.len(),
            i <= n,
        decreases n - i,
    {
        match edn_str(&items[i]) {
            Option::Some(s) => {
                modules.push(s);
            },
            Option::None => {
                return Result::Err("expected a string module descriptor".to_owned());
            },
        }
        i = i + 1;
    }
    Result::Ok(SnapshotConfigs { init_fn, reload_fn, modules })
}

/// Decodes a whole snapshot from parsed program data: the file table,
/// the default configuration, and the named alternate configurations.
pub fn load_snapshot_data(data: &Edn) -> Result<Snapshot, String> {
    let files_edn = edn_get(data, "files");
    let file_entries = match edn_map_entries(&files_edn) {
        Option::Some(es) => es,
        Option::None => {
            return Result::Err("expected a map of files".to_owned());
        },
    };
    let mut files: NameTable<FileInSnapshot> = NameTable::new();
    let n = file_entries.len();
    let mut i: usize = 0;
    while i < n
        invariant
            n == file_entries@.len(),
            i <= n,
        decreases n - i,
    {
        let (k, v) = (&file_entries[i].0, &file_entries[i].1);
        let ns = match edn_str(k) {
            Option::Some(s) => s,
            Option::None => {
                return Result::Err("expected a string namespace key".to_owned());
            },
        };
        let defs_edn = edn_get(v, "defs");
        let defs = match decode_defs(&defs_edn) {
            Result::Ok(t) => t,
            Result::Err(e) => {
                return Result::Err(e);
            },
        };
        let file = FileInSnapshot { ns: ns.clone(), defs };
        files.insert(ns, file);
        i = i + 1;
    }
    let configs_edn = edn_get(data, "configs");
    let configs = match decode_configs(&configs_edn) {
        Result::Ok(c) => c,
        Result::Err(e) => {
            return Result::Err(e);
        },
    };
    let entries_edn = edn_get(data, "entries");
    let mut entries: NameTable<SnapshotConfigs> = NameTable::new();
    if !edn_is_nil(&entries_edn) {
        let entry_pairs = match edn_map_entries(&entries_edn) {
            Option::Some(es) => es,
            Option::None => {
                return Result::Err("expected a map of entries".to_owned());
            },
        };
        let m = entry_pairs.len();
        let mut j: usize = 0;
        while j < m
            invariant
                m == entry_pairs@.len(),
                j <= m,
            decreases m - j,
        {
            let (k, v) = (&entry_pairs[j].0, &entry_pairs[j].1);
            let name = match edn_str(k) {
                Option::Some(s) => s,
                Option::None => {
                    return Result::Err("expected a string entry name".to_owned());
                },
            };
            let cfg = match decode_configs(v) {
                Result::Ok(c) => c,
                Result::Err(e) => {
                    return Result::Err(e);
                },
            };
            entries.insert(name, cfg);
            j = j + 1;
        }
    }
    Result::Ok(Snapshot { files, configs, entries })
}

/// Parses snapshot text and decodes it.
pub fn parse_snapshot(content: &str) -> Result<Snapshot, String> {
    let data = match parse_edn(content) {
        Result::Ok(d) => d,
        Result::Err(e) => {
            return Result::Err(e);
        },
    };
    load_snapshot_data(&data)
}

/// Parses an inline snippet into code forms.
pub fn parse_snippet(s: &str) -> Result<Vec<Code>, String> {
    let trees = match parse_cirru_snippet(s) {
        Result::Ok(ts) => ts,
        Result::Err(e) => {
            return Result::Err(e);
        },
    };
    let mut forms: Vec<Code> = Vec::new();
    let n = trees.len();
    let mut i: usize = 0;
    while i < n
        invariant
            n == trees@.len(),
            i <= n,
        decreases n - i,
    {
        forms.push(cirru_to_code(&trees[i]));
        i = i + 1;
    }
    Result::Ok(forms)
}

/// Builds the one-file snapshot an inline snippet runs as: a namespace
/// `app.main` whose `main!` definition wraps the given forms.
pub fn create_file_from_snippet(forms: Vec<Code>) -> (r: FileInSnapshot)
    ensures
        r@.ns == "app.main"@,
        r@.defs.contains_key("main!"@),
        r@.defs == Map::<Seq<char>, CodeView>::empty().insert(
            "main!"@,
            r@.defs["main!"@],
        ),
        r@.defs["main!"@] is Form,
        r@.defs["main!"@]->Form_0.len() == 3 + forms@.len(),
        forall|i: int|
            0 <= i < forms@.len() ==> r@.defs["main!"@]->Form_0[3 + i] == forms@[i]@,
{
    let ghost forms0 = forms@;
    let mut children: Vec<Code> = Vec::new();
    children.push(Code::Leaf("defn".to_owned()));
    children.push(Code::Leaf("main!".to_owned()));
    children.push(Code::Form(Vec::new()));
    let mut forms = forms;
    let total = forms.len();
    let mut i: usize = 0;
    while i < total
        invariant
            total == forms0.len(),
            i <= total,
            forms@.len() == total - i,
            forall|j: int| 0 <= j < forms@.len() ==> forms@[j] == forms0[j + i],
            children@.len() == 3 + i,
            forall|j: int| 0 <= j < i ==> children@[3 + j]@ == forms0[j]@,
        decreases total - i,
    {
        let f = forms.remove(0);
        children.push(f);
        i = i + 1;
    }
    let ghost children_final = children@;
    let body = Code::Form(children);
    proof {
        crate::code::lemma_code_views_of(children_final);
    }
    let mut defs: NameTable<Code> = NameTable::new();
    defs.insert("main!".to_owned(), body);
    proof {
        assert(defs@ =~= Map::<Seq<char>, CodeView>::empty().insert(
            "main!"@,
            defs@["main!"@],
        ));
    }
    FileInSnapshot { ns: "app.main".to_owned(), defs }
}

} // verus!
