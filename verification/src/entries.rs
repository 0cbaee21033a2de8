//! Program entries: a fully-qualified entry name `namespace/definition`
//! is split at its first slash into the pair the preprocessor and the
//! interpreter consume. Both the init and the reload entry are resolved
//! once per run and immutable afterwards.

use vstd::prelude::*;

verus! {

/// `i` is the first slash of `s`, with a nonempty part on each side.
pub open spec fn entry_split_at(s: Seq<char>, i: int) -> bool {
    0 < i < s.len() - 1 && s[i] == '/' && (forall|j: int| 0 <= j < i ==> s[j] != '/')
}

/// The name can be split: it has a slash, not at either end.
pub open spec fn entry_split_ok(s: Seq<char>) -> bool {
    exists|i: int| entry_split_at(s, i)
}

/// Splits a fully-qualified entry name at its first slash. Returns the
/// namespace and definition parts exactly when the name has a slash with
/// a nonempty part on each side; every other input is rejected.
pub fn extract_ns_def(s: &str) -> (r: Result<(String, String), String>)
    ensures
        r is Ok <==> entry_split_ok(s@),
        r is Ok ==> exists|i: int|
            #[trigger] entry_split_at(s@, i) && r->Ok_0.0@ == s@.subrange(0, i) && r->Ok_0.1@
                == s@.subrange(i + 1, s@.len() as int),
{
    let len = s.unicode_len();
    let mut p: usize = 0;
    let mut found = false;
    while p < len && !found
        invariant
            len == s@.len(),
            p <= len,
            !found ==> forall|j: int| 0 <= j < p ==> s@[j] != '/',
            found ==> p < len && s@[p as int] == '/' && (forall|j: int|
                0 <= j < p ==> s@[j] != '/'),
        decreases len - p, (if found { 0int } else { 1int }),
    {
        if s.get_char(p) == '/' {
            found = true;
        } else {
            p = p + 1;
        }
    }
    if !found {
        proof {
            if entry_split_ok(s@) {
                let i = choose|i: int| entry_split_at(s@, i);
                assert(s@[i] == '/');
                assert(false);
            }
        }
        let mut msg = String::new();
        msg.append("expected `namespace/definition`, got: ");
        msg.append(s);
        return Result::Err(msg);
    }
    if p == 0 || p + 1 >= len {
        proof {
            if entry_split_ok(s@) {
                let i = choose|i: int| entry_split_at(s@, i);
                if p == 0 {
                    assert(s@[0] == '/');
                    assert(s@[i] == '/');
                    assert(false);
                } else {
                    assert(i < s@.len() - 1);
                    assert(i < p);
                    assert(s@[i] != '/');
                    assert(false);
                }
            }
        }
        let mut msg = String::new();
        msg.append("empty namespace or definition in entry name: ");
        msg.append(s);
        return Result::Err(msg);
    }
    let ns_part = s.substring_char(0, p).to_owned();
    let def_part = s.substring_char(p + 1, len).to_owned();
    proof {
        assert(entry_split_at(s@, p as int));
    }
    Result::Ok((ns_part, def_part))
}

/// The resolved init and reload entries of a run.
pub struct ProgramEntries {
    pub init_fn: String,
    pub init_ns: String,
    pub init_def: String,
    pub reload_fn: String,
    pub reload_ns: String,
    pub reload_def: String,
}

/// Mathematical image of the resolved entries.
pub struct EntriesView {
    pub init_fn: Seq<char>,
    pub init_ns: Seq<char>,
    pub init_def: Seq<char>,
    pub reload_fn: Seq<char>,
    pub reload_ns: Seq<char>,
    pub reload_def: Seq<char>,
}

impl View for ProgramEntries {
    type V = EntriesView;

    open spec fn view(&self) -> EntriesView {
        EntriesView {
            init_fn: self.init_fn@,
            init_ns: self.init_ns@,
            init_def: self.init_def@,
            reload_fn: self.reload_fn@,
            reload_ns: self.reload_ns@,
            reload_def: self.reload_def@,
        }
    }
}

/// Resolves both entry names. Succeeds exactly when both names split.
pub fn make_program_entries(init_fn: String, reload_fn: String) -> (r: Result<
    ProgramEntries,
    String,
>)
    ensures
        r is Ok <==> entry_split_ok(init_fn@) && entry_split_ok(reload_fn@),
        r is Ok ==> r->Ok_0@.init_fn == init_fn@ && r->Ok_0@.reload_fn == reload_fn@,
        r is Ok ==> exists|i: int|
            #[trigger] entry_split_at(init_fn@, i) && r->Ok_0@.init_ns == init_fn@.subrange(0, i)
                && r->Ok_0@.init_def == init_fn@.subrange(i + 1, init_fn@.len() as int),
        r is Ok ==> exists|i: int|
            #[trigger] entry_split_at(reload_fn@, i) && r->Ok_0@.reload_ns
                == reload_fn@.subrange(0, i) && r->Ok_0@.reload_def == reload_fn@.subrange(
                i + 1,
                reload_fn@.len() as int,
            ),
{
    let (init_ns, init_def) = match extract_ns_def(init_fn.as_str()) {
        Result::Ok(parts) => parts,
        Result::Err(e) => {
            return Result::Err(e);
        },
    };
    let (reload_ns, reload_def) = match extract_ns_def(reload_fn.as_str()) {
        Result::Ok(parts) => parts,
        Result::Err(e) => {
            return Result::Err(e);
        },
    };
    Result::Ok(
        ProgramEntries { init_fn, init_ns, init_def, reload_fn, reload_ns, reload_def },
    )
}

} // verus!
