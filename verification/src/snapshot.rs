//! Snapshots: the loaded form of a whole program. A snapshot holds a file
//! table (namespace key to source file), a default configuration naming
//! the init and reload entries and the module dependencies, and named
//! alternate configurations. Merging attaches one file table onto another
//! with "last write wins" per namespace key: the file attached later
//! silently overwrites an earlier file under the same key.

use vstd::prelude::*;
use vstd::map::*;
use crate::code::{Code, CodeView};
use crate::table::NameTable;

verus! {

/// One source file of a snapshot: its namespace name and definitions.
pub struct FileInSnapshot {
    pub ns: String,
    pub defs: NameTable<Code>,
}

/// Mathematical image of a source file.
pub struct FileView {
    pub ns: Seq<char>,
    pub defs: Map<Seq<char>, CodeView>,
}

impl View for FileInSnapshot {
    type V = FileView;

    open spec fn view(&self) -> FileView {
        FileView { ns: self.ns@, defs: self.defs@ }
    }
}

/// Entry configuration: the init and reload entry names and the module
/// dependencies to attach.
pub struct SnapshotConfigs {
    pub init_fn: String,
    pub reload_fn: String,
    pub modules: Vec<String>,
}

/// Mathematical image of a configuration.
pub struct ConfigsView {
    pub init_fn: Seq<char>,
    pub reload_fn: Seq<char>,
    pub modules: Seq<Seq<char>>,
}

impl View for SnapshotConfigs {
    type V = ConfigsView;

    open spec fn view(&self) -> ConfigsView {
        ConfigsView {
            init_fn: self.init_fn@,
            reload_fn: self.reload_fn@,
            modules: Seq::new(self.modules@.len(), |i: int| self.modules@[i]@),
        }
    }
}

impl Clone for SnapshotConfigs {
    fn clone(&self) -> (r: Self)
        ensures
            r@ == self@,
    {
        let mut modules: Vec<String> = Vec::new();
        let mut i: usize = 0;
        while i < self.modules.len()
            invariant
                i <= self.modules.len(),
                modules@.len() == i,
                forall|j: int| 0 <= j < i ==> modules@[j]@ == self.modules@[j]@,
            decreases self.modules.len() - i,
        {
            modules.push(self.modules[i].clone());
            i = i + 1;
        }
        let r = SnapshotConfigs {
            init_fn: self.init_fn.clone(),
            reload_fn: self.reload_fn.clone(),
            modules,
        };
        proof {
            assert(r@.modules =~= self@.modules);
        }
        r
    }
}

/// A whole program snapshot.
pub struct Snapshot {
    pub files: NameTable<FileInSnapshot>,
    pub configs: SnapshotConfigs,
    pub entries: NameTable<SnapshotConfigs>,
}

/// The file table after attaching the first `k` incoming files, in order,
/// onto `dest`.
pub open spec fn attach_prefix(
    dest: Map<Seq<char>, FileView>,
    ns: Seq<Seq<char>>,
    vs: Seq<FileView>,
    k: int,
) -> Map<Seq<char>, FileView>
    decreases k,
{
    if k <= 0 {
        dest
    } else {
        attach_prefix(dest, ns, vs, k - 1).insert(ns[k - 1], vs[k - 1])
    }
}

/// Attaching a whole table equals a right-preferring union: for a key
/// both tables hold, the incoming (later-merged) file wins.
pub proof fn lemma_attach_is_union(
    dest: Map<Seq<char>, FileView>,
    ns: Seq<Seq<char>>,
    vs: Seq<FileView>,
    k: int,
)
    requires
        0 <= k <= ns.len(),
        ns.len() == vs.len(),
    ensures
        attach_prefix(dest, ns, vs, k) == dest.union_prefer_right(
            crate::table::table_map(ns.take(k), vs.take(k)),
        ),
    decreases k,
{
    if k == 0 {
        assert(ns.take(0) =~= Seq::<Seq<char>>::empty());
        assert(vs.take(0) =~= Seq::<FileView>::empty());
        assert(dest.union_prefer_right(crate::table::table_map(
            Seq::<Seq<char>>::empty(),
            Seq::<FileView>::empty(),
        )) =~= dest);
    } else {
        lemma_attach_is_union(dest, ns, vs, k - 1);
        assert(ns.take(k).drop_last() =~= ns.take(k - 1));
        assert(vs.take(k).drop_last() =~= vs.take(k - 1));
        assert(ns.take(k).last() == ns[k - 1]);
        assert(vs.take(k).last() == vs[k - 1]);
        assert(dest.union_prefer_right(crate::table::table_map(ns.take(k - 1), vs.take(k - 1)))
            .insert(ns[k - 1], vs[k - 1]) =~= dest.union_prefer_right(
            crate::table::table_map(ns.take(k - 1), vs.take(k - 1)).insert(ns[k - 1], vs[k - 1]),
        ));
    }
}

/// Later-merged files win: after attaching, every incoming key holds the
/// incoming file, and every other key is untouched. This is the merge
/// contract for app files, module files and core files alike; the caller
/// fixes the order, and whichever file table is attached last overwrites
/// shared namespace keys.
pub fn attach_files(dest: &mut NameTable<FileInSnapshot>, incoming: NameTable<FileInSnapshot>)
    ensures
        final(dest)@ == old(dest)@.union_prefer_right(incoming@),
        forall|k: Seq<char>| #[trigger]
            incoming@.contains_key(k) ==> final(dest)@.contains_key(k) && final(dest)@[k]
                == incoming@[k],
        forall|k: Seq<char>|
            !incoming@.contains_key(k) ==> (final(dest)@.contains_key(k) <==> old(
                dest,
            )@.contains_key(k)),
        forall|k: Seq<char>|
            !incoming@.contains_key(k) && old(dest)@.contains_key(k) ==> final(dest)@[k] == old(
                dest,
            )@[k],
{
    let ghost src_names = incoming.names();
    let ghost src_vals = incoming.vals();
    let ghost dest0 = dest@;
    let mut incoming = incoming;
    let ghost incoming0 = incoming@;
    let total = incoming.len();
    proof {
        assert(incoming0 == crate::table::table_map(src_names, src_vals));
    }
    let mut k: usize = 0;
    while k < total
        invariant
            total == src_names.len(),
            src_vals.len() == src_names.len(),
            k <= total,
            incoming.names() == src_names.skip(k as int),
            incoming.vals() == src_vals.skip(k as int),
            dest@ == attach_prefix(dest0, src_names, src_vals, k as int),
            old(dest)@ == dest0,
        decreases total - k,
    {
        proof {
            assert(incoming.names()[0] == src_names[k as int]);
            assert(incoming.vals()[0] == src_vals[k as int]);
        }
        let (name, file) = incoming.pop_first();
        dest.insert(name, file);
        proof {
            assert(incoming.names() =~= src_names.skip(k + 1));
            assert(incoming.vals() =~= src_vals.skip(k + 1));
        }
        k = k + 1;
    }
    proof {
        lemma_attach_is_union(dest0, src_names, src_vals, total as int);
        assert(src_names.take(total as int) =~= src_names);
        assert(src_vals.take(total as int) =~= src_vals);
    }
}

/// The program table after taking the first `k` files, in order.
pub open spec fn defs_prefix(
    ns: Seq<Seq<char>>,
    vs: Seq<FileView>,
    k: int,
) -> Map<Seq<char>, Map<Seq<char>, CodeView>>
    decreases k,
{
    if k <= 0 {
        Map::empty()
    } else {
        defs_prefix(ns, vs, k - 1).insert(ns[k - 1], vs[k - 1].defs)
    }
}

proof fn lemma_defs_prefix(ns: Seq<Seq<char>>, vs: Seq<FileView>, k: int)
    requires
        ns.len() == vs.len(),
        0 <= k <= ns.len(),
    ensures
        forall|key: Seq<char>| #[trigger]
            defs_prefix(ns, vs, k).contains_key(key) <==> crate::table::table_map(
                ns.take(k),
                vs.take(k),
            ).contains_key(key),
        forall|key: Seq<char>| #[trigger]
            defs_prefix(ns, vs, k).contains_key(key) ==> defs_prefix(ns, vs, k)[key]
                == crate::table::table_map(ns.take(k), vs.take(k))[key].defs,
    decreases k,
{
    if k > 0 {
        lemma_defs_prefix(ns, vs, k - 1);
        assert(ns.take(k).drop_last() =~= ns.take(k - 1));
        assert(vs.take(k).drop_last() =~= vs.take(k - 1));
        assert(ns.take(k).last() == ns[k - 1]);
        assert(vs.take(k).last() == vs[k - 1]);
        let d = defs_prefix(ns, vs, k);
        let dprev = defs_prefix(ns, vs, k - 1);
        let t = crate::table::table_map(ns.take(k), vs.take(k));
        let tprev = crate::table::table_map(ns.take(k - 1), vs.take(k - 1));
        assert(t == tprev.insert(ns[k - 1], vs[k - 1]));
        assert(d == dprev.insert(ns[k - 1], vs[k - 1].defs));
        assert forall|key: Seq<char>| #[trigger] d.contains_key(key) implies t.contains_key(key)
            && d[key] == t[key].defs by {
            if key == ns[k - 1] {
            } else {
                assert(dprev.contains_key(key));
                assert(tprev.contains_key(key));
            }
        }
        assert forall|key: Seq<char>| #[trigger] t.contains_key(key) implies d.contains_key(
            key,
        ) by {
            if key == ns[k - 1] {
            } else {
                assert(tprev.contains_key(key));
                assert(dprev.contains_key(key));
            }
        }
        assert forall|key: Seq<char>| #[trigger] d.contains_key(key) <==> t.contains_key(
            key,
        ) by {}
    }
}

/// Builds the program table a store is populated with: each namespace key
/// of the file table maps to that file's definitions.
pub fn extract_program_data(files: NameTable<FileInSnapshot>) -> (r: NameTable<NameTable<Code>>)
    ensures
        forall|k: Seq<char>| #[trigger] r@.contains_key(k) <==> files@.contains_key(k),
        forall|k: Seq<char>| #[trigger]
            files@.contains_key(k) ==> r@.contains_key(k) && r@[k] == files@[k].defs,
{
    let ghost src_names = files.names();
    let ghost src_vals = files.vals();
    let mut files = files;
    let ghost files0 = files@;
    let mut out: NameTable<NameTable<Code>> = NameTable::new();
    let total = files.len();
    proof {
        assert(files0 == crate::table::table_map(src_names, src_vals));
    }
    let mut k: usize = 0;
    while k < total
        invariant
            total == src_names.len(),
            src_vals.len() == src_names.len(),
            k <= total,
            files.names() == src_names.skip(k as int),
            files.vals() == src_vals.skip(k as int),
            out@ == defs_prefix(src_names, src_vals, k as int),
        decreases total - k,
    {
        proof {
            assert(files.names()[0] == src_names[k as int]);
            assert(files.vals()[0] == src_vals[k as int]);
        }
        let (name, file) = files.pop_first();
        out.insert(name, file.defs);
        proof {
            assert(files.names() =~= src_names.skip(k + 1));
            assert(files.vals() =~= src_vals.skip(k + 1));
        }
        k = k + 1;
    }
    proof {
        lemma_defs_prefix(src_names, src_vals, total as int);
        assert(src_names.take(total as int) =~= src_names);
        assert(src_vals.take(total as int) =~= src_vals);
    }
    out
}

} // verus!
