//! The program store: the aggregate table `namespace -> definition ->
//! code form`. It has two mutation modes: a wholesale replace used at
//! startup, and a targeted upsert of one definition used for hot reload.
//! An upsert leaves every other namespace, and every other definition of
//! the same namespace, exactly as it was.

use vstd::prelude::*;
use crate::code::{Code, CodeView};
use crate::table::NameTable;

verus! {

/// The whole program: every namespace with its definitions.
pub struct ProgramStore {
    table: NameTable<NameTable<Code>>,
}

impl View for ProgramStore {
    type V = Map<Seq<char>, Map<Seq<char>, CodeView>>;

    closed spec fn view(&self) -> Map<Seq<char>, Map<Seq<char>, CodeView>> {
        self.table@
    }
}

impl ProgramStore {
    /// An empty store.
    pub fn new() -> (r: ProgramStore)
        ensures
            r@ == Map::<Seq<char>, Map<Seq<char>, CodeView>>::empty(),
    {
        ProgramStore { table: NameTable::new() }
    }

    /// Atomically swaps the whole table: afterwards the store holds
    /// exactly the given namespaces, never a mix of old and new.
    pub fn replace_all(&mut self, table: NameTable<NameTable<Code>>)
        ensures
            final(self)@ == table@,
    {
        self.table = table;
    }

    /// Looks a definition up; absence is a normal result.
    pub fn lookup(&self, ns: &String, def: &String) -> (r: Option<&Code>)
        ensures
            r is Some <==> (self@.contains_key(ns@) && self@[ns@].contains_key(def@)),
            r is Some ==> r->Some_0@ == self@[ns@][def@],
    {
        match self.table.get(ns) {
            Option::Some(defs) => defs.get(def),
            Option::None => Option::None,
        }
    }

    /// Whether a namespace is present.
    pub fn has_ns(&self, ns: &String) -> (r: bool)
        ensures
            r == self@.contains_key(ns@),
    {
        match self.table.get(ns) {
            Option::Some(_) => true,
            Option::None => false,
        }
    }

    /// Replaces (or adds) a single definition, for incremental reload.
    /// Every other namespace is untouched, and so is every other
    /// definition of the changed namespace.
    pub fn upsert(&mut self, ns: String, def: String, code: Code)
        ensures
            final(self)@.contains_key(ns@),
            old(self)@.contains_key(ns@) ==> final(self)@[ns@] == old(self)@[ns@].insert(
                def@,
                code@,
            ),
            !old(self)@.contains_key(ns@) ==> final(self)@[ns@]
                == Map::<Seq<char>, CodeView>::empty().insert(def@, code@),
            forall|k: Seq<char>|
                k != ns@ ==> (final(self)@.contains_key(k) <==> old(self)@.contains_key(k)),
            forall|k: Seq<char>|
                k != ns@ && old(self)@.contains_key(k) ==> final(self)@[k] == old(self)@[k],
    {
        let mut defs: NameTable<Code> = match self.table.take(&ns) {
            Option::Some(d) => d,
            Option::None => NameTable::new(),
        };
        defs.insert(def, code);
        self.table.insert(ns, defs);
    }

    /// The definition table at position `i`, as a mathematical value.
    pub closed spec fn ns_table_at(&self, i: int) -> NameTable<Code> {
        self.table.raw_at(i)
    }

    /// The namespace name at position `i` in first-insertion order,
    /// with its definition table.
    pub fn ns_at(&self, i: usize) -> (r: (&String, &NameTable<Code>))
        requires
            i < self.ns_order().len(),
        ensures
            r.0@ == self.ns_order()[i as int],
            self@.contains_key(r.0@),
            r.1@ == self@[r.0@],
            *(r.1) == self.ns_table_at(i as int),
    {
        self.table.entry_at(i)
    }

    /// The namespaces in first-insertion order.
    pub closed spec fn ns_order(&self) -> Seq<Seq<char>> {
        self.table.names()
    }

    /// The number of namespaces, tied to the traversal order.
    pub fn ns_order_len(&self) -> (r: usize)
        ensures
            r == self.ns_order().len(),
            forall|k: Seq<char>| self@.contains_key(k) <==> self.ns_order().contains(k),
    {
        self.table.len()
    }
}

} // verus!
