//! The compilation context: what one compilation unit shares among the
//! components that work on it. It owns the unit's string table.

use crate::string_table::{with_handle, StringTable};
use std::rc::Rc;
use vstd::prelude::*;

verus! {

/// The state of one compilation unit.
pub struct CompileContext {
    string_table: StringTable,
}

impl CompileContext {
    /// The string table of this unit.
    pub closed spec fn table(&self) -> StringTable {
        self.string_table
    }

    /// The string table is well formed: what holds of every context at every
    /// moment.
    #[verifier::type_invariant]
    pub open spec fn wf(&self) -> bool {
        self.table().wf()
    }

    /// A context whose string table is empty.
    pub fn new() -> (ctx: CompileContext)
        ensures
            ctx.wf(),
            ctx.table().handles() == Seq::<Rc<String>>::empty(),
    {
        CompileContext { string_table: StringTable::new() }
    }

    /// The string table of this unit.
    pub fn get_string_table(&self) -> (table: &StringTable)
        ensures
            *table == self.table(),
            table.wf(),
    {
        proof {
            use_type_invariant(self);
        }
        &self.string_table
    }

    /// Interns `text` in the string table of this unit and returns its
    /// canonical handle: see [`StringTable::get_or_insert`].
    pub fn intern(&mut self, text: &str) -> (handle: Rc<String>)
        ensures
            final(self).wf(),
            handle@ == text@,
            handle == final(self).table().handle_of(text@),
            final(self).table().contains(text@),
            final(self).table().handles() == with_handle(old(self).table().handles(), handle),
    {
        // the table leaves the context to be added to, so that the context
        // holds a well-formed table at every moment
        let mut table = StringTable::new();
        core::mem::swap(&mut self.string_table, &mut table);
        let handle = table.get_or_insert(text);
        core::mem::swap(&mut self.string_table, &mut table);
        handle
    }
}

impl Default for CompileContext {
    fn default() -> (ctx: CompileContext)
        ensures
            ctx.wf(),
            ctx.table().handles() == Seq::<Rc<String>>::empty(),
    {
        CompileContext::new()
    }
}

} // verus!
