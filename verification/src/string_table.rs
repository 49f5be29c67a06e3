//! The string interning table: one canonical handle for each distinct text.
//!
//! The table keeps its handles in the order in which their texts first
//! arrived. It only grows: a handle, once given out, stays where it is, and
//! the same text is answered with the same handle for as long as the table
//! lives.

use std::rc::Rc;
use vstd::prelude::*;

verus! {

/// A second handle on the text of `handle`: a call of `Rc::clone`, which
/// allocates nothing and hands out another pointer to the same shared text.
/// The contract claims that the new handle is indistinguishable from the old
/// one.
#[verifier::external_body]
pub(crate) fn share(handle: &Rc<String>) -> (shared: Rc<String>)
    ensures
        shared == *handle,
{
    Rc::clone(handle)
}

/// Whether one of `handles` stands for `text`.
pub open spec fn holds(handles: Seq<Rc<String>>, text: Seq<char>) -> bool {
    exists|i: int| 0 <= i < handles.len() && #[trigger] handles[i]@ == text
}

/// What `handles` become when the text of `handle` is interned under that
/// handle: they stay as they are if one of them stands for that text, and
/// else have `handle` added behind them.
pub open spec fn with_handle(handles: Seq<Rc<String>>, handle: Rc<String>) -> Seq<Rc<String>> {
    if holds(handles, handle@) {
        handles
    } else {
        handles.push(handle)
    }
}

/// Interning tables are sets of texts with one shared handle each.
pub struct StringTable {
    entries: Vec<Rc<String>>,
}

impl StringTable {
    /// The canonical handles, oldest first.
    pub closed spec fn handles(&self) -> Seq<Rc<String>> {
        self.entries@
    }

    /// No text is held twice: what holds of every table at every moment.
    #[verifier::type_invariant]
    pub open spec fn wf(&self) -> bool {
        forall|i: int, j: int|
            0 <= i < j < self.handles().len() ==> self.handles()[i]@ != self.handles()[j]@
    }

    /// Whether `text` has been interned.
    pub open spec fn contains(&self, text: Seq<char>) -> bool {
        holds(self.handles(), text)
    }

    /// The place of `text` in the table, if it has been interned.
    pub open spec fn slot_of(&self, text: Seq<char>) -> int {
        choose|i: int| 0 <= i < self.handles().len() && self.handles()[i]@ == text
    }

    /// The canonical handle of `text`, if it has been interned.
    pub open spec fn handle_of(&self, text: Seq<char>) -> Rc<String> {
        self.handles()[self.slot_of(text)]
    }

    /// Whether this table is `older` with zero or more handles added behind.
    pub open spec fn extends(&self, older: &StringTable) -> bool {
        older.handles().is_prefix_of(self.handles())
    }

    /// An empty table.
    pub fn new() -> (table: StringTable)
        ensures
            table.handles() == Seq::<Rc<String>>::empty(),
            table.wf(),
    {
        StringTable { entries: Vec::new() }
    }

    /// The number of distinct texts held.
    pub fn len(&self) -> (n: usize)
        ensures
            n == self.handles().len(),
    {
        self.entries.len()
    }

    /// The place at which `wanted` is held, if it is.
    fn find(&self, wanted: &String) -> (found: Option<usize>)
        ensures
            found is Some <==> self.contains(wanted@),
            found matches Some(i) ==> i < self.handles().len() && i == self.slot_of(wanted@),
    {
        proof {
            use_type_invariant(self);
        }
        let mut i: usize = 0;
        while i < self.entries.len()
            invariant
                i <= self.entries.len(),
                self.wf(),
                forall|j: int| 0 <= j < i ==> self.entries@[j]@ != wanted@,
            decreases self.entries.len() - i,
        {
            let entry: &String = &*self.entries[i];
            if *entry == *wanted {
                return Some(i);
            }
            i += 1;
        }
        None
    }

    /// The canonical handle of `text`, if it has been interned.
    pub fn get(&self, text: &str) -> (found: Option<Rc<String>>)
        ensures
            found is Some <==> self.contains(text@),
            found matches Some(handle) ==> handle == self.handle_of(text@) && handle@ == text@,
    {
        let wanted: String = text.to_owned();
        match self.find(&wanted) {
            Some(i) => Some(share(&self.entries[i])),
            None => None,
        }
    }

    /// The canonical handle of `text`, which is interned first if it was not.
    ///
    /// A text that the table holds is answered with the handle it got when it
    /// first arrived, and the table stays as it is. A new text gets a new
    /// handle, which is added behind all others.
    pub fn get_or_insert(&mut self, text: &str) -> (handle: Rc<String>)
        ensures
            final(self).wf(),
            handle@ == text@,
            handle == final(self).handle_of(text@),
            final(self).contains(text@),
            final(self).handles() == with_handle(old(self).handles(), handle),
    {
        proof {
            use_type_invariant(&*self);
        }
        let wanted: String = text.to_owned();
        match self.find(&wanted) {
            Some(i) => share(&self.entries[i]),
            None => {
                let handle: Rc<String> = Rc::new(wanted);
                // the handles leave the table to be added to, so that the
                // table holds no text twice at any moment
                let mut entries: Vec<Rc<String>> = Vec::new();
                core::mem::swap(&mut self.entries, &mut entries);
                entries.push(share(&handle));
                core::mem::swap(&mut self.entries, &mut entries);
                proof {
                    lemma_slot_is_unique(*self, text@, self.entries@.len() - 1);
                }
                handle
            },
        }
    }
}

/// The place at which a text is found is the place of that text.
pub proof fn lemma_slot_is_unique(table: StringTable, text: Seq<char>, i: int)
    requires
        table.wf(),
        0 <= i < table.handles().len(),
        table.handles()[i]@ == text,
    ensures
        table.contains(text),
        table.slot_of(text) == i,
        table.handle_of(text) == table.handles()[i],
{
}

/// A text stays interned, under the handle it has, whatever is interned after
/// it: two requests for one text get the identical handle, however far apart
/// they are made and whoever makes them, as long as they ask the same table.
pub proof fn lemma_handles_are_stable(older: StringTable, newer: StringTable, text: Seq<char>)
    requires
        older.wf(),
        newer.wf(),
        newer.extends(&older),
        older.contains(text),
    ensures
        newer.contains(text),
        newer.slot_of(text) == older.slot_of(text),
        newer.handle_of(text) == older.handle_of(text),
{
    // the text stands in the newer table where it stood in the older one
    let i = older.slot_of(text);
    assert(newer.handles()[i]@ == text);
}

/// Equal texts have equal handles, and different texts different ones.
pub proof fn lemma_one_handle_per_text(table: StringTable, a: Seq<char>, b: Seq<char>)
    requires
        table.wf(),
        table.contains(a),
        table.contains(b),
    ensures
        table.handle_of(a)@ == a,
        a == b <==> table.slot_of(a) == table.slot_of(b),
        a == b ==> table.handle_of(a) == table.handle_of(b),
{
}

/// Growth is transitive, and every table extends itself.
pub proof fn lemma_extends_is_an_order(a: StringTable, b: StringTable, c: StringTable)
    ensures
        a.extends(&a),
        c.extends(&b) && b.extends(&a) ==> c.extends(&a),
{
}

} // verus!
