//! The label table: from label names to 16-bit addresses.
//!
//! The table keeps its bindings in the order in which they were made. A name
//! that is bound again takes the later address.

use vstd::prelude::*;
use crate::chars::bytes_equal;

verus! {

/// One binding of a name to an address.
pub struct LabelEntry {
    pub name: Vec<u8>,
    pub addr: u16,
}

/// A table of label addresses. Its view is the map from each bound name to
/// the address it was bound to last.
pub struct LabelTable {
    entries: Vec<LabelEntry>,
}

/// The map that a sequence of bindings builds, later bindings over earlier ones.
pub open spec fn bindings(es: Seq<LabelEntry>) -> Map<Seq<u8>, u16>
    decreases es.len(),
{
    if es.len() == 0 {
        Map::empty()
    } else {
        bindings(es.drop_last()).insert(es.last().name@, es.last().addr)
    }
}

/// A name is bound to the address of its last binding.
proof fn lemma_bound_last(es: Seq<LabelEntry>, i: int, name: Seq<u8>)
    requires
        0 <= i < es.len(),
        es[i].name@ == name,
        forall|k: int| i < k < es.len() ==> es[k].name@ != name,
    ensures
        bindings(es).contains_key(name),
        bindings(es)[name] == es[i].addr,
    decreases es.len(),
{
    if i < es.len() - 1 {
        lemma_bound_last(es.drop_last(), i, name);
    }
}

/// A name that no binding holds is not in the map.
proof fn lemma_unbound(es: Seq<LabelEntry>, name: Seq<u8>)
    requires
        forall|k: int| 0 <= k < es.len() ==> es[k].name@ != name,
    ensures
        !bindings(es).contains_key(name),
    decreases es.len(),
{
    if es.len() > 0 {
        lemma_unbound(es.drop_last(), name);
    }
}

impl View for LabelTable {
    type V = Map<Seq<u8>, u16>;

    closed spec fn view(&self) -> Map<Seq<u8>, u16> {
        bindings(self.entries@)
    }
}

impl LabelTable {
    /// The empty table.
    pub fn new() -> (table: Self)
        ensures
            table@ == Map::<Seq<u8>, u16>::empty(),
    {
        LabelTable { entries: Vec::new() }
    }

    /// Binds `name` to `addr`, over any earlier binding of `name`.
    pub fn insert(&mut self, name: Vec<u8>, addr: u16)
        ensures
            final(self)@ == old(self)@.insert(name@, addr),
    {
        let ghost before = self.entries@;
        self.entries.push(LabelEntry { name, addr });
        proof {
            assert(self.entries@.drop_last() =~= before);
        }
    }

    /// The address that `name` is bound to, if it is bound.
    pub fn get(&self, name: &[u8]) -> (r: Option<u16>)
        ensures
            r == (if self@.contains_key(name@) {
                Some(self@[name@])
            } else {
                None
            }),
    {
        let mut i: usize = self.entries.len();
        while i > 0
            invariant
                i <= self.entries.len(),
                forall|k: int| i <= k < self.entries.len() ==> self.entries@[k].name@ != name@,
            decreases i,
        {
            i -= 1;
            if bytes_equal(self.entries[i].name.as_slice(), name) {
                proof {
                    lemma_bound_last(self.entries@, i as int, name@);
                }
                return Some(self.entries[i].addr);
            }
        }
        proof {
            lemma_unbound(self.entries@, name@);
        }
        None
    }
}

} // verus!
