//! The shared, append-only record of one circuit build.
//!
//! Every allocated element and every inserted verification subprogram of
//! a build lives here. Gadget operations take the context by mutable
//! reference, append to it, and never change what was already recorded;
//! a value refers back into the context through the index of the element
//! that was allocated for it.

use vstd::prelude::*;

verus! {

/// Provenance of an allocated element.
///
/// A `Constant` is baked into the program and correct by construction; a
/// `ProgramInput` is supplied from outside and unconstrained until
/// checked; a `FunctionOutput` is the result of a gadget whose inserted
/// subprogram re-derives it; a `Hint` is witness data whose correctness
/// only later checks establish.
#[derive(Clone, Copy, PartialEq, Eq, Structural, Debug)]
pub enum AllocationMode {
    Constant,
    ProgramInput,
    FunctionOutput,
    Hint,
}

/// One allocated stack cell: a small number or a byte string.
#[derive(Clone, Debug)]
pub enum Element {
    Num(u32),
    Str(Vec<u8>),
}

/// The operation that an inserted verification subprogram re-derives on
/// the target machine, by table lookups and plain addition.
#[derive(Clone, Debug)]
pub enum ScriptKind {
    /// XOR of two nibbles through the 16-by-16 table and the row-offset table.
    Xor,
    /// Sum of the given number of additions, reduced into remainder and
    /// quotient through the two reduction tables.
    AddAndReduce { num_additions: u32 },
    /// Same sum, reduced through the remainder table only.
    AddAndReduceNoCarry { num_additions: u32 },
    /// A plain addition whose result is asserted never to need reduction.
    AddNoOverflow,
    /// One probe into the shift-left-by-one table.
    Shl1,
    /// One probe into the shift-right-by-three table.
    Shr3,
    /// The subprogram that pushes the 48 quotient-table entries.
    CreateQuotientTable,
    /// Packing eight nibble limbs into one compact stack element.
    FromU32ToCompact,
    /// Unpacking one compact stack element into eight nibble limbs.
    FromCompactToU32,
}

/// One inserted verification subprogram: the operation it re-derives and
/// the handles of the operands it reads.
#[derive(Clone, Debug)]
pub struct ScriptRecord {
    pub kind: ScriptKind,
    pub inputs: Vec<usize>,
}

/// One allocated element together with its provenance.
#[derive(Clone, Debug)]
pub struct Entry {
    pub mode: AllocationMode,
    pub element: Element,
}

/// The append-only arena of one circuit build.
pub struct ConstraintContext {
    pub entries: Vec<Entry>,
    pub scripts: Vec<ScriptRecord>,
}

impl ConstraintContext {
    /// How many elements have been allocated so far.
    pub open spec fn num_allocated(self) -> nat {
        self.entries@.len()
    }

    /// `self` holds everything `prev` held, in the same places: the
    /// context only ever grows by appends.
    pub open spec fn extends(self, prev: Self) -> bool {
        prev.entries@.is_prefix_of(self.entries@)
            && prev.scripts@.is_prefix_of(self.scripts@)
    }

    pub fn new() -> (cs: Self)
        ensures
            cs.entries@.len() == 0,
            cs.scripts@.len() == 0,
    {
        ConstraintContext { entries: Vec::new(), scripts: Vec::new() }
    }

    /// Allocate one element and hand back its handle.
    pub fn allocate(&mut self, element: Element, mode: AllocationMode) -> (variable: usize)
        ensures
            final(self).entries@ == old(self).entries@.push(Entry { mode, element }),
            final(self).scripts@ == old(self).scripts@,
            variable == old(self).num_allocated(),
            final(self).extends(*old(self)),
    {
        let variable = self.entries.len();
        self.entries.push(Entry { mode, element });
        proof {
            assert(old(self).entries@.is_prefix_of(self.entries@));
        }
        variable
    }

    /// Record one inserted verification subprogram.
    pub fn insert_script(&mut self, record: ScriptRecord)
        ensures
            final(self).entries@ == old(self).entries@,
            final(self).scripts@ == old(self).scripts@.push(record),
            final(self).extends(*old(self)),
    {
        self.scripts.push(record);
        proof {
            assert(old(self).scripts@.is_prefix_of(self.scripts@));
        }
    }
}

/// Growing a context twice still only grows it: `extends` chains. This
/// form is meant for `broadcast use` in modules that string many gadget
/// calls together.
pub broadcast proof fn lemma_extends_chain(c3: ConstraintContext, c2: ConstraintContext, c1: ConstraintContext)
    requires
        #[trigger] c3.extends(c2),
        #[trigger] c2.extends(c1),
    ensures
        c3.extends(c1),
{
    lemma_extends_transitive(c3, c2, c1);
}

/// Growing a context twice still only grows it: `extends` chains.
pub proof fn lemma_extends_transitive(c3: ConstraintContext, c2: ConstraintContext, c1: ConstraintContext)
    requires
        c3.extends(c2),
        c2.extends(c1),
    ensures
        c3.extends(c1),
{
    assert(c1.entries@.is_prefix_of(c3.entries@)) by {
        assert(c1.entries@ =~= c3.entries@.subrange(0, c1.entries@.len() as int));
    }
    assert(c1.scripts@.is_prefix_of(c3.scripts@)) by {
        assert(c1.scripts@ =~= c3.scripts@.subrange(0, c1.scripts@.len() as int));
    }
}

} // verus!
