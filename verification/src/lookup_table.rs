//! The six constant lookup tables that back every arithmetic gadget.
//!
//! The target machine has no XOR, shift or rotate instruction, so each
//! such operation is compiled to an indexed stack lookup into one of
//! these tables. Their content is a pure function of the table kind,
//! never of any input, and they are allocated exactly once per build,
//! in constant mode; every entry is pushed in descending index order so
//! that a probe can be addressed relative to the last pushed element.

use vstd::prelude::*;
use crate::context::{AllocationMode, ConstraintContext, Element, ScriptKind, ScriptRecord};

verus! {

/// Entry `k` of the 16-by-16 XOR table: the table is pushed row by row,
/// both indices descending.
pub open spec fn xor_table_value(k: int) -> u32 {
    ((15 - k / 16) as u32) ^ ((15 - k % 16) as u32)
}

/// Entry `k` of the row-offset table, used to address an XOR-table row
/// without a native multiply.
pub open spec fn row_table_value(k: int) -> u32 {
    ((15 - k) * 16) as u32
}

/// Entry `k` of the shift-right-by-three table.
pub open spec fn shr3_table_value(k: int) -> u32 {
    ((15 - k) as u32) >> 3
}

/// Entry `k` of the shift-left-by-one table, masked to four bits.
pub open spec fn shl1_table_value(k: int) -> u32 {
    (((15 - k) as u32) << 1) & 15
}

/// Entry `k` of the quotient table, covering sums of up to three nibbles
/// and a carry.
pub open spec fn quotient_table_value(k: int) -> u32 {
    ((47 - k) / 16) as u32
}

/// Entry `k` of the remainder table, covering the same sums.
pub open spec fn remainder_table_value(k: int) -> u32 {
    ((47 - k) % 16) as u32
}

/// The handles `vars` point at allocated entries whose elements hold
/// exactly the numbers `vals`, in order.
pub open spec fn values_recorded(cs: ConstraintContext, vars: Seq<usize>, vals: Seq<u32>) -> bool {
    forall|k: int|
        0 <= k < vars.len() ==> cs.entries@[vars[k] as int].element == Element::Num(vals[k])
}

/// Allocate one element per value, all with the same mode, and return
/// the handles in order.
fn allocate_values(cs: &mut ConstraintContext, values: &Vec<u32>, mode: AllocationMode) -> (vars: Vec<usize>)
    ensures
        vars@.len() == values@.len(),
        final(cs).extends(*old(cs)),
        final(cs).num_allocated() == old(cs).num_allocated() + values@.len(),
        final(cs).scripts@ == old(cs).scripts@,
        forall|k: int| 0 <= k < vars@.len() ==> vars@[k] < final(cs).num_allocated(),
        forall|k: int|
            0 <= k < vars@.len() ==> final(cs).entries@[vars@[k] as int].element == Element::Num(
                values@[k],
            ),
{
    let ghost cs0 = *cs;
    let mut vars: Vec<usize> = Vec::new();
    let mut i: usize = 0;
    while i < values.len()
        invariant
            i == vars@.len(),
            i <= values@.len(),
            cs.extends(cs0),
            cs.num_allocated() == cs0.num_allocated() + i,
            cs.scripts@ == cs0.scripts@,
            forall|k: int| 0 <= k < i ==> vars@[k] < cs.num_allocated(),
            forall|k: int|
                0 <= k < i ==> cs.entries@[vars@[k] as int].element == Element::Num(values@[k]),
        decreases values@.len() - i,
    {
        let ghost cs_before = *cs;
        let v = cs.allocate(Element::Num(values[i]), mode);
        proof {
            crate::context::lemma_extends_transitive(*cs, cs_before, cs0);
        }
        vars.push(v);
        i = i + 1;
    }
    vars
}

/// The 256-entry XOR table: entry for the nibble pair `(i, j)` holds
/// `i ^ j`, pushed with both indices descending.
#[derive(Clone, Debug)]
pub struct XorTableVar {
    pub variables: Vec<usize>,
}

impl XorTableVar {
    pub open spec fn valid(self, cs: ConstraintContext) -> bool {
        self.variables@.len() == 256
            && forall|k: int| 0 <= k < 256 ==> self.variables@[k] < cs.num_allocated()
    }

    /// Every handle of the table points at the constant the table kind
    /// dictates.
    pub open spec fn contents(self, cs: ConstraintContext) -> bool {
        values_recorded(cs, self.variables@, Seq::new(256, |k: int| xor_table_value(k)))
    }

    pub fn new_constant(cs: &mut ConstraintContext) -> (table: Self)
        ensures
            final(cs).extends(*old(cs)),
            final(cs).num_allocated() == old(cs).num_allocated() + 256,
            final(cs).scripts@ == old(cs).scripts@,
            table.valid(*final(cs)),
            table.contents(*final(cs)),
    {
        let mut values: Vec<u32> = Vec::new();
        let mut k: usize = 0;
        while k < 256
            invariant
                k == values@.len(),
                k <= 256,
                forall|t: int| 0 <= t < k ==> values@[t] == xor_table_value(t),
            decreases 256 - k,
        {
            let v: u32 = ((15 - k / 16) as u32) ^ ((15 - k % 16) as u32);
            values.push(v);
            k = k + 1;
        }
        let vars = allocate_values(cs, &values, AllocationMode::Constant);
        proof {
            assert(values_recorded(*cs, vars@, Seq::new(256, |k: int| xor_table_value(k))));
        }
        XorTableVar { variables: vars }
    }
}

/// The 16-entry row-offset table: entry for index `i` holds `i * 16`.
#[derive(Clone, Debug)]
pub struct RowTable {
    pub variables: Vec<usize>,
}

impl RowTable {
    pub open spec fn valid(self, cs: ConstraintContext) -> bool {
        self.variables@.len() == 16
            && forall|k: int| 0 <= k < 16 ==> self.variables@[k] < cs.num_allocated()
    }

    pub open spec fn contents(self, cs: ConstraintContext) -> bool {
        values_recorded(cs, self.variables@, Seq::new(16, |k: int| row_table_value(k)))
    }

    pub fn new_constant(cs: &mut ConstraintContext) -> (table: Self)
        ensures
            final(cs).extends(*old(cs)),
            final(cs).num_allocated() == old(cs).num_allocated() + 16,
            final(cs).scripts@ == old(cs).scripts@,
            table.valid(*final(cs)),
            table.contents(*final(cs)),
    {
        let mut values: Vec<u32> = Vec::new();
        let mut k: usize = 0;
        while k < 16
            invariant
                k == values@.len(),
                k <= 16,
                forall|t: int| 0 <= t < k ==> values@[t] == row_table_value(t),
            decreases 16 - k,
        {
            let v: u32 = ((15 - k) as u32) * 16;
            values.push(v);
            k = k + 1;
        }
        let vars = allocate_values(cs, &values, AllocationMode::Constant);
        proof {
            assert(values_recorded(*cs, vars@, Seq::new(16, |k: int| row_table_value(k))));
        }
        RowTable { variables: vars }
    }
}

/// The 16-entry shift-right-by-three table.
#[derive(Clone, Debug)]
pub struct Shr3TableVar {
    pub variables: Vec<usize>,
}

impl Shr3TableVar {
    pub open spec fn valid(self, cs: ConstraintContext) -> bool {
        self.variables@.len() == 16
            && forall|k: int| 0 <= k < 16 ==> self.variables@[k] < cs.num_allocated()
    }

    pub open spec fn contents(self, cs: ConstraintContext) -> bool {
        values_recorded(cs, self.variables@, Seq::new(16, |k: int| shr3_table_value(k)))
    }

    pub fn new_constant(cs: &mut ConstraintContext) -> (table: Self)
        ensures
            final(cs).extends(*old(cs)),
            final(cs).num_allocated() == old(cs).num_allocated() + 16,
            final(cs).scripts@ == old(cs).scripts@,
            table.valid(*final(cs)),
            table.contents(*final(cs)),
    {
        let mut values: Vec<u32> = Vec::new();
        let mut k: usize = 0;
        while k < 16
            invariant
                k == values@.len(),
                k <= 16,
                forall|t: int| 0 <= t < k ==> values@[t] == shr3_table_value(t),
            decreases 16 - k,
    {
            let v: u32 = ((15 - k) as u32) >> 3;
            values.push(v);
            k = k + 1;
        }
        let vars = allocate_values(cs, &values, AllocationMode::Constant);
        proof {
            assert(values_recorded(*cs, vars@, Seq::new(16, |k: int| shr3_table_value(k))));
        }
        Shr3TableVar { variables: vars }
    }
}

/// The 16-entry shift-left-by-one table, each entry masked to four bits.
#[derive(Clone, Debug)]
pub struct Shl1TableVar {
    pub variables: Vec<usize>,
}

impl Shl1TableVar {
    pub open spec fn valid(self, cs: ConstraintContext) -> bool {
        self.variables@.len() == 16
            && forall|k: int| 0 <= k < 16 ==> self.variables@[k] < cs.num_allocated()
    }

    pub open spec fn contents(self, cs: ConstraintContext) -> bool {
        values_recorded(cs, self.variables@, Seq::new(16, |k: int| shl1_table_value(k)))
    }

    pub fn new_constant(cs: &mut ConstraintContext) -> (table: Self)
        ensures
            final(cs).extends(*old(cs)),
            final(cs).num_allocated() == old(cs).num_allocated() + 16,
            final(cs).scripts@ == old(cs).scripts@,
            table.valid(*final(cs)),
            table.contents(*final(cs)),
    {
        let mut values: Vec<u32> = Vec::new();
        let mut k: usize = 0;
        while k < 16
            invariant
                k == values@.len(),
                k <= 16,
                forall|t: int| 0 <= t < k ==> values@[t] == shl1_table_value(t),
            decreases 16 - k,
        {
            let v: u32 = (((15 - k) as u32) << 1u32) & 15;
            values.push(v);
            k = k + 1;
        }
        let vars = allocate_values(cs, &values, AllocationMode::Constant);
        proof {
            assert(values_recorded(*cs, vars@, Seq::new(16, |k: int| shl1_table_value(k))));
        }
        Shl1TableVar { variables: vars }
    }
}

/// The 48-entry quotient table: entry for a sum `s` of up to three
/// nibbles and a carry holds `s / 16`. Its entries are re-derived on the
/// target machine by an inserted subprogram, so they are allocated as
/// function outputs.
#[derive(Clone, Debug)]
pub struct QuotientTableVar {
    pub variables: Vec<usize>,
}

impl QuotientTableVar {
    pub open spec fn valid(self, cs: ConstraintContext) -> bool {
        self.variables@.len() == 48
            && forall|k: int| 0 <= k < 48 ==> self.variables@[k] < cs.num_allocated()
    }

    pub open spec fn contents(self, cs: ConstraintContext) -> bool {
        values_recorded(cs, self.variables@, Seq::new(48, |k: int| quotient_table_value(k)))
    }

    pub fn new_constant(cs: &mut ConstraintContext) -> (table: Self)
        ensures
            final(cs).extends(*old(cs)),
            final(cs).num_allocated() == old(cs).num_allocated() + 48,
            final(cs).scripts@.len() == old(cs).scripts@.len() + 1,
            final(cs).scripts@.last().kind is CreateQuotientTable,
            final(cs).scripts@.last().inputs@.len() == 0,
            table.valid(*final(cs)),
            table.contents(*final(cs)),
    {
        let ghost cs0 = *cs;
        cs.insert_script(ScriptRecord { kind: ScriptKind::CreateQuotientTable, inputs: Vec::new() });
        let mut values: Vec<u32> = Vec::new();
        let mut k: usize = 0;
        while k < 48
            invariant
                k == values@.len(),
                k <= 48,
                forall|t: int| 0 <= t < k ==> values@[t] == quotient_table_value(t),
            decreases 48 - k,
        {
            let v: u32 = ((47 - k) as u32) / 16;
            values.push(v);
            k = k + 1;
        }
        let ghost cs1 = *cs;
        let vars = allocate_values(cs, &values, AllocationMode::FunctionOutput);
        proof {
            crate::context::lemma_extends_transitive(*cs, cs1, cs0);
            assert(values_recorded(*cs, vars@, Seq::new(48, |k: int| quotient_table_value(k))));
        }
        QuotientTableVar { variables: vars }
    }
}

/// The 48-entry remainder table: entry for a sum `s` of up to three
/// nibbles and a carry holds `s % 16`.
#[derive(Clone, Debug)]
pub struct RemainderTableVar {
    pub variables: Vec<usize>,
}

impl RemainderTableVar {
    pub open spec fn valid(self, cs: ConstraintContext) -> bool {
        self.variables@.len() == 48
            && forall|k: int| 0 <= k < 48 ==> self.variables@[k] < cs.num_allocated()
    }

    pub open spec fn contents(self, cs: ConstraintContext) -> bool {
        values_recorded(cs, self.variables@, Seq::new(48, |k: int| remainder_table_value(k)))
    }

    pub fn new_constant(cs: &mut ConstraintContext) -> (table: Self)
        ensures
            final(cs).extends(*old(cs)),
            final(cs).num_allocated() == old(cs).num_allocated() + 48,
            final(cs).scripts@ == old(cs).scripts@,
            table.valid(*final(cs)),
            table.contents(*final(cs)),
    {
        let mut values: Vec<u32> = Vec::new();
        let mut k: usize = 0;
        while k < 48
            invariant
                k == values@.len(),
                k <= 48,
                forall|t: int| 0 <= t < k ==> values@[t] == remainder_table_value(t),
            decreases 48 - k,
        {
            let v: u32 = ((47 - k) as u32) % 16;
            values.push(v);
            k = k + 1;
        }
        let vars = allocate_values(cs, &values, AllocationMode::Constant);
        proof {
            assert(values_recorded(*cs, vars@, Seq::new(48, |k: int| remainder_table_value(k))));
        }
        RemainderTableVar { variables: vars }
    }
}

/// All six tables of one build, allocated together and shared by every
/// gadget of that build.
#[derive(Clone, Debug)]
pub struct LookupTableVar {
    pub xor_table_var: XorTableVar,
    pub row_table: RowTable,
    pub shr3table_var: Shr3TableVar,
    pub shl1table_var: Shl1TableVar,
    pub quotient_table_var: QuotientTableVar,
    pub remainder_table_var: RemainderTableVar,
}

impl LookupTableVar {
    pub open spec fn valid(self, cs: ConstraintContext) -> bool {
        &&& self.xor_table_var.valid(cs)
        &&& self.row_table.valid(cs)
        &&& self.shr3table_var.valid(cs)
        &&& self.shl1table_var.valid(cs)
        &&& self.quotient_table_var.valid(cs)
        &&& self.remainder_table_var.valid(cs)
    }

    /// Every table holds exactly the constants its kind dictates.
    pub open spec fn contents(self, cs: ConstraintContext) -> bool {
        &&& self.xor_table_var.contents(cs)
        &&& self.row_table.contents(cs)
        &&& self.shr3table_var.contents(cs)
        &&& self.shl1table_var.contents(cs)
        &&& self.quotient_table_var.contents(cs)
        &&& self.remainder_table_var.contents(cs)
    }

    pub fn new_constant(cs: &mut ConstraintContext) -> (table: Self)
        ensures
            final(cs).extends(*old(cs)),
            table.valid(*final(cs)),
            table.contents(*final(cs)),
    {
        let ghost cs0 = *cs;
        let shr3table_var = Shr3TableVar::new_constant(cs);
        let ghost cs1 = *cs;
        let shl1table_var = Shl1TableVar::new_constant(cs);
        let ghost cs2 = *cs;
        let xor_table_var = XorTableVar::new_constant(cs);
        let ghost cs3 = *cs;
        let row_table = RowTable::new_constant(cs);
        let ghost cs4 = *cs;
        let quotient_table_var = QuotientTableVar::new_constant(cs);
        let ghost cs5 = *cs;
        let remainder_table_var = RemainderTableVar::new_constant(cs);
        proof {
            crate::context::lemma_extends_transitive(*cs, cs5, cs4);
            crate::context::lemma_extends_transitive(*cs, cs4, cs3);
            crate::context::lemma_extends_transitive(*cs, cs3, cs2);
            crate::context::lemma_extends_transitive(*cs, cs2, cs1);
            crate::context::lemma_extends_transitive(*cs, cs1, cs0);
            lemma_values_recorded_extends(*cs, cs1, shr3table_var.variables@, Seq::new(16, |k: int| shr3_table_value(k)));
            lemma_values_recorded_extends(*cs, cs2, shl1table_var.variables@, Seq::new(16, |k: int| shl1_table_value(k)));
            lemma_values_recorded_extends(*cs, cs3, xor_table_var.variables@, Seq::new(256, |k: int| xor_table_value(k)));
            lemma_values_recorded_extends(*cs, cs4, row_table.variables@, Seq::new(16, |k: int| row_table_value(k)));
            lemma_values_recorded_extends(*cs, cs5, quotient_table_var.variables@, Seq::new(48, |k: int| quotient_table_value(k)));
        }
        LookupTableVar {
            xor_table_var,
            row_table,
            shr3table_var,
            shl1table_var,
            quotient_table_var,
            remainder_table_var,
        }
    }

    /// The tables may only ever be allocated in constant mode.
    pub fn new_variable(cs: &mut ConstraintContext, mode: AllocationMode) -> (table: Self)
        requires
            mode == AllocationMode::Constant,
        ensures
            final(cs).extends(*old(cs)),
            table.valid(*final(cs)),
            table.contents(*final(cs)),
    {
        Self::new_constant(cs)
    }
}

/// Recorded table constants stay recorded while the context grows.
pub proof fn lemma_values_recorded_extends(
    c2: ConstraintContext,
    c1: ConstraintContext,
    vars: Seq<usize>,
    vals: Seq<u32>,
)
    requires
        c2.extends(c1),
        values_recorded(c1, vars, vals),
        forall|k: int| 0 <= k < vars.len() ==> vars[k] < c1.num_allocated(),
    ensures
        values_recorded(c2, vars, vals),
{
    assert forall|k: int| 0 <= k < vars.len() implies c2.entries@[vars[k] as int].element
        == Element::Num(vals[k]) by {
        assert(c1.entries@ =~= c2.entries@.subrange(0, c1.entries@.len() as int));
        assert(c2.entries@[vars[k] as int] == c1.entries@[vars[k] as int]);
    }
}

} // verus!
