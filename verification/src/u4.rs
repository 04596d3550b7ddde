//! The constrained 4-bit quantity and its gadget operations.
//!
//! A nibble is the atomic unit of arithmetic in this system: a numeric
//! value in `[0, 15]` plus a handle into the constraint context. Every
//! operation derives its result natively, appends exactly one
//! verification subprogram that re-derives it on the target machine
//! from the operands and a table probe, and allocates the result as a
//! function output; values are never mutated in place.

use vstd::prelude::*;
use crate::context::{AllocationMode, ConstraintContext, Element, ScriptKind, ScriptRecord};
use crate::lookup_table::LookupTableVar;

verus! {

/// A constrained nibble: a known value in `[0, 15]` and the handle of
/// the element allocated for it.
#[derive(Clone, Copy, Debug)]
pub struct U4Var {
    pub variable: usize,
    pub value: u32,
}

/// A carry extracted by a reducing addition. A carry of up to three
/// chained additions stays below 3, so it is itself a valid nibble.
#[derive(Clone, Copy, Debug)]
pub struct CarryVar(pub U4Var);

/// Marker for the most-significant limb of a word addition, where the
/// caller discards the carry and the sum wraps modulo the word size.
#[derive(Default, Clone, Copy, Debug)]
pub struct NoCarry();

/// A constrained value was read back with a numeric value outside its
/// range: the gadget invariant was broken.
#[derive(Clone, Copy, PartialEq, Eq, Structural, Debug)]
pub struct ValueError;

impl U4Var {
    /// The nibble's numeric value, rejected exactly when it has strayed
    /// beyond four bits.
    pub fn value(&self) -> (r: Result<u32, ValueError>)
        ensures
            self.value < 16 <==> r == Ok::<u32, ValueError>(self.value),
            self.value >= 16 <==> r == Err::<u32, ValueError>(ValueError),
    {
        if self.value > 15 {
            Err(ValueError)
        } else {
            Ok(self.value)
        }
    }

    /// The handles this value occupies in the context: a nibble is one
    /// element.
    pub fn variables(&self) -> (r: Vec<usize>)
        ensures
            r@ == seq![self.variable],
    {
        let mut r: Vec<usize> = Vec::new();
        r.push(self.variable);
        proof {
            assert(r@ =~= seq![self.variable]);
        }
        r
    }

    /// How many context elements a nibble occupies.
    pub fn length() -> (r: usize)
        ensures
            r == 1,
    {
        1
    }

    /// The nibble is in range and refers into the context.
    pub open spec fn valid(self, cs: ConstraintContext) -> bool {
        self.value < 16 && self.variable < cs.num_allocated()
    }

    /// Allocate a nibble with the given provenance.
    pub fn new_variable(cs: &mut ConstraintContext, data: u32, mode: AllocationMode) -> (v: Self)
        requires
            data < 16,
        ensures
            final(cs).extends(*old(cs)),
            final(cs).num_allocated() == old(cs).num_allocated() + 1,
            final(cs).scripts@ == old(cs).scripts@,
            v.valid(*final(cs)),
            v.value == data,
    {
        let variable = cs.allocate(Element::Num(data), mode);
        U4Var { variable, value: data }
    }

    pub fn new_constant(cs: &mut ConstraintContext, data: u32) -> (v: Self)
        requires
            data < 16,
        ensures
            final(cs).extends(*old(cs)),
            final(cs).num_allocated() == old(cs).num_allocated() + 1,
            final(cs).scripts@ == old(cs).scripts@,
            v.valid(*final(cs)),
            v.value == data,
    {
        Self::new_variable(cs, data, AllocationMode::Constant)
    }

    pub fn new_program_input(cs: &mut ConstraintContext, data: u32) -> (v: Self)
        requires
            data < 16,
        ensures
            final(cs).extends(*old(cs)),
            final(cs).num_allocated() == old(cs).num_allocated() + 1,
            final(cs).scripts@ == old(cs).scripts@,
            v.valid(*final(cs)),
            v.value == data,
    {
        Self::new_variable(cs, data, AllocationMode::ProgramInput)
    }

    pub fn new_function_output(cs: &mut ConstraintContext, data: u32) -> (v: Self)
        requires
            data < 16,
        ensures
            final(cs).extends(*old(cs)),
            final(cs).num_allocated() == old(cs).num_allocated() + 1,
            final(cs).scripts@ == old(cs).scripts@,
            v.valid(*final(cs)),
            v.value == data,
    {
        Self::new_variable(cs, data, AllocationMode::FunctionOutput)
    }

    /// XOR through the 16-by-16 table, addressed by row offset; one
    /// probe, one inserted subprogram.
    pub fn bitxor(&self, cs: &mut ConstraintContext, table: &LookupTableVar, rhs: &U4Var) -> (r: U4Var)
        requires
            self.valid(*old(cs)),
            rhs.valid(*old(cs)),
            table.valid(*old(cs)),
        ensures
            final(cs).extends(*old(cs)),
            final(cs).num_allocated() == old(cs).num_allocated() + 1,
            final(cs).scripts@.len() == old(cs).scripts@.len() + 1,
            final(cs).scripts@.last().kind is Xor,
            r.valid(*final(cs)),
            r.value == self.value ^ rhs.value,
    {
        let ghost cs0 = *cs;
        let res = self.value ^ rhs.value;
        proof {
            let x = self.value;
            let y = rhs.value;
            assert((x ^ y) < 16) by (bit_vector)
                requires
                    x < 16,
                    y < 16,
            ;
        }
        let mut inputs: Vec<usize> = Vec::new();
        inputs.push(self.variable);
        inputs.push(rhs.variable);
        cs.insert_script(ScriptRecord { kind: ScriptKind::Xor, inputs });
        let ghost cs1 = *cs;
        let out = U4Var::new_function_output(cs, res);
        proof {
            crate::context::lemma_extends_transitive(*cs, cs1, cs0);
        }
        out
    }

    /// Two-operand addition with reduction: one subprogram, one probe
    /// into each reduction table, remainder and carry allocated as
    /// function outputs.
    pub fn add(&self, cs: &mut ConstraintContext, table: &LookupTableVar, rhs: &U4Var) -> (r: (
        U4Var,
        CarryVar,
    ))
        requires
            self.valid(*old(cs)),
            rhs.valid(*old(cs)),
            table.valid(*old(cs)),
        ensures
            final(cs).extends(*old(cs)),
            final(cs).num_allocated() == old(cs).num_allocated() + 2,
            final(cs).scripts@.len() == old(cs).scripts@.len() + 1,
            final(cs).scripts@.last().kind matches ScriptKind::AddAndReduce { num_additions: 1 },
            r.0.valid(*final(cs)),
            r.1.0.valid(*final(cs)),
            r.0.value == (self.value + rhs.value) % 16,
            r.1.0.value == (self.value + rhs.value) / 16,
    {
        let ghost cs0 = *cs;
        let quotient = (self.value + rhs.value) / 16;
        let remainder = (self.value + rhs.value) % 16;
        let mut inputs: Vec<usize> = Vec::new();
        inputs.push(self.variable);
        inputs.push(rhs.variable);
        cs.insert_script(ScriptRecord {
            kind: ScriptKind::AddAndReduce { num_additions: 1 },
            inputs,
        });
        let ghost cs1 = *cs;
        let remainder_var = U4Var::new_function_output(cs, remainder);
        let ghost cs2 = *cs;
        let quotient_var = CarryVar(U4Var::new_function_output(cs, quotient));
        proof {
            crate::context::lemma_extends_transitive(*cs, cs2, cs1);
            crate::context::lemma_extends_transitive(*cs, cs1, cs0);
        }
        (remainder_var, quotient_var)
    }

    /// Two-operand addition reduced through the remainder table only:
    /// the caller promises to stand at the most-significant limb, where
    /// the carry is defined away as modular wraparound.
    pub fn add_nocarry(
        &self,
        cs: &mut ConstraintContext,
        table: &LookupTableVar,
        rhs: &U4Var,
        _marker: NoCarry,
    ) -> (r: U4Var)
        requires
            self.valid(*old(cs)),
            rhs.valid(*old(cs)),
            table.valid(*old(cs)),
        ensures
            final(cs).extends(*old(cs)),
            final(cs).num_allocated() == old(cs).num_allocated() + 1,
            final(cs).scripts@.len() == old(cs).scripts@.len() + 1,
            final(cs).scripts@.last().kind matches ScriptKind::AddAndReduceNoCarry {
                num_additions: 1,
            },
            r.valid(*final(cs)),
            r.value == (self.value + rhs.value) % 16,
    {
        let ghost cs0 = *cs;
        let remainder = (self.value + rhs.value) % 16;
        let mut inputs: Vec<usize> = Vec::new();
        inputs.push(self.variable);
        inputs.push(rhs.variable);
        cs.insert_script(ScriptRecord {
            kind: ScriptKind::AddAndReduceNoCarry { num_additions: 1 },
            inputs,
        });
        let ghost cs1 = *cs;
        let out = U4Var::new_function_output(cs, remainder);
        proof {
            crate::context::lemma_extends_transitive(*cs, cs1, cs0);
        }
        out
    }

    /// Two operands plus an incoming carry.
    pub fn add_with_carry(
        &self,
        cs: &mut ConstraintContext,
        table: &LookupTableVar,
        rhs: &U4Var,
        carry: &CarryVar,
    ) -> (r: (U4Var, CarryVar))
        requires
            self.valid(*old(cs)),
            rhs.valid(*old(cs)),
            carry.0.valid(*old(cs)),
            table.valid(*old(cs)),
        ensures
            final(cs).extends(*old(cs)),
            final(cs).num_allocated() == old(cs).num_allocated() + 2,
            final(cs).scripts@.len() == old(cs).scripts@.len() + 1,
            final(cs).scripts@.last().kind matches ScriptKind::AddAndReduce { num_additions: 2 },
            r.0.valid(*final(cs)),
            r.1.0.valid(*final(cs)),
            r.0.value == (self.value + rhs.value + carry.0.value) % 16,
            r.1.0.value == (self.value + rhs.value + carry.0.value) / 16,
    {
        let ghost cs0 = *cs;
        let quotient = (self.value + rhs.value + carry.0.value) / 16;
        let remainder = (self.value + rhs.value + carry.0.value) % 16;
        let mut inputs: Vec<usize> = Vec::new();
        inputs.push(self.variable);
        inputs.push(rhs.variable);
        inputs.push(carry.0.variable);
        cs.insert_script(ScriptRecord {
            kind: ScriptKind::AddAndReduce { num_additions: 2 },
            inputs,
        });
        let ghost cs1 = *cs;
        let remainder_var = U4Var::new_function_output(cs, remainder);
        let ghost cs2 = *cs;
        let quotient_var = CarryVar(U4Var::new_function_output(cs, quotient));
        proof {
            crate::context::lemma_extends_transitive(*cs, cs2, cs1);
            crate::context::lemma_extends_transitive(*cs, cs1, cs0);
        }
        (remainder_var, quotient_var)
    }

    /// Two operands plus an incoming carry, remainder only.
    pub fn add_with_carry_nocarry(
        &self,
        cs: &mut ConstraintContext,
        table: &LookupTableVar,
        rhs: &U4Var,
        carry: &CarryVar,
        _marker: NoCarry,
    ) -> (r: U4Var)
        requires
            self.valid(*old(cs)),
            rhs.valid(*old(cs)),
            carry.0.valid(*old(cs)),
            table.valid(*old(cs)),
        ensures
            final(cs).extends(*old(cs)),
            final(cs).num_allocated() == old(cs).num_allocated() + 1,
            final(cs).scripts@.len() == old(cs).scripts@.len() + 1,
            final(cs).scripts@.last().kind matches ScriptKind::AddAndReduceNoCarry {
                num_additions: 2,
            },
            r.valid(*final(cs)),
            r.value == (self.value + rhs.value + carry.0.value) % 16,
    {
        let ghost cs0 = *cs;
        let remainder = (self.value + rhs.value + carry.0.value) % 16;
        let mut inputs: Vec<usize> = Vec::new();
        inputs.push(self.variable);
        inputs.push(rhs.variable);
        inputs.push(carry.0.variable);
        cs.insert_script(ScriptRecord {
            kind: ScriptKind::AddAndReduceNoCarry { num_additions: 2 },
            inputs,
        });
        let ghost cs1 = *cs;
        let out = U4Var::new_function_output(cs, remainder);
        proof {
            crate::context::lemma_extends_transitive(*cs, cs1, cs0);
        }
        out
    }

    /// Three operands, no incoming carry.
    pub fn add3(
        &self,
        cs: &mut ConstraintContext,
        table: &LookupTableVar,
        rhs_1: &U4Var,
        rhs_2: &U4Var,
    ) -> (r: (U4Var, CarryVar))
        requires
            self.valid(*old(cs)),
            rhs_1.valid(*old(cs)),
            rhs_2.valid(*old(cs)),
            table.valid(*old(cs)),
        ensures
            final(cs).extends(*old(cs)),
            final(cs).num_allocated() == old(cs).num_allocated() + 2,
            final(cs).scripts@.len() == old(cs).scripts@.len() + 1,
            final(cs).scripts@.last().kind matches ScriptKind::AddAndReduce { num_additions: 2 },
            r.0.valid(*final(cs)),
            r.1.0.valid(*final(cs)),
            r.0.value == (self.value + rhs_1.value + rhs_2.value) % 16,
            r.1.0.value == (self.value + rhs_1.value + rhs_2.value) / 16,
    {
        let ghost cs0 = *cs;
        let quotient = (self.value + rhs_1.value + rhs_2.value) / 16;
        let remainder = (self.value + rhs_1.value + rhs_2.value) % 16;
        let mut inputs: Vec<usize> = Vec::new();
        inputs.push(self.variable);
        inputs.push(rhs_1.variable);
        inputs.push(rhs_2.variable);
        cs.insert_script(ScriptRecord {
            kind: ScriptKind::AddAndReduce { num_additions: 2 },
            inputs,
        });
        let ghost cs1 = *cs;
        let remainder_var = U4Var::new_function_output(cs, remainder);
        let ghost cs2 = *cs;
        let quotient_var = CarryVar(U4Var::new_function_output(cs, quotient));
        proof {
            crate::context::lemma_extends_transitive(*cs, cs2, cs1);
            crate::context::lemma_extends_transitive(*cs, cs1, cs0);
        }
        (remainder_var, quotient_var)
    }

    /// Three operands plus an incoming carry: the largest sum the
    /// reduction tables cover.
    pub fn add3_with_carry(
        &self,
        cs: &mut ConstraintContext,
        table: &LookupTableVar,
        rhs_1: &U4Var,
        rhs_2: &U4Var,
        carry: &CarryVar,
    ) -> (r: (U4Var, CarryVar))
        requires
            self.valid(*old(cs)),
            rhs_1.valid(*old(cs)),
            rhs_2.valid(*old(cs)),
            carry.0.valid(*old(cs)),
            carry.0.value <= 2,
            table.valid(*old(cs)),
        ensures
            final(cs).extends(*old(cs)),
            final(cs).num_allocated() == old(cs).num_allocated() + 2,
            final(cs).scripts@.len() == old(cs).scripts@.len() + 1,
            final(cs).scripts@.last().kind matches ScriptKind::AddAndReduce { num_additions: 3 },
            r.0.valid(*final(cs)),
            r.1.0.valid(*final(cs)),
            r.0.value == (self.value + rhs_1.value + rhs_2.value + carry.0.value) % 16,
            r.1.0.value == (self.value + rhs_1.value + rhs_2.value + carry.0.value) / 16,
    {
        let ghost cs0 = *cs;
        let quotient = (self.value + rhs_1.value + rhs_2.value + carry.0.value) / 16;
        let remainder = (self.value + rhs_1.value + rhs_2.value + carry.0.value) % 16;
        let mut inputs: Vec<usize> = Vec::new();
        inputs.push(self.variable);
        inputs.push(rhs_1.variable);
        inputs.push(rhs_2.variable);
        inputs.push(carry.0.variable);
        cs.insert_script(ScriptRecord {
            kind: ScriptKind::AddAndReduce { num_additions: 3 },
            inputs,
        });
        let ghost cs1 = *cs;
        let remainder_var = U4Var::new_function_output(cs, remainder);
        let ghost cs2 = *cs;
        let quotient_var = CarryVar(U4Var::new_function_output(cs, quotient));
        proof {
            crate::context::lemma_extends_transitive(*cs, cs2, cs1);
            crate::context::lemma_extends_transitive(*cs, cs1, cs0);
        }
        (remainder_var, quotient_var)
    }

    /// Three operands plus an incoming carry, remainder only.
    pub fn add3_with_carry_nocarry(
        &self,
        cs: &mut ConstraintContext,
        table: &LookupTableVar,
        rhs_1: &U4Var,
        rhs_2: &U4Var,
        carry: &CarryVar,
        _marker: NoCarry,
    ) -> (r: U4Var)
        requires
            self.valid(*old(cs)),
            rhs_1.valid(*old(cs)),
            rhs_2.valid(*old(cs)),
            carry.0.valid(*old(cs)),
            table.valid(*old(cs)),
        ensures
            final(cs).extends(*old(cs)),
            final(cs).num_allocated() == old(cs).num_allocated() + 1,
            final(cs).scripts@.len() == old(cs).scripts@.len() + 1,
            final(cs).scripts@.last().kind matches ScriptKind::AddAndReduceNoCarry {
                num_additions: 3,
            },
            r.valid(*final(cs)),
            r.value == (self.value + rhs_1.value + rhs_2.value + carry.0.value) % 16,
    {
        let ghost cs0 = *cs;
        let remainder = (self.value + rhs_1.value + rhs_2.value + carry.0.value) % 16;
        let mut inputs: Vec<usize> = Vec::new();
        inputs.push(self.variable);
        inputs.push(rhs_1.variable);
        inputs.push(rhs_2.variable);
        inputs.push(carry.0.variable);
        cs.insert_script(ScriptRecord {
            kind: ScriptKind::AddAndReduceNoCarry { num_additions: 3 },
            inputs,
        });
        let ghost cs1 = *cs;
        let out = U4Var::new_function_output(cs, remainder);
        proof {
            crate::context::lemma_extends_transitive(*cs, cs1, cs0);
        }
        out
    }

    /// Plain addition with no reduction: the caller has proven that the
    /// sum stays a nibble, as when recombining a 1-bit and a 3-bit
    /// shift result.
    pub fn add_no_overflow(&self, cs: &mut ConstraintContext, rhs: &Self) -> (r: Self)
        requires
            self.valid(*old(cs)),
            rhs.valid(*old(cs)),
            self.value + rhs.value < 16,
        ensures
            final(cs).extends(*old(cs)),
            final(cs).num_allocated() == old(cs).num_allocated() + 1,
            final(cs).scripts@.len() == old(cs).scripts@.len() + 1,
            final(cs).scripts@.last().kind is AddNoOverflow,
            r.valid(*final(cs)),
            r.value == self.value + rhs.value,
    {
        let ghost cs0 = *cs;
        let res_value = self.value + rhs.value;
        let mut inputs: Vec<usize> = Vec::new();
        inputs.push(self.variable);
        inputs.push(rhs.variable);
        cs.insert_script(ScriptRecord { kind: ScriptKind::AddNoOverflow, inputs });
        let ghost cs1 = *cs;
        let out = U4Var::new_function_output(cs, res_value);
        proof {
            crate::context::lemma_extends_transitive(*cs, cs1, cs0);
        }
        out
    }

    /// Shift left by one, masked to four bits: one table probe.
    pub fn get_shl1(&self, cs: &mut ConstraintContext, table: &LookupTableVar) -> (r: Self)
        requires
            self.valid(*old(cs)),
            table.valid(*old(cs)),
        ensures
            final(cs).extends(*old(cs)),
            final(cs).num_allocated() == old(cs).num_allocated() + 1,
            final(cs).scripts@.len() == old(cs).scripts@.len() + 1,
            final(cs).scripts@.last().kind is Shl1,
            r.valid(*final(cs)),
            r.value == (self.value << 1u32) & 15,
            r.value <= 14,
    {
        let ghost cs0 = *cs;
        let res_value = (self.value << 1u32) & 15;
        proof {
            let x = self.value;
            assert((x << 1u32) & 15 <= 14) by (bit_vector);
        }
        let mut inputs: Vec<usize> = Vec::new();
        inputs.push(self.variable);
        cs.insert_script(ScriptRecord { kind: ScriptKind::Shl1, inputs });
        let ghost cs1 = *cs;
        let out = U4Var::new_function_output(cs, res_value);
        proof {
            crate::context::lemma_extends_transitive(*cs, cs1, cs0);
        }
        out
    }

    /// Shift right by three: one table probe; the result is a single
    /// bit.
    pub fn get_shr3(&self, cs: &mut ConstraintContext, table: &LookupTableVar) -> (r: Self)
        requires
            self.valid(*old(cs)),
            table.valid(*old(cs)),
        ensures
            final(cs).extends(*old(cs)),
            final(cs).num_allocated() == old(cs).num_allocated() + 1,
            final(cs).scripts@.len() == old(cs).scripts@.len() + 1,
            final(cs).scripts@.last().kind is Shr3,
            r.valid(*final(cs)),
            r.value == self.value >> 3u32,
            r.value <= 1,
    {
        let ghost cs0 = *cs;
        let res_value = self.value >> 3u32;
        proof {
            let x = self.value;
            assert(x < 16 ==> (x >> 3u32) <= 1) by (bit_vector);
        }
        let mut inputs: Vec<usize> = Vec::new();
        inputs.push(self.variable);
        cs.insert_script(ScriptRecord { kind: ScriptKind::Shr3, inputs });
        let ghost cs1 = *cs;
        let out = U4Var::new_function_output(cs, res_value);
        proof {
            crate::context::lemma_extends_transitive(*cs, cs1, cs0);
        }
        out
    }
}

} // verus!
