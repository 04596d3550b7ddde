//! The compact word representation: a minimal-length sign-magnitude
//! byte string for a 32-bit value, little-endian, with the sign carried
//! in the top bit of the last byte or in an explicit trailing sign byte
//! when that bit is already taken. The value zero encodes as the empty
//! string and `2^31` (a negative zero in sign-magnitude terms) as the
//! single byte `0x80`; conversion gadgets move between this form and
//! the eight-limb nibble form, and the round trip reproduces the value
//! exactly, these two edge cases included.

use vstd::prelude::*;
use vstd::arithmetic::div_mod::lemma_fundamental_div_mod;
use crate::context::{AllocationMode, ConstraintContext, Element, ScriptKind, ScriptRecord};
use crate::u32::U32Var;

verus! {

/// The little-endian byte string of a non-negative magnitude, with no
/// trailing zero: empty exactly for zero.
pub open spec fn le_bytes(m: int) -> Seq<u8>
    decreases m,
{
    if m <= 0 {
        Seq::empty()
    } else {
        seq![(m % 256) as u8].add(le_bytes(m / 256))
    }
}

/// The magnitude a little-endian byte string stands for.
pub open spec fn le_value(b: Seq<u8>) -> int
    decreases b.len(),
{
    if b.len() == 0 {
        0
    } else {
        b[0] + 256 * le_value(b.subrange(1, b.len() as int))
    }
}

/// The compact encoding of a 32-bit value: sign bit split off, the
/// magnitude written little-endian, and the sign reattached as the top
/// bit of the last byte, or as an explicit sign byte where that bit is
/// already set or the magnitude is empty.
pub open spec fn compact_bytes(v: u32) -> Seq<u8> {
    let neg = v >= 0x8000_0000;
    let m: int = if neg {
        v - 0x8000_0000
    } else {
        v as int
    };
    let b = le_bytes(m);
    if !neg {
        if b.len() > 0 && b.last() >= 0x80 {
            b.push(0u8)
        } else {
            b
        }
    } else {
        if b.len() == 0 {
            seq![0x80u8]
        } else if b.last() >= 0x80 {
            b.push(0x80u8)
        } else {
            b.update(b.len() - 1, (b.last() + 0x80) as u8)
        }
    }
}

/// Reading a compact byte string back: detect the sign from the top bit
/// of the last byte, clear it, and take the little-endian magnitude.
pub open spec fn compact_decode(b: Seq<u8>) -> int {
    if b.len() == 0 {
        0
    } else {
        let lastb = b.last();
        let cleared = b.update(b.len() - 1, (lastb % 0x80) as u8);
        if lastb >= 0x80 {
            le_value(cleared) + 0x8000_0000
        } else {
            le_value(cleared)
        }
    }
}

/// Reading back the little-endian bytes of a magnitude gives the
/// magnitude.
proof fn lemma_le_value_le_bytes(m: int)
    requires
        m >= 0,
    ensures
        le_value(le_bytes(m)) == m,
    decreases m,
{
    if m > 0 {
        lemma_le_value_le_bytes(m / 256);
        lemma_fundamental_div_mod(m, 256);
        let b = le_bytes(m);
        assert(b.subrange(1, b.len() as int) =~= le_bytes(m / 256));
    }
}

/// A trailing zero byte does not change the magnitude.
proof fn lemma_le_value_push_zero(b: Seq<u8>)
    ensures
        le_value(b.push(0u8)) == le_value(b),
    decreases b.len(),
{
    let t = b.push(0u8);
    assert(t.len() == b.len() + 1);
    if b.len() == 0 {
        assert(t.subrange(1, 1) =~= Seq::<u8>::empty());
        assert(le_value(t.subrange(1, t.len() as int)) == 0);
        assert(t[0] == 0u8);
        assert(le_value(t) == t[0] + 256 * le_value(t.subrange(1, t.len() as int)));
        assert(le_value(t) == 0);
        assert(le_value(b) == 0);
    } else {
        lemma_le_value_push_zero(b.subrange(1, b.len() as int));
        assert(t.subrange(1, t.len() as int) =~= b.subrange(1, b.len() as int).push(0u8));
        assert(le_value(t) == t[0] + 256 * le_value(t.subrange(1, t.len() as int)));
        assert(le_value(b) == b[0] + 256 * le_value(b.subrange(1, b.len() as int)));
        assert(t[0] == b[0]);
        assert(le_value(t.subrange(1, t.len() as int)) == le_value(b.subrange(1, b.len() as int)));
    }
}

/// Decoding the compact encoding of any 32-bit value gives that value
/// back, the zero and sign-bit-only edge cases included.
pub proof fn lemma_compact_round_trip(v: u32)
    ensures
        compact_decode(compact_bytes(v)) == v,
{
    let neg = v >= 0x8000_0000;
    let m: int = if neg {
        v - 0x8000_0000
    } else {
        v as int
    };
    let b = le_bytes(m);
    lemma_le_value_le_bytes(m);
    if !neg {
        if b.len() > 0 && b.last() >= 0x80 {
            let c = b.push(0u8);
            assert(c.update(c.len() - 1, 0u8) =~= b.push(0u8));
            lemma_le_value_push_zero(b);
        } else if b.len() > 0 {
            assert(b.update(b.len() - 1, (b.last() % 0x80) as u8) =~= b);
        }
    } else {
        if b.len() == 0 {
            let c = seq![0x80u8];
            assert(c.update(0, 0u8) =~= seq![0u8]);
            assert(le_value(seq![0u8]) == 0) by {
                assert(seq![0u8].subrange(1, 1) =~= Seq::<u8>::empty());
            }
        } else if b.last() >= 0x80 {
            let c = b.push(0x80u8);
            assert(c.update(c.len() - 1, 0u8) =~= b.push(0u8));
            lemma_le_value_push_zero(b);
        } else {
            let c = b.update(b.len() - 1, (b.last() + 0x80) as u8);
            assert(c.last() == (b.last() + 0x80) as u8);
            assert(c.update(c.len() - 1, (c.last() % 0x80) as u8) =~= b);
        }
    }
}

/// The round trip through nibble form is idempotent on the compact
/// form: encoding what a compact string decodes to gives the same
/// string back.
pub proof fn lemma_compact_idempotent(v: u32)
    ensures
        compact_bytes(compact_decode(compact_bytes(v)) as u32) == compact_bytes(v),
{
    lemma_compact_round_trip(v);
}

/// One byte extraction step matches one step of the spec recursion.
proof fn lemma_byte_extract(x: u32)
    by (bit_vector)
    ensures
        x & 0xff == x % 256,
        x >> 8u32 == x / 256,
{
}

/// The top bit of a byte, read arithmetically.
proof fn lemma_top_bit(x: u8)
    by (bit_vector)
    ensures
        (x & 0x80 != 0) <==> x >= 0x80,
        x < 0x80 ==> (x | 0x80) == x + 0x80,
{
}

/// The compact byte string of a value: the executable counterpart of
/// the encoding above, extracting the sign bit and then the magnitude
/// bytes from low to high.
pub fn get_u32_compact_representation(v: u32) -> (bytes: Vec<u8>)
    ensures
        bytes@ == compact_bytes(v),
{
    let is_negative = v >= 2147483648u32;
    let mut m = if is_negative {
        v - 2147483648u32
    } else {
        v
    };
    let ghost m0 = m;
    let mut bytes: Vec<u8> = Vec::new();
    while m > 0
        invariant
            le_bytes(m0 as int) == bytes@ + le_bytes(m as int),
        decreases m,
    {
        let ghost m_before = m;
        let ghost prefix = bytes@;
        let byte = (m & 0xff) as u8;
        bytes.push(byte);
        m = m >> 8u32;
        proof {
            lemma_byte_extract(m_before);
            assert(le_bytes(m_before as int) =~= seq![byte].add(le_bytes(m as int)));
            assert(prefix + le_bytes(m_before as int) =~= prefix.push(byte) + le_bytes(m as int));
        }
    }
    proof {
        assert(bytes@ + le_bytes(0) =~= bytes@);
    }
    if !is_negative {
        let n = bytes.len();
        if n > 0 {
            let lastb = bytes[n - 1];
            proof {
                lemma_top_bit(lastb);
            }
            if lastb & 0x80 != 0 {
                bytes.push(0u8);
            }
        }
    } else {
        let n = bytes.len();
        if n == 0 {
            bytes.push(0x80u8);
            proof {
                assert(bytes@ =~= seq![0x80u8]);
            }
        } else {
            let lastb = bytes[n - 1];
            proof {
                lemma_top_bit(lastb);
            }
            if lastb & 0x80 != 0 {
                bytes.push(0x80u8);
            } else {
                bytes[n - 1] = lastb | 0x80;
                proof {
                    assert(bytes@ =~= le_bytes(m0 as int).update(
                        le_bytes(m0 as int).len() - 1,
                        (le_bytes(m0 as int).last() + 0x80) as u8,
                    ));
                }
            }
        }
    }
    bytes
}

/// A 32-bit value carried as a single compact stack element: the plain
/// value, and the handle of the element holding its byte encoding.
#[derive(Clone, Copy, Debug)]
pub struct U32CompactVar {
    pub variable: usize,
    pub value: u32,
}

impl U32CompactVar {
    /// The handle refers into the context.
    pub open spec fn valid(self, cs: ConstraintContext) -> bool {
        self.variable < cs.num_allocated()
    }

    /// Allocate a compact word with the given provenance; the allocated
    /// element holds the compact byte encoding of the value.
    pub fn new_variable(cs: &mut ConstraintContext, data: u32, mode: AllocationMode) -> (v: Self)
        ensures
            final(cs).extends(*old(cs)),
            final(cs).num_allocated() == old(cs).num_allocated() + 1,
            final(cs).scripts@ == old(cs).scripts@,
            final(cs).entries@.last().element matches Element::Str(b) && b@ == compact_bytes(
                data,
            ),
            v.valid(*final(cs)),
            v.value == data,
    {
        let bytes = get_u32_compact_representation(data);
        let variable = cs.allocate(Element::Str(bytes), mode);
        U32CompactVar { variable, value: data }
    }

    pub fn new_function_output(cs: &mut ConstraintContext, data: u32) -> (v: Self)
        ensures
            final(cs).extends(*old(cs)),
            final(cs).num_allocated() == old(cs).num_allocated() + 1,
            final(cs).scripts@ == old(cs).scripts@,
            final(cs).entries@.last().element matches Element::Str(b) && b@ == compact_bytes(
                data,
            ),
            v.valid(*final(cs)),
            v.value == data,
    {
        Self::new_variable(cs, data, AllocationMode::FunctionOutput)
    }

    /// Pack a nibble word into compact form: one subprogram that merges
    /// the eight limbs into a single stack element, then the compact
    /// value as its output.
    pub fn from_u32var(cs: &mut ConstraintContext, limbs: &U32Var) -> (v: Self)
        requires
            limbs.valid(*old(cs)),
        ensures
            final(cs).extends(*old(cs)),
            final(cs).scripts@.len() == old(cs).scripts@.len() + 1,
            final(cs).scripts@.last().kind is FromU32ToCompact,
            v.valid(*final(cs)),
            v.value == limbs.value_spec(),
    {
        let ghost cs0 = *cs;
        let mut inputs: Vec<usize> = Vec::new();
        inputs.push(limbs.limbs[0].variable);
        inputs.push(limbs.limbs[1].variable);
        inputs.push(limbs.limbs[2].variable);
        inputs.push(limbs.limbs[3].variable);
        inputs.push(limbs.limbs[4].variable);
        inputs.push(limbs.limbs[5].variable);
        inputs.push(limbs.limbs[6].variable);
        inputs.push(limbs.limbs[7].variable);
        cs.insert_script(ScriptRecord { kind: ScriptKind::FromU32ToCompact, inputs });
        let ghost cs1 = *cs;
        let value = limbs.value(cs);
        let ghost cs2 = *cs;
        let out = Self::new_function_output(cs, value);
        proof {
            crate::context::lemma_extends_transitive(*cs, cs2, cs1);
            crate::context::lemma_extends_transitive(*cs, cs1, cs0);
        }
        out
    }

    /// Unpack the compact form back into a nibble word: one subprogram
    /// that peels the bits apart, then eight nibble limbs as its
    /// outputs.
    pub fn to_u32var(&self, cs: &mut ConstraintContext) -> (w: U32Var)
        requires
            self.valid(*old(cs)),
        ensures
            final(cs).extends(*old(cs)),
            final(cs).scripts@.len() == old(cs).scripts@.len() + 1,
            final(cs).scripts@.last().kind is FromCompactToU32,
            w.valid(*final(cs)),
            w.value_spec() == self.value,
    {
        let ghost cs0 = *cs;
        let mut inputs: Vec<usize> = Vec::new();
        inputs.push(self.variable);
        cs.insert_script(ScriptRecord { kind: ScriptKind::FromCompactToU32, inputs });
        let ghost cs1 = *cs;
        let w = U32Var::new_variable(cs, self.value, AllocationMode::FunctionOutput);
        proof {
            crate::context::lemma_extends_transitive(*cs, cs1, cs0);
        }
        w
    }
}

} // verus!
