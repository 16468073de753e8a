//! A small model of the accumulator machine: just enough state to give
//! meaning to the instructions the code generator emits for the three unary
//! operators, and the proofs that they compute them — two's-complement
//! negation for ` neg`, bitwise inversion for ` not`, and for logical
//! negation the three-instruction compare/clear/set sequence.

use vstd::prelude::*;

verus! {

/// Machine state read and written by the emitted instructions: the
/// 32-bit accumulator and the zero flag.
#[verifier::ext_equal]
pub ghost struct AccumState {
    pub eax: u32,
    pub zf: bool,
}

/// ` neg %eax`: two's-complement negates the accumulator; the zero flag
/// records whether the result is zero.
pub open spec fn step_neg(m: AccumState) -> AccumState {
    AccumState {
        eax: (if m.eax == 0 {
            0int
        } else {
            0x1_0000_0000 - m.eax as int
        }) as u32,
        zf: m.eax == 0,
    }
}

/// ` not %eax`: inverts every bit of the accumulator; no flag is touched.
pub open spec fn step_not(m: AccumState) -> AccumState {
    AccumState { eax: !m.eax, zf: m.zf }
}

/// Arithmetic negation: the one instruction emitted for it leaves the
/// two's-complement negation of the accumulator — the old and new values
/// sum to zero modulo 2^32.
pub proof fn lemma_negation_semantics(m: AccumState)
    ensures
        step_neg(m).eax == (if m.eax == 0 {
            0int
        } else {
            0x1_0000_0000 - m.eax as int
        }),
        (m.eax as int + step_neg(m).eax as int) % 0x1_0000_0000 == 0,
{
}

/// Bitwise complement: the one instruction emitted for it inverts every bit
/// of the accumulator — the old and new values share no set bit and
/// together set all thirty-two.
pub proof fn lemma_complement_semantics(m: AccumState)
    ensures
        step_not(m).eax == !m.eax,
        step_not(m).eax & m.eax == 0u32,
        step_not(m).eax | m.eax == 0xffff_ffffu32,
{
    let a = m.eax;
    assert((!a & a) == 0u32) by (bit_vector);
    assert((!a | a) == 0xffff_ffffu32) by (bit_vector);
}

/// ` cmpl $0, %eax`: compares the accumulator to zero, recording the
/// outcome in the zero flag and leaving the accumulator alone.
pub open spec fn step_cmpl_zero(m: AccumState) -> AccumState {
    AccumState { eax: m.eax, zf: m.eax == 0 }
}

/// ` movl $0, %eax`: clears the accumulator; the flags are untouched.
pub open spec fn step_movl_zero(m: AccumState) -> AccumState {
    AccumState { eax: 0, zf: m.zf }
}

/// ` sete %al`: writes the zero flag into the low byte of the accumulator.
pub open spec fn step_sete_al(m: AccumState) -> AccumState {
    AccumState {
        eax: (m.eax & 0xffff_ff00) | (if m.zf { 1u32 } else { 0u32 }),
        zf: m.zf,
    }
}

/// Logical negation of any nonzero accumulator value yields `0`, and of
/// zero yields `1`: running the three instructions emitted for logical
/// negation — compare to zero, clear, conditional set — from any starting
/// state leaves exactly that in the accumulator.
pub proof fn lemma_logical_negation_semantics(m: AccumState)
    ensures
        step_sete_al(step_movl_zero(step_cmpl_zero(m))).eax == (if m.eax == 0 {
            1u32
        } else {
            0u32
        }),
{
    assert((0u32 & 0xffff_ff00u32) | 1u32 == 1u32) by (bit_vector);
    assert((0u32 & 0xffff_ff00u32) | 0u32 == 0u32) by (bit_vector);
}

} // verus!
