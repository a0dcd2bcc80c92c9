//! Laws of the instruction set and of whole runs.
use crate::evm::{initial_state, run_result_is, EvmResult};
use crate::semantics::{
    eq_word, gt_word, is_zero_word, lt_word, run_spec, sgt_word, slt_word, EvmError, STEP_LIMIT,
};
use crate::word::{
    and_spec, lemma_value_word_of, lemma_word_of_value, modulus, not_spec, or_spec, word_of, Word,
};
use vstd::prelude::*;

verus! {

/// LT of `a` and `b` is GT of `b` and `a`.
pub proof fn lemma_lt_is_flipped_gt(a: Word, b: Word)
    ensures
        lt_word(a, b) == gt_word(b, a),
{
}

/// EQ is reflexive and symmetric.
pub proof fn lemma_eq_reflexive_symmetric(a: Word, b: Word)
    ensures
        eq_word(a, a) == word_of(1),
        eq_word(a, b) == eq_word(b, a),
{
}

/// ISZERO of `a` is EQ of `a` and zero.
pub proof fn lemma_is_zero_is_eq_zero(a: Word)
    ensures
        is_zero_word(a) == eq_word(a, word_of(0)),
{
    lemma_value_word_of(0);
    lemma_word_of_value(a);
}

/// NOT undoes itself; a word ANDed with its complement is zero, ORed with it
/// is all ones.
pub proof fn lemma_not_laws(a: Word)
    ensures
        not_spec(not_spec(a)) == a,
        and_spec(a, not_spec(a)) == word_of(0),
        or_spec(a, not_spec(a)) == word_of((modulus() - 1) as nat),
{
    assert(forall|x: u64| #[trigger] !(!x) == x) by (bit_vector);
    assert(forall|x: u64| #[trigger] (x & !x) == 0) by (bit_vector);
    assert(forall|x: u64| #[trigger] (x | !x) == 0xffff_ffff_ffff_ffffu64) by (bit_vector);
    assert(modulus()
            == 0x1_0000_0000_0000_0000_0000_0000_0000_0000_0000_0000_0000_0000_0000_0000_0000_0000nat);
}

/// SGT is SLT with its operands swapped.
pub proof fn lemma_sgt_mirrors_slt(a: Word, b: Word)
    ensures
        sgt_word(a, b) == slt_word(b, a),
{
}

/// Two runs of one bytecode return the same result: `execute` depends on the
/// bytecode alone, not on what an earlier run left in the engine.
pub proof fn lemma_execute_repeatable(
    code: Seq<u8>,
    r1: Result<EvmResult, EvmError>,
    r2: Result<EvmResult, EvmError>,
)
    requires
        run_result_is(r1, run_spec(code, initial_state(code), STEP_LIMIT as nat)),
        run_result_is(r2, run_spec(code, initial_state(code), STEP_LIMIT as nat)),
    ensures
        r1 is Ok <==> r2 is Ok,
        r1 is Ok ==> r1->Ok_0.stack@ == r2->Ok_0.stack@ && r1->Ok_0.success == r2->Ok_0.success,
        r1 is Err ==> r1 == r2,
{
}

} // verus!
