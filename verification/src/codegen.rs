//! The code generator: signed terms to accumulator-machine instructions.
//!
//! The emitted program loads the first term's magnitude, then adds or
//! subtracts each later term's magnitude in term order, and finally
//! returns. Instruction order is exactly term order: no reordering and no
//! optimization.

use vstd::prelude::*;
use crate::parser::{Sign, Term};

verus! {

/// One instruction of the accumulator machine.
#[derive(Clone, Copy, PartialEq, Eq, Structural, Debug)]
pub enum Instruction {
    /// Set the accumulator to the value.
    LoadImmediate { value: u64 },
    /// Add the value to the accumulator.
    AddImmediate { value: u64 },
    /// Subtract the value from the accumulator.
    SubtractImmediate { value: u64 },
    /// Stop; the accumulator holds the result.
    Return,
}

/// The instruction a later (non-first) term contributes.
pub open spec fn instruction_of_term(t: Term) -> Instruction {
    if t.sign is Positive {
        Instruction::AddImmediate { value: t.magnitude }
    } else {
        Instruction::SubtractImmediate { value: t.magnitude }
    }
}

/// The add/subtract instructions of the terms from position `i` on.
pub open spec fn spec_generate_rest(terms: Seq<Term>, i: int) -> Seq<Instruction>
    decreases terms.len() - i,
{
    if i < 0 || i >= terms.len() {
        Seq::empty()
    } else {
        seq![instruction_of_term(terms[i])] + spec_generate_rest(terms, i + 1)
    }
}

/// The whole program of a non-empty term sequence: load the first
/// magnitude, fold in each later term, return.
pub open spec fn spec_generate(terms: Seq<Term>) -> Seq<Instruction> {
    seq![Instruction::LoadImmediate { value: terms[0].magnitude }]
        + spec_generate_rest(terms, 1) + seq![Instruction::Return]
}

/// What one accumulator machine run computes: instructions are executed
/// front to back, each reading and updating the single accumulator, and
/// the first return (or the end of the program) stops the run with the
/// accumulator as its result.
pub open spec fn spec_run(instrs: Seq<Instruction>, acc: int) -> int
    decreases instrs.len(),
{
    if instrs.len() == 0 {
        acc
    } else {
        match instrs[0] {
            Instruction::LoadImmediate { value } => spec_run(instrs.drop_first(), value as int),
            Instruction::AddImmediate { value } => spec_run(instrs.drop_first(), acc + value),
            Instruction::SubtractImmediate { value } => spec_run(instrs.drop_first(), acc - value),
            Instruction::Return => acc,
        }
    }
}

/// The result of running a program from an accumulator holding zero.
pub open spec fn spec_machine_result(instrs: Seq<Instruction>) -> int {
    spec_run(instrs, 0)
}

/// The signed value a term contributes to the expression.
pub open spec fn term_value(t: Term) -> int {
    if t.sign is Positive {
        t.magnitude as int
    } else {
        -(t.magnitude as int)
    }
}

/// Strict left-to-right evaluation of the terms from position `i` on,
/// starting from the value accumulated so far.
pub open spec fn spec_eval_from(terms: Seq<Term>, i: int, acc: int) -> int
    decreases terms.len() - i,
{
    if i < 0 || i >= terms.len() {
        acc
    } else {
        spec_eval_from(terms, i + 1, acc + term_value(terms[i]))
    }
}

/// The arithmetic value of a non-empty term sequence, evaluated strictly
/// left to right.
pub open spec fn spec_eval(terms: Seq<Term>) -> int {
    spec_eval_from(terms, 1, terms[0].magnitude as int)
}

/// Emits the instructions of a non-empty term sequence, in term order.
#[verifier::loop_isolation(false)]
pub fn generate(terms: &Vec<Term>) -> (r: Vec<Instruction>)
    requires
        terms@.len() >= 1,
    ensures
        r@ == spec_generate(terms@),
{
    let mut instrs: Vec<Instruction> = Vec::new();
    instrs.push(Instruction::LoadImmediate { value: terms[0].magnitude });
    let mut i: usize = 1;
    while i < terms.len()
        invariant
            1 <= i <= terms@.len(),
            instrs@ == seq![
                Instruction::LoadImmediate { value: terms@[0].magnitude },
            ] + spec_generate_rest(terms@, 1).take(i - 1),
        decreases terms@.len() - i,
    {
        let t = terms[i];
        let instr = if matches!(t.sign, Sign::Positive) {
            Instruction::AddImmediate { value: t.magnitude }
        } else {
            Instruction::SubtractImmediate { value: t.magnitude }
        };
        let ghost instrs0 = instrs@;
        instrs.push(instr);
        proof {
            lemma_generate_rest_index(terms@, 1, i as int);
            assert(instrs@ =~= instrs0 + seq![instr]);
            assert(spec_generate_rest(terms@, 1).take(i as int) =~= spec_generate_rest(
                terms@,
                1,
            ).take(i - 1) + seq![spec_generate_rest(terms@, 1)[i - 1]]);
        }
        i = i + 1;
    }
    instrs.push(Instruction::Return);
    proof {
        assert(spec_generate_rest(terms@, 1).take(i - 1) =~= spec_generate_rest(terms@, 1)) by {
            lemma_generate_rest_len(terms@, 1);
        }
        assert(instrs@ =~= spec_generate(terms@));
    }
    instrs
}

/// The add/subtract tail has one instruction per remaining term.
pub proof fn lemma_generate_rest_len(terms: Seq<Term>, i: int)
    ensures
        spec_generate_rest(terms, i).len() == if 0 <= i <= terms.len() {
            terms.len() - i
        } else {
            0
        },
    decreases terms.len() - i,
{
    if 0 <= i < terms.len() {
        lemma_generate_rest_len(terms, i + 1);
    }
}

/// The instruction at offset `k - i` of the tail generated from `i` is
/// the instruction of term `k`.
pub proof fn lemma_generate_rest_index(terms: Seq<Term>, i: int, k: int)
    requires
        0 <= i <= k < terms.len(),
    ensures
        spec_generate_rest(terms, i).len() == terms.len() - i,
        spec_generate_rest(terms, i)[k - i] == instruction_of_term(terms[k]),
    decreases k - i,
{
    lemma_generate_rest_len(terms, i);
    lemma_generate_rest_len(terms, i + 1);
    if i < k {
        lemma_generate_rest_index(terms, i + 1, k);
    }
}

/// Running the tail generated from position `i`, followed by a return,
/// computes exactly the left-to-right evaluation of the remaining terms.
proof fn lemma_run_rest(terms: Seq<Term>, i: int, acc: int)
    requires
        0 <= i <= terms.len(),
    ensures
        spec_run(spec_generate_rest(terms, i) + seq![Instruction::Return], acc)
            == spec_eval_from(terms, i, acc),
    decreases terms.len() - i,
{
    if i >= terms.len() {
        assert(spec_generate_rest(terms, i) + seq![Instruction::Return]
            =~= seq![Instruction::Return]);
    } else {
        let tail = spec_generate_rest(terms, i + 1) + seq![Instruction::Return];
        assert((spec_generate_rest(terms, i) + seq![Instruction::Return]).drop_first() =~= tail);
        lemma_run_rest(terms, i + 1, acc + term_value(terms[i]));
    }
}

/// The central correctness law of the code generator: executing the
/// generated program on the accumulator machine yields the arithmetic
/// value of the expression, evaluated strictly left to right.
pub proof fn lemma_generated_program_computes_expression(terms: Seq<Term>)
    requires
        terms.len() >= 1,
    ensures
        spec_machine_result(spec_generate(terms)) == spec_eval(terms),
{
    let prog = spec_generate(terms);
    let tail = spec_generate_rest(terms, 1) + seq![Instruction::Return];
    assert(prog.drop_first() =~= tail);
    lemma_run_rest(terms, 1, terms[0].magnitude as int);
}

/// The boundary case: a single number compiles to exactly a load of its
/// magnitude followed by a return.
pub proof fn lemma_single_term_program(terms: Seq<Term>)
    requires
        terms.len() == 1,
    ensures
        spec_generate(terms) =~= seq![
            Instruction::LoadImmediate { value: terms[0].magnitude },
            Instruction::Return,
        ],
{
}

} // verus!
