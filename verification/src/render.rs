//! Rendering instructions as target-assembly text.
//!
//! Each instruction becomes one line of x86-64 text operating on the
//! `rax` accumulator register. The decimal numeral of an immediate is
//! specified character by character, so the rendered text is pinned down
//! exactly.

use vstd::prelude::*;
use crate::codegen::Instruction;

verus! {

/// The character of a single decimal digit.
pub open spec fn digit_char(d: nat) -> char {
    if d == 0 {
        '0'
    } else if d == 1 {
        '1'
    } else if d == 2 {
        '2'
    } else if d == 3 {
        '3'
    } else if d == 4 {
        '4'
    } else if d == 5 {
        '5'
    } else if d == 6 {
        '6'
    } else if d == 7 {
        '7'
    } else if d == 8 {
        '8'
    } else {
        '9'
    }
}

/// The decimal numeral of a number: most significant digit first, no
/// leading zero except for the number zero itself.
pub open spec fn spec_decimal(n: nat) -> Seq<char>
    decreases n,
{
    if n < 10 {
        seq![digit_char(n)]
    } else {
        spec_decimal(n / 10) + seq![digit_char(n % 10)]
    }
}

/// The one-character string of a decimal digit.
fn digit_str(d: u64) -> (r: &'static str)
    requires
        d < 10,
    ensures
        r@ == seq![digit_char(d as nat)],
{
    proof {
        reveal_strlit("0");
        reveal_strlit("1");
        reveal_strlit("2");
        reveal_strlit("3");
        reveal_strlit("4");
        reveal_strlit("5");
        reveal_strlit("6");
        reveal_strlit("7");
        reveal_strlit("8");
        reveal_strlit("9");
    }
    if d == 0 {
        "0"
    } else if d == 1 {
        "1"
    } else if d == 2 {
        "2"
    } else if d == 3 {
        "3"
    } else if d == 4 {
        "4"
    } else if d == 5 {
        "5"
    } else if d == 6 {
        "6"
    } else if d == 7 {
        "7"
    } else if d == 8 {
        "8"
    } else {
        "9"
    }
}

/// Appends the decimal numeral of `n` to the string, most significant
/// digit first.
fn push_decimal(n: u64, out: &mut String)
    ensures
        final(out)@ == old(out)@ + spec_decimal(n as nat),
    decreases n,
{
    if n >= 10 {
        push_decimal(n / 10, out);
        out.append(digit_str(n % 10));
        proof {
            assert(out@ =~= old(out)@ + spec_decimal(n as nat));
        }
    } else {
        out.append(digit_str(n));
    }
}

/// The decimal numeral of a number as a string.
pub fn decimal_string(n: u64) -> (r: String)
    ensures
        r@ == spec_decimal(n as nat),
{
    let mut s = String::new();
    push_decimal(n, &mut s);
    proof {
        assert(s@ =~= spec_decimal(n as nat));
    }
    s
}

/// The assembly text of one instruction.
pub open spec fn spec_instruction_text(i: Instruction) -> Seq<char> {
    match i {
        Instruction::LoadImmediate { value } => "  mov rax, "@ + spec_decimal(value as nat),
        Instruction::AddImmediate { value } => "  add rax, "@ + spec_decimal(value as nat),
        Instruction::SubtractImmediate { value } => "  sub rax, "@ + spec_decimal(value as nat),
        Instruction::Return => "  ret"@,
    }
}

impl Instruction {
    /// Renders the instruction as its line of assembly text.
    pub fn text(&self) -> (r: String)
        ensures
            r@ == spec_instruction_text(*self),
    {
        match self {
            Instruction::LoadImmediate { value } => {
                let mut s = String::from_str("  mov rax, ");
                push_decimal(*value, &mut s);
                s
            },
            Instruction::AddImmediate { value } => {
                let mut s = String::from_str("  add rax, ");
                push_decimal(*value, &mut s);
                s
            },
            Instruction::SubtractImmediate { value } => {
                let mut s = String::from_str("  sub rax, ");
                push_decimal(*value, &mut s);
                s
            },
            Instruction::Return => String::from_str("  ret"),
        }
    }
}

/// The rendered program: each instruction's line followed by a newline.
pub open spec fn spec_program_text(instrs: Seq<Instruction>) -> Seq<char>
    decreases instrs.len(),
{
    if instrs.len() == 0 {
        Seq::empty()
    } else {
        spec_instruction_text(instrs[0]) + "\n"@ + spec_program_text(instrs.drop_first())
    }
}

/// Renders a whole instruction sequence, one line per instruction.
#[verifier::loop_isolation(false)]
pub fn render_program(instrs: &Vec<Instruction>) -> (r: String)
    ensures
        r@ == spec_program_text(instrs@),
{
    let mut s = String::new();
    let mut i: usize = 0;
    while i < instrs.len()
        invariant
            i <= instrs@.len(),
            s@ == spec_program_text(instrs@.take(i as int)),
        decreases instrs@.len() - i,
    {
        let line = instrs[i].text();
        s.append(line.as_str());
        s.append("\n");
        proof {
            lemma_program_text_take(instrs@, i as int);
        }
        i = i + 1;
    }
    proof {
        assert(instrs@.take(instrs@.len() as int) =~= instrs@);
    }
    s
}

/// Rendering one more instruction appends its line and a newline.
proof fn lemma_program_text_take(instrs: Seq<Instruction>, i: int)
    requires
        0 <= i < instrs.len(),
    ensures
        spec_program_text(instrs.take(i + 1)) == spec_program_text(instrs.take(i))
            + spec_instruction_text(instrs[i]) + "\n"@,
    decreases i,
{
    let a = instrs.take(i + 1);
    if i == 0 {
        assert(a.drop_first() =~= instrs.take(0));
        assert(spec_program_text(instrs.take(0)) == Seq::<char>::empty());
        assert(spec_program_text(a) =~= spec_instruction_text(instrs[0]) + "\n"@
            + spec_program_text(instrs.take(0)));
        assert(spec_program_text(a) =~= spec_program_text(instrs.take(0))
            + spec_instruction_text(instrs[0]) + "\n"@);
    } else {
        assert(a.drop_first() =~= instrs.drop_first().take(i));
        assert(instrs.take(i).drop_first() =~= instrs.drop_first().take(i - 1));
        lemma_program_text_take(instrs.drop_first(), i - 1);
        assert(instrs.drop_first().take(i)[i - 1] == instrs[i]);
        assert(spec_program_text(a) =~= spec_program_text(instrs.take(i))
            + spec_instruction_text(instrs[i]) + "\n"@);
    }
}

} // verus!
