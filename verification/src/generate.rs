//! Code generation: lowers the AST to assembly text for a 64-bit ARM-style
//! target.  All evaluation funnels through the 32-bit return register `w0`;
//! the emitted instructions are modelled by [`Instr`] and a small symbolic
//! machine, so that what the text computes is itself a proved statement.

use crate::lexer::Operator;
use crate::parser::{Expression, Statement, AST};
use vstd::prelude::*;
use vstd::string::StringExecFns;

verus! {

/// The instructions the generator emits, one line of assembly text each.
#[derive(Debug, Clone, Copy, PartialEq, Eq)]
pub enum Instr {
    /// `mov w0, #imm`: load an immediate, truncated to the register width.
    MovImm(i64),
    /// `neg w0, w0`: two's-complement negation.
    Neg,
    /// `mvn w0, w0`: bitwise complement.
    Mvn,
    /// `cmp w0, #0`: set the zero flag from a comparison with zero.
    CmpZero,
    /// `cset w0, eq`: one if the zero flag is set, else zero.
    CsetEq,
    /// `ret`: return, with the result in `w0`.
    Ret,
}

/// The state of the symbolic machine: the return register and the zero flag.
pub ghost struct MachineState {
    pub w0: u32,
    pub zero_flag: bool,
}

/// Two's-complement negation at the register width.
pub open spec fn neg32(x: u32) -> u32 {
    ((4294967296int - x as int) % 4294967296int) as u32
}

/// One step of the symbolic machine.
pub open spec fn spec_step(st: MachineState, instr: Instr) -> MachineState {
    match instr {
        Instr::MovImm(v) => MachineState { w0: v as u32, zero_flag: st.zero_flag },
        Instr::Neg => MachineState { w0: neg32(st.w0), zero_flag: st.zero_flag },
        Instr::Mvn => MachineState { w0: !st.w0, zero_flag: st.zero_flag },
        Instr::CmpZero => MachineState { w0: st.w0, zero_flag: st.w0 == 0 },
        Instr::CsetEq => MachineState {
            w0: if st.zero_flag {
                1
            } else {
                0
            },
            zero_flag: st.zero_flag,
        },
        Instr::Ret => st,
    }
}

/// Symbolic execution of an instruction sequence.
pub open spec fn spec_run(instrs: Seq<Instr>, st: MachineState) -> MachineState
    decreases instrs.len(),
{
    if instrs.len() == 0 {
        st
    } else {
        spec_run(instrs.drop_first(), spec_step(st, instrs[0]))
    }
}

pub proof fn lemma_run_concat(a: Seq<Instr>, b: Seq<Instr>, st: MachineState)
    ensures
        spec_run(a + b, st) == spec_run(b, spec_run(a, st)),
    decreases a.len(),
{
    if a.len() == 0 {
        assert(a + b =~= b);
    } else {
        assert((a + b).drop_first() =~= a.drop_first() + b);
        lemma_run_concat(a.drop_first(), b, spec_step(st, a[0]));
    }
}

/// The mathematically defined value of an expression, modulo the register's
/// bit width: the literal truncated to 32 bits, with the operators applied
/// right-to-left as two's-complement negation, bitwise complement, and
/// boolean not-of-nonzero.
pub open spec fn spec_eval(e: Expression) -> u32
    decreases e,
{
    match e {
        Expression::Const(v) => v as u32,
        Expression::UnOp(op, inner) => spec_apply_op(op, spec_eval(*inner)),
    }
}

pub open spec fn spec_apply_op(op: Operator, x: u32) -> u32 {
    match op {
        Operator::Negation => neg32(x),
        Operator::BitwiseNot => !x,
        Operator::LogicalNot => if x == 0 {
            1
        } else {
            0
        },
    }
}

/// The operators of `ops` applied right-to-left (innermost last) to `x`.
pub open spec fn spec_apply_ops(ops: Seq<Operator>, x: u32) -> u32
    decreases ops.len(),
{
    if ops.len() == 0 {
        x
    } else {
        spec_apply_op(ops[0], spec_apply_ops(ops.drop_first(), x))
    }
}

/// The value of a nested unary expression is its operators applied
/// right-to-left to its literal, truncated to the register width.
pub proof fn lemma_eval_expr_from_ops(ops: Seq<Operator>, lit: i64)
    ensures
        spec_eval(crate::parser::expr_from_ops(ops, lit)) == spec_apply_ops(ops, lit as u32),
    decreases ops.len(),
{
    if ops.len() > 0 {
        lemma_eval_expr_from_ops(ops.drop_first(), lit);
    }
}

/// The instructions an operator is lowered to, applied to a value in `w0`.
pub open spec fn spec_op_instrs(op: Operator) -> Seq<Instr> {
    match op {
        Operator::Negation => seq![Instr::Neg],
        Operator::BitwiseNot => seq![Instr::Mvn],
        Operator::LogicalNot => seq![Instr::CmpZero, Instr::CsetEq],
    }
}

/// The instructions an expression is lowered to: post-order, operand first.
pub open spec fn spec_lower_expr(e: Expression) -> Seq<Instr>
    decreases e,
{
    match e {
        Expression::Const(v) => seq![Instr::MovImm(v)],
        Expression::UnOp(op, inner) => spec_lower_expr(*inner) + spec_op_instrs(op),
    }
}

/// The whole emitted program: the lowered expression, then a return.
pub open spec fn spec_program_instrs(e: Expression) -> Seq<Instr> {
    spec_lower_expr(e) + seq![Instr::Ret]
}

/// Lowering is correct: running the instructions of an expression from any
/// machine state leaves the expression's value in `w0`.
pub proof fn lemma_lower_expr_evaluates(e: Expression, st: MachineState)
    ensures
        spec_run(spec_lower_expr(e), st).w0 == spec_eval(e),
    decreases e,
{
    match e {
        Expression::Const(v) => {
            reveal_with_fuel(spec_run, 2);
            assert(spec_lower_expr(e) == seq![Instr::MovImm(v)]);
            assert(seq![Instr::MovImm(v)].drop_first() =~= Seq::<Instr>::empty());
            assert(spec_run(spec_lower_expr(e), st) == spec_step(st, Instr::MovImm(v)));
        },
        Expression::UnOp(op, inner) => {
            reveal_with_fuel(spec_run, 3);
            lemma_run_concat(spec_lower_expr(*inner), spec_op_instrs(op), st);
            lemma_lower_expr_evaluates(*inner, st);
            let st1 = spec_run(spec_lower_expr(*inner), st);
            match op {
                Operator::Negation => {
                    assert(spec_op_instrs(op).drop_first() =~= Seq::<Instr>::empty());
                },
                Operator::BitwiseNot => {
                    assert(spec_op_instrs(op).drop_first() =~= Seq::<Instr>::empty());
                },
                Operator::LogicalNot => {
                    let st2 = spec_step(st1, Instr::CmpZero);
                    assert(spec_op_instrs(op).drop_first() =~= seq![Instr::CsetEq]);
                    assert(spec_op_instrs(op).drop_first().drop_first() =~= Seq::<Instr>::empty());
                },
            }
        },
    }
}

/// The program's instructions compute the expression's value: the trailing
/// return does not touch `w0`.
pub proof fn lemma_program_evaluates(e: Expression, st: MachineState)
    ensures
        spec_run(spec_program_instrs(e), st).w0 == spec_eval(e),
{
    reveal_with_fuel(spec_run, 2);
    lemma_run_concat(spec_lower_expr(e), seq![Instr::Ret], st);
    lemma_lower_expr_evaluates(e, st);
    let st1 = spec_run(spec_lower_expr(e), st);
    assert(seq![Instr::Ret].drop_first() =~= Seq::<Instr>::empty());
}

// Rendering: the exact assembly text of the instructions.

/// The decimal digits of a non-negative number, most significant first.
pub open spec fn spec_decimal_digits(v: int) -> Seq<char>
    decreases v,
{
    if v < 10 {
        seq![spec_digit_char(v)]
    } else {
        spec_decimal_digits(v / 10) + seq![spec_digit_char(v % 10)]
    }
}

pub open spec fn spec_digit_char(d: int) -> char {
    ((48 + d) as u8) as char
}

/// The decimal rendering of a 64-bit signed integer.
pub open spec fn spec_decimal(v: int) -> Seq<char> {
    if v < 0 {
        seq!['-'] + spec_decimal_digits(-v)
    } else {
        spec_decimal_digits(v)
    }
}

/// The assembly line(s) of one instruction.
pub open spec fn spec_render_instr(instr: Instr) -> Seq<char> {
    match instr {
        Instr::MovImm(v) => "    mov w0, #"@ + spec_decimal(v as int) + "\n"@,
        Instr::Neg => "    neg w0, w0\n"@,
        Instr::Mvn => "    mvn w0, w0\n"@,
        Instr::CmpZero => "    cmp w0, #0\n"@,
        Instr::CsetEq => "    cset w0, eq\n"@,
        Instr::Ret => "    ret\n"@,
    }
}

/// The assembly text of an instruction sequence.
pub open spec fn spec_render_instrs(instrs: Seq<Instr>) -> Seq<char>
    decreases instrs.len(),
{
    if instrs.len() == 0 {
        Seq::empty()
    } else {
        spec_render_instr(instrs[0]) + spec_render_instrs(instrs.drop_first())
    }
}

pub proof fn lemma_render_concat(a: Seq<Instr>, b: Seq<Instr>)
    ensures
        spec_render_instrs(a + b) == spec_render_instrs(a) + spec_render_instrs(b),
    decreases a.len(),
{
    if a.len() == 0 {
        assert(a + b =~= b);
        assert(spec_render_instrs(a) + spec_render_instrs(b) =~= spec_render_instrs(b));
    } else {
        assert((a + b).drop_first() =~= a.drop_first() + b);
        lemma_render_concat(a.drop_first(), b);
        assert(spec_render_instrs(a + b) =~= spec_render_instrs(a) + spec_render_instrs(b));
    }
}

/// The fixed prologue: a global, aligned `_main` entry point.
pub open spec fn spec_prologue() -> Seq<char> {
    ".globl _main\n.p2align 2\n_main:\n"@
}

/// The full assembly text generated for the return expression `e`.
pub open spec fn spec_generate(e: Expression) -> Seq<char> {
    spec_prologue() + spec_render_instrs(spec_program_instrs(e))
}

/// The return expression of an AST with the parser's one-function,
/// one-statement shape.
pub open spec fn ast_expression(ast: AST) -> Expression {
    match ast.program.functions@[0].body@[0] {
        Statement::Return(e) => e,
    }
}

/// Appends one decimal digit character.
fn append_digit(output: &mut String, d: u64)
    requires
        d < 10,
    ensures
        final(output)@ == old(output)@ + seq![spec_digit_char(d as int)],
{
    proof {
        reveal_strlit("0");
        reveal_strlit("1");
        reveal_strlit("2");
        reveal_strlit("3");
        reveal_strlit("4");
        reveal_strlit("5");
        reveal_strlit("6");
        reveal_strlit("7");
        reveal_strlit("8");
        reveal_strlit("9");
    }
    if d == 0 {
        output.append("0");
    } else if d == 1 {
        output.append("1");
    } else if d == 2 {
        output.append("2");
    } else if d == 3 {
        output.append("3");
    } else if d == 4 {
        output.append("4");
    } else if d == 5 {
        output.append("5");
    } else if d == 6 {
        output.append("6");
    } else if d == 7 {
        output.append("7");
    } else if d == 8 {
        output.append("8");
    } else {
        output.append("9");
    }
    proof {
        assert(final(output)@ =~= old(output)@ + seq![spec_digit_char(d as int)]);
    }
}

/// Appends the decimal digits of a non-negative number.
fn append_decimal_digits(output: &mut String, v: u64)
    ensures
        final(output)@ == old(output)@ + spec_decimal_digits(v as int),
    decreases v,
{
    if v < 10 {
        append_digit(output, v);
    } else {
        append_decimal_digits(output, v / 10);
        append_digit(output, v % 10);
        proof {
            assert(final(output)@ =~= old(output)@ + spec_decimal_digits(v as int));
        }
    }
}

/// Appends the decimal rendering of a 64-bit signed integer.
fn append_decimal(output: &mut String, v: i64)
    ensures
        final(output)@ == old(output)@ + spec_decimal(v as int),
{
    if v >= 0 {
        append_decimal_digits(output, v as u64);
    } else {
        output.append("-");
        let magnitude: u64 = ((-(v + 1)) as u64) + 1;
        proof {
            assert(magnitude as int == -(v as int));
        }
        append_decimal_digits(output, magnitude);
        proof {
            reveal_strlit("-");
            assert("-"@ =~= seq!['-']);
            assert(final(output)@ =~= old(output)@ + spec_decimal(v as int));
        }
    }
}

/// Helper function to evaluate an expression: appends the assembly text of
/// its lowered instructions, which leave its value in `w0`.
fn eval_expression(output: &mut String, expression: &Expression)
    ensures
        final(output)@ == old(output)@ + spec_render_instrs(spec_lower_expr(*expression)),
    decreases expression,
{
    match expression {
        Expression::Const(lit) => {
            output.append("    mov w0, #");
            append_decimal(output, *lit);
            output.append("\n");
            proof {
                reveal_with_fuel(spec_render_instrs, 2);
                assert(spec_lower_expr(*expression) == seq![Instr::MovImm(*lit)]);
                assert(seq![Instr::MovImm(*lit)].drop_first() =~= Seq::<Instr>::empty());
                assert(spec_render_instrs(spec_lower_expr(*expression)) =~= spec_render_instr(
                    Instr::MovImm(*lit),
                ));
                assert(final(output)@ =~= old(output)@ + spec_render_instrs(
                    spec_lower_expr(*expression),
                ));
            }
        },
        Expression::UnOp(op, inner_exp) => {
            eval_expression(output, inner_exp);
            match op {
                Operator::Negation => {
                    output.append("    neg w0, w0\n");
                },
                Operator::BitwiseNot => {
                    output.append("    mvn w0, w0\n");
                },
                Operator::LogicalNot => {
                    output.append("    cmp w0, #0\n");
                    output.append("    cset w0, eq\n");
                },
            }
            proof {
                reveal_with_fuel(spec_render_instrs, 3);
                lemma_render_concat(spec_lower_expr(**inner_exp), spec_op_instrs(*op));
                assert(spec_render_instrs(spec_op_instrs(*op)) =~= match *op {
                    Operator::Negation => "    neg w0, w0\n"@,
                    Operator::BitwiseNot => "    mvn w0, w0\n"@,
                    Operator::LogicalNot => "    cmp w0, #0\n"@ + "    cset w0, eq\n"@,
                }) by {
                    match *op {
                        Operator::Negation => {
                            assert(spec_op_instrs(*op).drop_first() =~= Seq::<Instr>::empty());
                            assert("    neg w0, w0\n"@ + Seq::<char>::empty() =~= "    neg w0, w0\n"@);
                        },
                        Operator::BitwiseNot => {
                            assert(spec_op_instrs(*op).drop_first() =~= Seq::<Instr>::empty());
                            assert("    mvn w0, w0\n"@ + Seq::<char>::empty() =~= "    mvn w0, w0\n"@);
                        },
                        Operator::LogicalNot => {
                            assert(spec_op_instrs(*op).drop_first() =~= seq![Instr::CsetEq]);
                            assert(spec_op_instrs(*op).drop_first().drop_first() =~= Seq::<
                                Instr,
                            >::empty());
                            assert("    cset w0, eq\n"@ + Seq::<char>::empty() =~= "    cset w0, eq\n"@);
                        },
                    }
                }
                assert(final(output)@ =~= old(output)@ + spec_render_instrs(
                    spec_lower_expr(*expression),
                ));
            }
        },
    }
}

/// Generate assembly from an AST.
pub fn generate(ast: AST) -> (r: String)
    requires
        ast.program.functions@.len() >= 1,
        ast.program.functions@[0].body@.len() >= 1,
    ensures
        r@ == spec_generate(ast_expression(ast)),
{
    let mut output = String::from_str(".globl _main\n.p2align 2\n_main:\n");

    let func = &ast.program.functions[0];

    match &func.body[0] {
        Statement::Return(expression) => {
            eval_expression(&mut output, expression);
            output.append("    ret\n");
        },
    }
    proof {
        let e = ast_expression(ast);
        reveal_with_fuel(spec_render_instrs, 2);
        lemma_render_concat(spec_lower_expr(e), seq![Instr::Ret]);
        assert(spec_render_instrs(seq![Instr::Ret]) =~= "    ret\n"@) by {
            assert(seq![Instr::Ret].drop_first() =~= Seq::<Instr>::empty());
            assert("    ret\n"@ + Seq::<char>::empty() =~= "    ret\n"@);
        }
        assert(output@ =~= spec_generate(e));
    }
    output
}

} // verus!
