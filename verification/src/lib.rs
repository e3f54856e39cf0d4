//! A compiler for a small subset of C: one `main` function whose body is a
//! single `return` of an integer constant, optionally wrapped in the unary
//! operators `-`, `~` and `!`.  The pipeline is linear: source text is lexed
//! into tokens, parsed into an abstract syntax tree, and lowered to assembly
//! text for a 64-bit ARM-style target, with the result left in register `w0`.

pub mod generate;
pub mod lexer;
pub mod parser;

use vstd::prelude::*;

use crate::generate::{
    ast_expression, generate, spec_eval, spec_generate, spec_program_instrs, spec_run,
    MachineState,
};
use crate::lexer::{lex, spec_lex, token_models, Keyword, LexError, Token, TokenModel};
use crate::parser::{ast_for, parse, spec_parse, Expression, ParseError, Statement, AST};

verus! {

/// A fatal compilation error: the stage that failed and its error.  Code
/// generation has no failure mode, so no third variant exists.
#[derive(Debug, Clone, Copy, PartialEq, Eq)]
pub enum CompileError {
    Lex(LexError),
    Parse(ParseError),
}

/// The assembly text (or error) that compiling a source text produces:
/// lexing, then parsing, then code generation, each stage all-or-nothing.
pub open spec fn spec_compile(src: Seq<char>) -> Result<Seq<char>, CompileError> {
    match spec_lex(src) {
        Ok(tokens) => match spec_parse(tokens) {
            Ok(e) => Ok(spec_generate(e)),
            Err(pe) => Err(CompileError::Parse(pe)),
        },
        Err(le) => Err(CompileError::Lex(le)),
    }
}

/// Runs the whole pipeline on a source text.
pub fn compile(source: &str) -> (r: Result<String, CompileError>)
    ensures
        match spec_compile(source@) {
            Ok(text) => r matches Ok(s) && s@ == text,
            Err(e) => r == Err::<String, CompileError>(e),
        },
{
    match lex(source) {
        Err(le) => Err(CompileError::Lex(le)),
        Ok(tokens) => {
            let ghost models = token_models(tokens@);
            match parse(tokens) {
                Err(pe) => Err(CompileError::Parse(pe)),
                Ok(ast) => {
                    proof {
                        let e = spec_parse(models)->Ok_0;
                        assert(ast_for(ast, e));
                        assert(ast.program.functions@[0].body@[0] == Statement::Return(e));
                        assert(ast_expression(ast) == e);
                    }
                    Ok(generate(ast))
                },
            }
        },
    }
}

/// Law: a source text that lexes and parses compiles to assembly whose
/// instructions, executed symbolically from any start state, leave in `w0`
/// exactly the parsed expression's value — the operators applied
/// right-to-left to the literal, modulo the register's 32-bit width.
pub proof fn lemma_compiled_program_computes_expression(src: Seq<char>, st: MachineState)
    requires
        spec_lex(src) is Ok,
        spec_parse(spec_lex(src)->Ok_0) is Ok,
    ensures
        ({
            let e = spec_parse(spec_lex(src)->Ok_0)->Ok_0;
            &&& spec_compile(src) == Ok::<Seq<char>, CompileError>(spec_generate(e))
            &&& spec_run(spec_program_instrs(e), st).w0 == spec_eval(e)
        }),
{
    let e = spec_parse(spec_lex(src)->Ok_0)->Ok_0;
    crate::generate::lemma_program_evaluates(e, st);
}

/// Law (plain-form programs): the tokens of
/// `int main() { return <unary-ops> <literal> ; }` parse to exactly the
/// nested unary expression around the literal, and the instructions compiled
/// from that expression, executed symbolically from any start state, leave in
/// `w0` the operators applied right-to-left to the literal, modulo the
/// register's 32-bit width.
pub proof fn lemma_program_form_computes_ops(
    ops: Seq<crate::lexer::Operator>,
    lit: i64,
    st: MachineState,
)
    ensures
        spec_parse(crate::parser::program_form_tokens(ops, lit)) == Ok::<Expression, ParseError>(
            crate::parser::expr_from_ops(ops, lit),
        ),
        spec_run(
            spec_program_instrs(crate::parser::expr_from_ops(ops, lit)),
            st,
        ).w0 == crate::generate::spec_apply_ops(ops, lit as u32),
{
    crate::parser::lemma_parse_program_form(ops, lit);
    crate::generate::lemma_eval_expr_from_ops(ops, lit);
    crate::generate::lemma_program_evaluates(crate::parser::expr_from_ops(ops, lit), st);
}

/// Law: compilation is deterministic — the assembly text is a pure function
/// of the source text, so equal inputs give byte-identical outputs.
pub proof fn lemma_compile_deterministic(src1: Seq<char>, src2: Seq<char>)
    requires
        src1 == src2,
    ensures
        spec_compile(src1) == spec_compile(src2),
{
}

/// Whether position `i` holds a `return` keyword immediately followed by an
/// integer literal.
pub open spec fn return_literal_at(tokens: Seq<Token>, i: int) -> bool {
    &&& 0 <= i
    &&& i + 1 < tokens.len()
    &&& tokens[i]@ == TokenModel::Keyword(Keyword::Return)
    &&& tokens[i + 1]@ is IntLit
}

/// Helper function to extract the return value from tokens without parsing.
pub fn extract_return_value(tokens: Vec<Token>) -> (r: i64)
    requires
        tokens@.len() >= 1,
        exists|i: int| return_literal_at(tokens@, i),
    ensures
        exists|i: int|
            {
                &&& #[trigger] return_literal_at(tokens@, i)
                &&& tokens@[i + 1]@ == TokenModel::IntLit(r)
                &&& forall|j: int| 0 <= j < i ==> !return_literal_at(tokens@, j)
            },
{
    let mut i: usize = 0;
    while i < tokens.len() - 1
        invariant
            tokens@.len() >= 1,
            i <= tokens@.len() - 1,
            exists|m: int| return_literal_at(tokens@, m),
            forall|j: int| 0 <= j < i ==> !return_literal_at(tokens@, j),
        decreases tokens@.len() - i,
    {
        if let Token::Keyword(Keyword::Return) = &tokens[i] {
            if let Token::IntLit(lit) = &tokens[i + 1] {
                proof {
                    assert(return_literal_at(tokens@, i as int));
                }
                return *lit;
            }
        }
        proof {
            assert(!return_literal_at(tokens@, i as int));
        }
        i = i + 1;
    }
    proof {
        assert(false);
    }
    0
}

/// Helper function to extract the return value from an AST whose return
/// expression is a bare constant.
pub fn extract_return_value_from_ast(ast: AST) -> (r: i64)
    requires
        ast.program.functions@.len() >= 1,
        ast.program.functions@[0].body@.len() >= 1,
        ast.program.functions@[0].body@[0]->Return_0 is Const,
    ensures
        ast.program.functions@[0].body@[0]->Return_0 == Expression::Const(r),
{
    let return_statement = &ast.program.functions[0].body[0];
    match return_statement {
        Statement::Return(expression) => match expression {
            Expression::Const(lit) => *lit,
            Expression::UnOp(_, _) => {
                proof {
                    assert(false);
                }
                0
            },
        },
    }
}

} // verus!
