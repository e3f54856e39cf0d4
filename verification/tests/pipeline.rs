use rustcc::compile;
use rustcc::generate::generate;
use rustcc::lexer::{lex, Keyword, LexError, Operator, Punctuation, Token};
use rustcc::parser::{parse, Expression, Function, ParseError, Program, Statement, AST};
use rustcc::{extract_return_value, extract_return_value_from_ast, CompileError};

const PROLOGUE: &str = ".globl _main\n.p2align 2\n_main:\n";

fn ast_returning(e: Expression) -> AST {
    AST {
        program: Program {
            functions: vec![Function {
                name: "main".to_string(),
                body: vec![Statement::Return(e)],
            }],
        },
    }
}

#[test]
fn lex_end_to_end_tokens() {
    let tokens = lex("int main() { return 2; }").unwrap();
    assert_eq!(
        tokens,
        vec![
            Token::Keyword(Keyword::Int),
            Token::Ident("main".to_string()),
            Token::Punctuation(Punctuation::OpenParanthesis),
            Token::Punctuation(Punctuation::CloseParanthesis),
            Token::Punctuation(Punctuation::OpenBrace),
            Token::Keyword(Keyword::Return),
            Token::IntLit(2),
            Token::Punctuation(Punctuation::Semicolon),
            Token::Punctuation(Punctuation::CloseBrace),
        ]
    );
}

#[test]
fn lex_operators() {
    let tokens = lex("!-~5").unwrap();
    assert_eq!(
        tokens,
        vec![
            Token::Operator(Operator::LogicalNot),
            Token::Operator(Operator::Negation),
            Token::Operator(Operator::BitwiseNot),
            Token::IntLit(5),
        ]
    );
}

#[test]
fn lex_keywords_need_exact_match() {
    let tokens = lex("int returns return int0 _a1").unwrap();
    assert_eq!(
        tokens,
        vec![
            Token::Keyword(Keyword::Int),
            Token::Ident("returns".to_string()),
            Token::Keyword(Keyword::Return),
            Token::Ident("int0".to_string()),
            Token::Ident("_a1".to_string()),
        ]
    );
}

#[test]
fn lex_unrecognized_character_fails() {
    assert_eq!(
        lex("int main() { return 5 @ ; }"),
        Err(LexError::UnrecognizedCharacter('@'))
    );
    // The failure happens before any parsing is attempted.
    assert_eq!(
        compile("int main() { return 5 @ ; }"),
        Err(CompileError::Lex(LexError::UnrecognizedCharacter('@')))
    );
}

#[test]
fn lex_integer_literal_overflow() {
    assert_eq!(
        lex("9223372036854775808"),
        Err(LexError::IntegerLiteralOverflow)
    );
    assert_eq!(
        lex("9223372036854775807").unwrap(),
        vec![Token::IntLit(i64::MAX)]
    );
}

#[test]
fn parse_end_to_end_ast() {
    let tokens = lex("int main() { return 2; }").unwrap();
    let ast = parse(tokens).unwrap();
    assert_eq!(ast, ast_returning(Expression::Const(2)));
}

#[test]
fn parse_nested_unary_ast() {
    let tokens = lex("int main() { return !-0; }").unwrap();
    let ast = parse(tokens).unwrap();
    assert_eq!(
        ast,
        ast_returning(Expression::UnOp(
            Operator::LogicalNot,
            Box::new(Expression::UnOp(
                Operator::Negation,
                Box::new(Expression::Const(0))
            ))
        ))
    );
}

#[test]
fn parse_missing_expression_fails() {
    let tokens = lex("int main() { return ; }").unwrap();
    assert_eq!(parse(tokens), Err(ParseError::UnexpectedToken));
}

#[test]
fn parse_truncated_input_fails() {
    let tokens = lex("int main() { return 2;").unwrap();
    assert_eq!(parse(tokens), Err(ParseError::UnexpectedEndOfInput));
}

#[test]
fn parse_wrong_function_name_fails() {
    let tokens = lex("int start() { return 2; }").unwrap();
    assert_eq!(parse(tokens), Err(ParseError::UnexpectedToken));
}

#[test]
fn generate_constant_return() {
    let asm_text = compile("int main() { return 2; }").unwrap();
    assert_eq!(
        asm_text,
        format!("{}    mov w0, #2\n    ret\n", PROLOGUE)
    );
}

#[test]
fn generate_nested_unary() {
    // negate 0 -> 0, logical not 0 -> 1: the program leaves 1 in w0.
    let asm_text = compile("int main() { return !-0; }").unwrap();
    assert_eq!(
        asm_text,
        format!(
            "{}    mov w0, #0\n    neg w0, w0\n    cmp w0, #0\n    cset w0, eq\n    ret\n",
            PROLOGUE
        )
    );
}

#[test]
fn generate_boundary_operators() {
    // !0 booleanizes to 1; !5 to 0; ~~5 complements twice.
    let not_zero = compile("int main() { return !0; }").unwrap();
    assert_eq!(
        not_zero,
        format!(
            "{}    mov w0, #0\n    cmp w0, #0\n    cset w0, eq\n    ret\n",
            PROLOGUE
        )
    );
    let not_five = compile("int main() { return !5; }").unwrap();
    assert_eq!(
        not_five,
        format!(
            "{}    mov w0, #5\n    cmp w0, #0\n    cset w0, eq\n    ret\n",
            PROLOGUE
        )
    );
    let complement_twice = compile("int main() { return ~~5; }").unwrap();
    assert_eq!(
        complement_twice,
        format!(
            "{}    mov w0, #5\n    mvn w0, w0\n    mvn w0, w0\n    ret\n",
            PROLOGUE
        )
    );
    let negate_zero = compile("int main() { return -0; }").unwrap();
    assert_eq!(
        negate_zero,
        format!("{}    mov w0, #0\n    neg w0, w0\n    ret\n", PROLOGUE)
    );
}

#[test]
fn generate_negative_constants() {
    let asm_text = generate(ast_returning(Expression::Const(-5)));
    assert_eq!(
        asm_text,
        format!("{}    mov w0, #-5\n    ret\n", PROLOGUE)
    );
    let asm_min = generate(ast_returning(Expression::Const(i64::MIN)));
    assert_eq!(
        asm_min,
        format!("{}    mov w0, #-9223372036854775808\n    ret\n", PROLOGUE)
    );
}

#[test]
fn compile_is_deterministic() {
    let source = "int main() { return !~-41; }";
    let first = compile(source).unwrap();
    let second = compile(source).unwrap();
    assert_eq!(first, second);
}

#[test]
fn compile_skips_whitespace() {
    let asm_text = compile("int  main \t( ) {\r\n return 7 ; }").unwrap();
    assert_eq!(
        asm_text,
        format!("{}    mov w0, #7\n    ret\n", PROLOGUE)
    );
}

#[test]
fn empty_source_fails_parsing() {
    assert_eq!(lex("").unwrap(), vec![]);
    assert_eq!(
        compile(""),
        Err(CompileError::Parse(ParseError::UnexpectedEndOfInput))
    );
}

#[test]
fn trailing_tokens_are_ignored() {
    let asm_text = compile("int main() { return 3; } }").unwrap();
    assert_eq!(
        asm_text,
        format!("{}    mov w0, #3\n    ret\n", PROLOGUE)
    );
}

#[test]
fn extract_return_value_from_tokens() {
    let tokens = lex("int main() { return 42; }").unwrap();
    assert_eq!(extract_return_value(tokens), 42);
}

#[test]
fn extract_return_value_from_parsed_ast() {
    let tokens = lex("int main() { return 2; }").unwrap();
    let ast = parse(tokens).unwrap();
    assert_eq!(extract_return_value_from_ast(ast), 2);
}
