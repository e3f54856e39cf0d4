//! Syntactic analysis: recursive descent over a token cursor, producing the
//! abstract syntax tree of the one-function, one-statement grammar
//! `Program -> "int" "main" "(" ")" "{" "return" Expression ";" "}"` with
//! `Expression -> IntegerLiteral | UnaryOperator Expression`.

use crate::lexer;
use crate::lexer::{token_models, Keyword, Operator, Token, TokenModel};
use vstd::prelude::*;

verus! {

/// A fatal parse error: either a token that does not fit the grammar at its
/// position, or tokens running out in the middle of a rule.
#[derive(Debug, Clone, Copy, PartialEq, Eq)]
pub enum ParseError {
    UnexpectedToken,
    UnexpectedEndOfInput,
}

/// Abstract Syntax Tree (AST) types.
#[derive(Debug, PartialEq, Eq)]
pub struct AST {
    pub program: Program,
}

#[derive(Debug, PartialEq, Eq)]
pub struct Program {
    pub functions: Vec<Function>,
}

#[derive(Debug, PartialEq, Eq)]
pub struct Function {
    pub name: String,
    pub body: Vec<Statement>,
}

#[derive(Debug, PartialEq, Eq)]
pub enum Statement {
    Return(Expression),
}

#[derive(Debug, PartialEq, Eq)]
pub enum Expression {
    Const(i64),
    UnOp(Operator, Box<Expression>),
}

/// The kinds of token the grammar can demand at a position.
#[derive(Debug, Clone, Copy, PartialEq, Eq)]
pub enum Expected {
    KeywordInt,
    KeywordReturn,
    MainIdent,
    OpenParanthesis,
    CloseParanthesis,
    OpenBrace,
    CloseBrace,
    Semicolon,
}

/// Which tokens satisfy each demand.
pub open spec fn token_matches(expected: Expected, t: TokenModel) -> bool {
    match expected {
        Expected::KeywordInt => t == TokenModel::Keyword(Keyword::Int),
        Expected::KeywordReturn => t == TokenModel::Keyword(Keyword::Return),
        Expected::MainIdent => t matches TokenModel::Ident(name) && name == "main"@,
        Expected::OpenParanthesis => t == TokenModel::Punctuation(
            lexer::Punctuation::OpenParanthesis,
        ),
        Expected::CloseParanthesis => t == TokenModel::Punctuation(
            lexer::Punctuation::CloseParanthesis,
        ),
        Expected::OpenBrace => t == TokenModel::Punctuation(lexer::Punctuation::OpenBrace),
        Expected::CloseBrace => t == TokenModel::Punctuation(lexer::Punctuation::CloseBrace),
        Expected::Semicolon => t == TokenModel::Punctuation(lexer::Punctuation::Semicolon),
    }
}

/// What consuming one demanded token does: the token and the next position on
/// a match, the error otherwise.
pub open spec fn spec_expect(ts: Seq<TokenModel>, i: int, expected: Expected) -> Result<
    (TokenModel, int),
    ParseError,
> {
    if i >= ts.len() {
        Err(ParseError::UnexpectedEndOfInput)
    } else if token_matches(expected, ts[i]) {
        Ok((ts[i], i + 1))
    } else {
        Err(ParseError::UnexpectedToken)
    }
}

/// The expression parsed from position `i`: an integer literal, or a unary
/// operator applied to the expression after it (right recursion).
pub open spec fn spec_parse_expression(ts: Seq<TokenModel>, i: int) -> Result<
    (Expression, int),
    ParseError,
>
    decreases ts.len() - i,
{
    if i < 0 || i >= ts.len() {
        Err(ParseError::UnexpectedEndOfInput)
    } else {
        match ts[i] {
            TokenModel::IntLit(v) => Ok((Expression::Const(v), i + 1)),
            TokenModel::Operator(op) => match spec_parse_expression(ts, i + 1) {
                Ok((e, j)) => Ok((Expression::UnOp(op, Box::new(e)), j)),
                Err(pe) => Err(pe),
            },
            _ => Err(ParseError::UnexpectedToken),
        }
    }
}

/// The statement parsed from position `i`: `"return" Expression ";"`.
pub open spec fn spec_parse_statement(ts: Seq<TokenModel>, i: int) -> Result<
    (Expression, int),
    ParseError,
> {
    match spec_expect(ts, i, Expected::KeywordReturn) {
        Ok((_, i1)) => match spec_parse_expression(ts, i1) {
            Ok((e, i2)) => match spec_expect(ts, i2, Expected::Semicolon) {
                Ok((_, i3)) => Ok((e, i3)),
                Err(pe) => Err(pe),
            },
            Err(pe) => Err(pe),
        },
        Err(pe) => Err(pe),
    }
}

/// The function parsed from position `i`:
/// `"int" "main" "(" ")" "{" Statement "}"`.
pub open spec fn spec_parse_function(ts: Seq<TokenModel>, i: int) -> Result<
    (Expression, int),
    ParseError,
> {
    match spec_expect(ts, i, Expected::KeywordInt) {
        Ok((_, i1)) => match spec_expect(ts, i1, Expected::MainIdent) {
            Ok((_, i2)) => match spec_expect(ts, i2, Expected::OpenParanthesis) {
                Ok((_, i3)) => match spec_expect(ts, i3, Expected::CloseParanthesis) {
                    Ok((_, i4)) => match spec_expect(ts, i4, Expected::OpenBrace) {
                        Ok((_, i5)) => match spec_parse_statement(ts, i5) {
                            Ok((e, i6)) => match spec_expect(ts, i6, Expected::CloseBrace) {
                                Ok((_, i7)) => Ok((e, i7)),
                                Err(pe) => Err(pe),
                            },
                            Err(pe) => Err(pe),
                        },
                        Err(pe) => Err(pe),
                    },
                    Err(pe) => Err(pe),
                },
                Err(pe) => Err(pe),
            },
            Err(pe) => Err(pe),
        },
        Err(pe) => Err(pe),
    }
}

/// The whole parse: one function, starting at the first token; tokens after
/// the function's closing brace are ignored.  The result is fully described by
/// the return expression, since everything else about the tree is fixed.
pub open spec fn spec_parse(ts: Seq<TokenModel>) -> Result<Expression, ParseError> {
    match spec_parse_function(ts, 0) {
        Ok((e, _)) => Ok(e),
        Err(pe) => Err(pe),
    }
}

/// The expression `op1 (op2 (... (opN lit)))`: the operators of `ops` wrapped
/// around the literal, outermost first.
pub open spec fn expr_from_ops(ops: Seq<Operator>, lit: i64) -> Expression
    decreases ops.len(),
{
    if ops.len() == 0 {
        Expression::Const(lit)
    } else {
        Expression::UnOp(ops[0], Box::new(expr_from_ops(ops.drop_first(), lit)))
    }
}

/// The token sequence of a program of the plain form
/// `int main() { return <unary-ops> <literal> ; }`.
pub open spec fn program_form_tokens(ops: Seq<Operator>, lit: i64) -> Seq<TokenModel> {
    seq![
        TokenModel::Keyword(Keyword::Int),
        TokenModel::Ident("main"@),
        TokenModel::Punctuation(lexer::Punctuation::OpenParanthesis),
        TokenModel::Punctuation(lexer::Punctuation::CloseParanthesis),
        TokenModel::Punctuation(lexer::Punctuation::OpenBrace),
        TokenModel::Keyword(Keyword::Return),
    ] + ops.map_values(|op: Operator| TokenModel::Operator(op)) + seq![
        TokenModel::IntLit(lit),
        TokenModel::Punctuation(lexer::Punctuation::Semicolon),
        TokenModel::Punctuation(lexer::Punctuation::CloseBrace),
    ]
}

/// A run of operator tokens followed by an integer literal parses to exactly
/// the nested unary expression around the literal.
proof fn lemma_parse_expression_ops(ts: Seq<TokenModel>, i: int, ops: Seq<Operator>, lit: i64)
    requires
        0 <= i,
        i + ops.len() + 1 <= ts.len(),
        forall|m: int| 0 <= m < ops.len() ==> ts[i + m] == TokenModel::Operator(#[trigger] ops[m]),
        ts[i + ops.len()] == TokenModel::IntLit(lit),
    ensures
        spec_parse_expression(ts, i) == Ok::<(Expression, int), ParseError>(
            (expr_from_ops(ops, lit), i + ops.len() + 1),
        ),
    decreases ops.len(),
{
    if ops.len() == 0 {
        assert(ts[i] == TokenModel::IntLit(lit));
    } else {
        assert(ts[i] == TokenModel::Operator(ops[0]));
        let rest = ops.drop_first();
        assert forall|m: int| 0 <= m < rest.len() implies ts[i + 1 + m] == TokenModel::Operator(
            #[trigger] rest[m],
        ) by {
            assert(rest[m] == ops[m + 1]);
            assert(ts[i + (m + 1)] == TokenModel::Operator(ops[m + 1]));
        }
        lemma_parse_expression_ops(ts, i + 1, rest, lit);
        assert(expr_from_ops(ops, lit) == Expression::UnOp(
            ops[0],
            Box::new(expr_from_ops(rest, lit)),
        ));
    }
}

/// Law: parsing the tokens of a plain-form program succeeds and yields exactly
/// the nested unary expression around the literal.
pub proof fn lemma_parse_program_form(ops: Seq<Operator>, lit: i64)
    ensures
        spec_parse(program_form_tokens(ops, lit)) == Ok::<Expression, ParseError>(
            expr_from_ops(ops, lit),
        ),
{
    let ts = program_form_tokens(ops, lit);
    let opts = ops.map_values(|op: Operator| TokenModel::Operator(op));
    assert(ts.len() == 9 + ops.len());
    assert(token_matches(Expected::KeywordInt, ts[0]));
    assert(token_matches(Expected::MainIdent, ts[1]));
    assert(token_matches(Expected::OpenParanthesis, ts[2]));
    assert(token_matches(Expected::CloseParanthesis, ts[3]));
    assert(token_matches(Expected::OpenBrace, ts[4]));
    assert(token_matches(Expected::KeywordReturn, ts[5]));
    assert forall|m: int| 0 <= m < ops.len() implies ts[6 + m] == TokenModel::Operator(
        #[trigger] ops[m],
    ) by {
        assert(opts[m] == TokenModel::Operator(ops[m]));
    }
    assert(ts[6 + ops.len() as int] == TokenModel::IntLit(lit));
    lemma_parse_expression_ops(ts, 6, ops, lit);
    assert(token_matches(Expected::Semicolon, ts[7 + ops.len() as int]));
    assert(token_matches(Expected::CloseBrace, ts[8 + ops.len() as int]));
}

/// The one shape of tree that a successful parse builds around expression `e`.
pub open spec fn ast_for(ast: AST, e: Expression) -> bool {
    &&& ast.program.functions@.len() == 1
    &&& ast.program.functions@[0].name@ == "main"@
    &&& ast.program.functions@[0].body@ == seq![Statement::Return(e)]
}

/// TokenStore is internal implementation.
/// It is used to store a slice of tokens and a position.
/// The position indicates where in the slice the parse stands.
struct TokenStore<'a> {
    pos: usize,
    tokens: &'a [Token],
}

impl<'a> TokenStore<'a> {
    spec fn wf(&self) -> bool {
        self.pos <= self.tokens@.len()
    }

    spec fn models(&self) -> Seq<TokenModel> {
        token_models(self.tokens@)
    }

    /// Creates a new TokenStore from a slice of tokens.
    fn new(tokens: &'a [Token]) -> (r: Self)
        ensures
            r.wf(),
            r.pos == 0,
            r.tokens == tokens,
    {
        Self { pos: 0, tokens }
    }

    /// Returns the current token.
    fn peek(&self) -> (r: Option<&Token>)
        requires
            self.wf(),
        ensures
            match r {
                Some(t) => self.pos < self.tokens@.len() && *t == self.tokens@[self.pos as int],
                None => self.pos >= self.tokens@.len(),
            },
    {
        if self.pos < self.tokens.len() {
            Some(&self.tokens[self.pos])
        } else {
            None
        }
    }

    /// Returns the current token and moves the position to the next.
    fn next(&mut self) -> (r: Option<Token>)
        requires
            old(self).wf(),
        ensures
            final(self).wf(),
            final(self).tokens == old(self).tokens,
            old(self).pos < old(self).tokens@.len() ==> {
                &&& r matches Some(t) && t@ == old(self).models()[old(self).pos as int]
                &&& final(self).pos == old(self).pos + 1
            },
            old(self).pos >= old(self).tokens@.len() ==> r is None && final(self).pos == old(
                self,
            ).pos,
    {
        if self.pos < self.tokens.len() {
            let token = self.tokens[self.pos].clone();
            self.pos = self.pos + 1;
            Some(token)
        } else {
            None
        }
    }

    /// Checks that the current token matches the expected kind and moves the
    /// position to the next.
    fn expect(&mut self, expected: Expected) -> (r: Result<Token, ParseError>)
        requires
            old(self).wf(),
        ensures
            final(self).wf(),
            final(self).tokens == old(self).tokens,
            match spec_expect(old(self).models(), old(self).pos as int, expected) {
                Ok((t, j)) => r matches Ok(tok) && tok@ == t && final(self).pos == j,
                Err(pe) => {
                    // A mismatched token is still consumed; at end of input
                    // the cursor stays put.
                    &&& r == Err::<Token, ParseError>(pe)
                    &&& old(self).pos < old(self).tokens@.len() ==> final(self).pos == old(
                        self,
                    ).pos + 1
                    &&& old(self).pos >= old(self).tokens@.len() ==> final(self).pos == old(
                        self,
                    ).pos
                },
            },
    {
        match self.next() {
            Some(token) => {
                if token_satisfies(expected, &token) {
                    Ok(token)
                } else {
                    Err(ParseError::UnexpectedToken)
                }
            },
            None => Err(ParseError::UnexpectedEndOfInput),
        }
    }
}

/// Whether a token satisfies a demand of the grammar.
fn token_satisfies(expected: Expected, t: &Token) -> (r: bool)
    ensures
        r == token_matches(expected, t@),
{
    match (expected, t) {
        (Expected::KeywordInt, Token::Keyword(Keyword::Int)) => true,
        (Expected::KeywordReturn, Token::Keyword(Keyword::Return)) => true,
        (Expected::MainIdent, Token::Ident(name)) => lexer::str_eq_chars(name.as_str(), "main"),
        (Expected::OpenParanthesis, Token::Punctuation(lexer::Punctuation::OpenParanthesis)) => {
            true
        },
        (Expected::CloseParanthesis, Token::Punctuation(lexer::Punctuation::CloseParanthesis)) => {
            true
        },
        (Expected::OpenBrace, Token::Punctuation(lexer::Punctuation::OpenBrace)) => true,
        (Expected::CloseBrace, Token::Punctuation(lexer::Punctuation::CloseBrace)) => true,
        (Expected::Semicolon, Token::Punctuation(lexer::Punctuation::Semicolon)) => true,
        _ => false,
    }
}

/// Main parser function.
pub fn parse(tokens: Vec<Token>) -> (r: Result<AST, ParseError>)
    ensures
        match spec_parse(token_models(tokens@)) {
            Ok(e) => r matches Ok(ast) && ast_for(ast, e),
            Err(pe) => r == Err::<AST, ParseError>(pe),
        },
{
    let mut ts = TokenStore::new(tokens.as_slice());

    match parse_program(&mut ts) {
        Ok(program) => Ok(AST { program }),
        Err(pe) => Err(pe),
    }
}

// Helper functions

fn parse_program(ts: &mut TokenStore) -> (r: Result<Program, ParseError>)
    requires
        old(ts).wf(),
        old(ts).pos == 0,
    ensures
        final(ts).wf(),
        match spec_parse(old(ts).models()) {
            Ok(e) => r matches Ok(p) && {
                &&& p.functions@.len() == 1
                &&& p.functions@[0].name@ == "main"@
                &&& p.functions@[0].body@ == seq![Statement::Return(e)]
            },
            Err(pe) => r == Err::<Program, ParseError>(pe),
        },
{
    match parse_function(ts) {
        Ok(function) => {
            let mut functions: Vec<Function> = Vec::new();
            functions.push(function);
            Ok(Program { functions })
        },
        Err(pe) => Err(pe),
    }
}

fn parse_function(ts: &mut TokenStore) -> (r: Result<Function, ParseError>)
    requires
        old(ts).wf(),
    ensures
        final(ts).wf(),
        final(ts).tokens == old(ts).tokens,
        match spec_parse_function(old(ts).models(), old(ts).pos as int) {
            Ok((e, j)) => r matches Ok(f) && {
                &&& f.name@ == "main"@
                &&& f.body@ == seq![Statement::Return(e)]
                &&& final(ts).pos == j
            },
            Err(pe) => r == Err::<Function, ParseError>(pe),
        },
{
    // Expect the int keyword
    match ts.expect(Expected::KeywordInt) {
        Ok(_) => (),
        Err(pe) => {
            return Err(pe);
        },
    }

    // Expect the main identifier
    match ts.expect(Expected::MainIdent) {
        Ok(_) => (),
        Err(pe) => {
            return Err(pe);
        },
    }

    // Expect an open paranthesis
    match ts.expect(Expected::OpenParanthesis) {
        Ok(_) => (),
        Err(pe) => {
            return Err(pe);
        },
    }

    // Expect a close paranthesis
    match ts.expect(Expected::CloseParanthesis) {
        Ok(_) => (),
        Err(pe) => {
            return Err(pe);
        },
    }

    // Expect an open brace
    match ts.expect(Expected::OpenBrace) {
        Ok(_) => (),
        Err(pe) => {
            return Err(pe);
        },
    }

    let body = match parse_statement(ts) {
        Ok(statement) => statement,
        Err(pe) => {
            return Err(pe);
        },
    };

    // Expect a close brace
    match ts.expect(Expected::CloseBrace) {
        Ok(_) => (),
        Err(pe) => {
            return Err(pe);
        },
    }

    let mut statements: Vec<Statement> = Vec::new();
    statements.push(body);
    Ok(Function { name: "main".to_owned(), body: statements })
}

fn parse_statement(ts: &mut TokenStore) -> (r: Result<Statement, ParseError>)
    requires
        old(ts).wf(),
    ensures
        final(ts).wf(),
        final(ts).tokens == old(ts).tokens,
        match spec_parse_statement(old(ts).models(), old(ts).pos as int) {
            Ok((e, j)) => r matches Ok(st) && st == Statement::Return(e) && final(ts).pos == j,
            Err(pe) => r == Err::<Statement, ParseError>(pe),
        },
{
    // Expect the return keyword
    match ts.expect(Expected::KeywordReturn) {
        Ok(_) => (),
        Err(pe) => {
            return Err(pe);
        },
    }

    let expression = match parse_expression(ts) {
        Ok(e) => e,
        Err(pe) => {
            return Err(pe);
        },
    };

    // Expect a semicolon
    match ts.expect(Expected::Semicolon) {
        Ok(_) => (),
        Err(pe) => {
            return Err(pe);
        },
    }

    Ok(Statement::Return(expression))
}

fn parse_expression(ts: &mut TokenStore) -> (r: Result<Expression, ParseError>)
    requires
        old(ts).wf(),
    ensures
        final(ts).wf(),
        final(ts).tokens == old(ts).tokens,
        match spec_parse_expression(old(ts).models(), old(ts).pos as int) {
            Ok((e, j)) => r matches Ok(expr) && expr == e && final(ts).pos == j,
            Err(pe) => r == Err::<Expression, ParseError>(pe),
        },
    decreases old(ts).tokens@.len() - old(ts).pos,
{
    match ts.next() {
        None => Err(ParseError::UnexpectedEndOfInput),
        Some(token) => match token {
            Token::IntLit(lit) => Ok(Expression::Const(lit)),
            Token::Operator(op) => match parse_expression(ts) {
                Ok(inner) => Ok(Expression::UnOp(op, Box::new(inner))),
                Err(pe) => Err(pe),
            },
            _ => Err(ParseError::UnexpectedToken),
        },
    }
}

} // verus!
