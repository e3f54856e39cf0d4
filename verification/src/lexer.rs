//! Lexical analysis: a single left-to-right scan turning source text into a
//! sequence of tokens, with maximal-munch runs for identifiers and integer
//! literals.

use vstd::prelude::*;
use vstd::string::StrSliceExecFns;

verus! {

/// Keywords: `int`, `return`.
#[derive(Debug, Clone, Copy, PartialEq, Eq)]
pub enum Keyword {
    Int,
    Return,
}

/// Punctuation: `{`, `}`, `(`, `)`, `;`.
#[derive(Debug, Clone, Copy, PartialEq, Eq)]
pub enum Punctuation {
    OpenBrace,
    CloseBrace,
    OpenParanthesis,
    CloseParanthesis,
    Semicolon,
}

/// Unary operators: `-`, `~`, `!`.
#[derive(Debug, Clone, Copy, PartialEq, Eq)]
pub enum Operator {
    Negation,
    BitwiseNot,
    LogicalNot,
}

/// Token types.
#[derive(Debug, PartialEq, Eq)]
pub enum Token {
    Keyword(Keyword),
    Ident(String),
    IntLit(i64),
    Punctuation(Punctuation),
    Operator(Operator),
}

/// The mathematical model of a token: an `Ident` is its character sequence.
pub ghost enum TokenModel {
    Keyword(Keyword),
    Ident(Seq<char>),
    IntLit(i64),
    Punctuation(Punctuation),
    Operator(Operator),
}

impl View for Token {
    type V = TokenModel;

    open spec fn view(&self) -> TokenModel {
        match self {
            Token::Keyword(k) => TokenModel::Keyword(*k),
            Token::Ident(name) => TokenModel::Ident(name@),
            Token::IntLit(v) => TokenModel::IntLit(*v),
            Token::Punctuation(p) => TokenModel::Punctuation(*p),
            Token::Operator(op) => TokenModel::Operator(*op),
        }
    }
}

impl Clone for Token {
    fn clone(&self) -> (r: Self)
        ensures
            r@ == self@,
    {
        match self {
            Token::Keyword(k) => Token::Keyword(*k),
            Token::Ident(name) => Token::Ident(name.clone()),
            Token::IntLit(v) => Token::IntLit(*v),
            Token::Punctuation(p) => Token::Punctuation(*p),
            Token::Operator(op) => Token::Operator(*op),
        }
    }
}

/// A fatal lexical error: either a byte outside the language's alphabet, or an
/// integer literal that does not fit in a 64-bit signed integer.
#[derive(Debug, Clone, Copy, PartialEq, Eq)]
pub enum LexError {
    UnrecognizedCharacter(char),
    IntegerLiteralOverflow,
}

/// The token models of a token sequence.
pub open spec fn token_models(tokens: Seq<Token>) -> Seq<TokenModel> {
    tokens.map_values(|t: Token| t@)
}

// Character classes, stated over code points so that they also decide the
// non-ASCII characters (none of which belongs to any class).

pub open spec fn is_whitespace_char(c: char) -> bool {
    c as u32 == 32 || c as u32 == 9 || c as u32 == 10 || c as u32 == 13
}

pub open spec fn is_punctuation_char(c: char) -> bool {
    c as u32 == 123 || c as u32 == 125 || c as u32 == 40 || c as u32 == 41 || c as u32 == 59
}

pub open spec fn is_operator_char(c: char) -> bool {
    c as u32 == 45 || c as u32 == 126 || c as u32 == 33
}

pub open spec fn is_alpha_or_underscore_char(c: char) -> bool {
    (97 <= c as u32 && c as u32 <= 122) || (65 <= c as u32 && c as u32 <= 90) || c as u32 == 95
}

pub open spec fn is_digit_char(c: char) -> bool {
    48 <= c as u32 && c as u32 <= 57
}

pub open spec fn is_alnum_or_underscore_char(c: char) -> bool {
    is_alpha_or_underscore_char(c) || is_digit_char(c)
}

pub open spec fn punctuation_for_char(c: char) -> Punctuation {
    if c as u32 == 123 {
        Punctuation::OpenBrace
    } else if c as u32 == 125 {
        Punctuation::CloseBrace
    } else if c as u32 == 40 {
        Punctuation::OpenParanthesis
    } else if c as u32 == 41 {
        Punctuation::CloseParanthesis
    } else {
        Punctuation::Semicolon
    }
}

pub open spec fn operator_for_char(c: char) -> Operator {
    if c as u32 == 45 {
        Operator::Negation
    } else if c as u32 == 126 {
        Operator::BitwiseNot
    } else {
        Operator::LogicalNot
    }
}

pub open spec fn digit_value(c: char) -> int {
    c as u32 - 48
}

// Executable character-class helpers, each a byte predicate.

pub fn is_whitespace(c: u8) -> (r: bool)
    ensures
        r == is_whitespace_char(c as char),
{
    c == 32 || c == 9 || c == 10 || c == 13
}

pub fn is_digit(b: u8) -> (r: bool)
    ensures
        r == is_digit_char(b as char),
{
    b >= 48 && b <= 57
}

pub fn is_alpha_or_underscore(b: u8) -> (r: bool)
    ensures
        r == is_alpha_or_underscore_char(b as char),
{
    (b >= 97 && b <= 122) || (b >= 65 && b <= 90) || b == 95
}

pub fn is_alnum_or_underscore(b: u8) -> (r: bool)
    ensures
        r == is_alnum_or_underscore_char(b as char),
{
    is_alpha_or_underscore(b) || is_digit(b)
}

pub fn punctuation_token_from_byte(b: u8) -> (r: Token)
    requires
        is_punctuation_char(b as char),
    ensures
        r@ == TokenModel::Punctuation(punctuation_for_char(b as char)),
{
    match b {
        123 => Token::Punctuation(Punctuation::OpenBrace),
        125 => Token::Punctuation(Punctuation::CloseBrace),
        40 => Token::Punctuation(Punctuation::OpenParanthesis),
        41 => Token::Punctuation(Punctuation::CloseParanthesis),
        _ => Token::Punctuation(Punctuation::Semicolon),
    }
}

// The maximal-munch model: where an identifier or digit run that starts at
// position `i` ends.

/// First position at or after `i` that does not continue an identifier.
pub open spec fn ident_end(s: Seq<char>, i: int) -> int
    decreases s.len() - i,
{
    if 0 <= i < s.len() && is_alnum_or_underscore_char(s[i]) {
        ident_end(s, i + 1)
    } else {
        i
    }
}

/// First position at or after `i` that is not a decimal digit.
pub open spec fn digits_end(s: Seq<char>, i: int) -> int
    decreases s.len() - i,
{
    if 0 <= i < s.len() && is_digit_char(s[i]) {
        digits_end(s, i + 1)
    } else {
        i
    }
}

/// The value of the decimal digit run `s[i..j]`, most significant digit first.
pub open spec fn digits_val(s: Seq<char>, i: int, j: int) -> int
    decreases j - i,
{
    if i >= j {
        0
    } else {
        digits_val(s, i, j - 1) * 10 + digit_value(s[j - 1])
    }
}

pub proof fn lemma_ident_end_bounds(s: Seq<char>, i: int)
    requires
        0 <= i <= s.len(),
    ensures
        i <= ident_end(s, i) <= s.len(),
    decreases s.len() - i,
{
    if i < s.len() && is_alnum_or_underscore_char(s[i]) {
        lemma_ident_end_bounds(s, i + 1);
    }
}

pub proof fn lemma_digits_end_bounds(s: Seq<char>, i: int)
    requires
        0 <= i <= s.len(),
    ensures
        i <= digits_end(s, i) <= s.len(),
        forall|m: int| i <= m < digits_end(s, i) ==> #[trigger] is_digit_char(s[m]),
    decreases s.len() - i,
{
    if i < s.len() && is_digit_char(s[i]) {
        lemma_digits_end_bounds(s, i + 1);
    }
}

/// A digit run's value is never negative.
pub proof fn lemma_digits_val_nonneg(s: Seq<char>, st: int, j: int)
    requires
        0 <= st <= j <= s.len(),
        forall|m: int| st <= m < j ==> #[trigger] is_digit_char(s[m]),
    ensures
        0 <= digits_val(s, st, j),
    decreases j - st,
{
    if st < j {
        lemma_digits_val_nonneg(s, st, j - 1);
        assert(is_digit_char(s[j - 1]));
    }
}

/// A digit run's value never shrinks as the run is extended to the right.
pub proof fn lemma_digits_val_grows(s: Seq<char>, st: int, j: int, k: int)
    requires
        0 <= st <= j <= k <= s.len(),
        forall|m: int| st <= m < k ==> #[trigger] is_digit_char(s[m]),
    ensures
        0 <= digits_val(s, st, j) <= digits_val(s, st, k),
    decreases k - j,
{
    lemma_digits_val_nonneg(s, st, j);
    if j < k {
        lemma_digits_val_grows(s, st, j, k - 1);
        lemma_digits_val_nonneg(s, st, k - 1);
        assert(is_digit_char(s[k - 1]));
        assert(digits_val(s, st, k) == digits_val(s, st, k - 1) * 10 + digit_value(s[k - 1]));
    }
}

/// How a lexed identifier is classified: the two keywords by exact match,
/// anything else as a generic identifier.
pub open spec fn ident_token_model(name: Seq<char>) -> TokenModel {
    if name == "int"@ {
        TokenModel::Keyword(Keyword::Int)
    } else if name == "return"@ {
        TokenModel::Keyword(Keyword::Return)
    } else {
        TokenModel::Ident(name)
    }
}

/// Prepends a token to the result of lexing the rest of the input.
pub open spec fn lex_cons(
    t: TokenModel,
    rest: Result<Seq<TokenModel>, LexError>,
) -> Result<Seq<TokenModel>, LexError> {
    match rest {
        Ok(models) => Ok(seq![t] + models),
        Err(e) => Err(e),
    }
}

/// The token sequence (or lexical error) produced from position `i` onward:
/// whitespace is skipped; punctuation and operators are single-character
/// tokens; letter/underscore and digit runs are taken maximal-munch.
pub open spec fn spec_lex_from(s: Seq<char>, i: int) -> Result<Seq<TokenModel>, LexError>
    decreases s.len() - i,
    via spec_lex_from_decreases
{
    if i < 0 || i >= s.len() {
        Ok(Seq::empty())
    } else {
        let c = s[i];
        if is_whitespace_char(c) {
            spec_lex_from(s, i + 1)
        } else if is_punctuation_char(c) {
            lex_cons(TokenModel::Punctuation(punctuation_for_char(c)), spec_lex_from(s, i + 1))
        } else if is_operator_char(c) {
            lex_cons(TokenModel::Operator(operator_for_char(c)), spec_lex_from(s, i + 1))
        } else if is_alpha_or_underscore_char(c) {
            let j = ident_end(s, i + 1);
            lex_cons(ident_token_model(s.subrange(i, j)), spec_lex_from(s, j))
        } else if is_digit_char(c) {
            let j = digits_end(s, i + 1);
            let v = digits_val(s, i, j);
            if v <= 0x7fff_ffff_ffff_ffff {
                lex_cons(TokenModel::IntLit(v as i64), spec_lex_from(s, j))
            } else {
                Err(LexError::IntegerLiteralOverflow)
            }
        } else {
            Err(LexError::UnrecognizedCharacter(c))
        }
    }
}

#[via_fn]
proof fn spec_lex_from_decreases(s: Seq<char>, i: int) {
    if 0 <= i < s.len() {
        lemma_ident_end_bounds(s, i + 1);
        lemma_digits_end_bounds(s, i + 1);
    }
}

/// The token sequence (or lexical error) of a whole source text.
pub open spec fn spec_lex(s: Seq<char>) -> Result<Seq<TokenModel>, LexError> {
    spec_lex_from(s, 0)
}

/// Tokens already emitted, joined with the outcome of lexing the rest.
pub open spec fn lex_join(
    done: Seq<TokenModel>,
    rest: Result<Seq<TokenModel>, LexError>,
) -> Result<Seq<TokenModel>, LexError> {
    match rest {
        Ok(models) => Ok(done + models),
        Err(e) => Err(e),
    }
}

proof fn lemma_lex_join_cons(
    done: Seq<TokenModel>,
    t: TokenModel,
    rest: Result<Seq<TokenModel>, LexError>,
)
    ensures
        lex_join(done, lex_cons(t, rest)) == lex_join(done.push(t), rest),
{
    match rest {
        Ok(models) => {
            assert(done + (seq![t] + models) =~= done.push(t) + models);
        },
        Err(_) => {},
    }
}

proof fn lemma_token_models_push(tokens: Seq<Token>, t: Token)
    ensures
        token_models(tokens.push(t)) == token_models(tokens).push(t@),
{
    assert(token_models(tokens.push(t)) =~= token_models(tokens).push(t@));
}

/// Character-by-character string equality.
pub fn str_eq_chars(a: &str, b: &str) -> (r: bool)
    ensures
        r == (a@ == b@),
{
    let alen = a.unicode_len();
    let blen = b.unicode_len();
    if alen != blen {
        return false;
    }
    let mut i: usize = 0;
    while i < alen
        invariant
            i <= alen,
            alen == a@.len(),
            alen == b@.len(),
            forall|m: int| 0 <= m < i ==> a@[m] == b@[m],
        decreases alen - i,
    {
        let ca = a.get_char(i);
        let cb = b.get_char(i);
        if ca != cb {
            return false;
        }
        i = i + 1;
    }
    proof {
        assert(a@ =~= b@);
    }
    true
}

/// Scans forward from `start` over identifier characters and returns the end
/// of the run.
fn ident_run_end(file: &str, len: usize, start: usize) -> (end: usize)
    requires
        len == file@.len(),
        start <= len,
    ensures
        end == ident_end(file@, start as int),
        start <= end <= len,
{
    let mut k = start;
    loop
        invariant
            start <= k <= len,
            len == file@.len(),
            ident_end(file@, start as int) == ident_end(file@, k as int),
        ensures
            k == ident_end(file@, start as int),
            start <= k <= len,
        decreases len - k,
    {
        if k >= len {
            proof {
                assert(ident_end(file@, k as int) == k);
            }
            break ;
        }
        let c = file.get_char(k);
        let u = c as u32;
        let cont = u < 128 && is_alnum_or_underscore(u as u8);
        if !cont {
            proof {
                assert(!is_alnum_or_underscore_char(file@[k as int]));
                assert(ident_end(file@, k as int) == k);
            }
            break ;
        }
        k = k + 1;
    }
    k
}

/// Scans forward from `start` over decimal digits and returns the end of the
/// run.
fn digit_run_end(file: &str, len: usize, start: usize) -> (end: usize)
    requires
        len == file@.len(),
        start <= len,
    ensures
        end == digits_end(file@, start as int),
        start <= end <= len,
{
    let mut k = start;
    loop
        invariant
            start <= k <= len,
            len == file@.len(),
            digits_end(file@, start as int) == digits_end(file@, k as int),
        ensures
            k == digits_end(file@, start as int),
            start <= k <= len,
        decreases len - k,
    {
        if k >= len {
            proof {
                assert(digits_end(file@, k as int) == k);
            }
            break ;
        }
        let c = file.get_char(k);
        let u = c as u32;
        let cont = u < 128 && is_digit(u as u8);
        if !cont {
            proof {
                assert(!is_digit_char(file@[k as int]));
                assert(digits_end(file@, k as int) == k);
            }
            break ;
        }
        k = k + 1;
    }
    k
}

/// Main lexer function: one left-to-right scan of the source text.
#[verifier::loop_isolation(false)]
pub fn lex(file: &str) -> (r: Result<Vec<Token>, LexError>)
    ensures
        match spec_lex(file@) {
            Ok(models) => r matches Ok(tokens) && token_models(tokens@) == models,
            Err(e) => r == Err::<Vec<Token>, LexError>(e),
        },
{
    let ghost s = file@;
    let len = file.unicode_len();
    let mut tokens: Vec<Token> = Vec::new();
    let mut i: usize = 0;
    proof {
        assert(token_models(tokens@) =~= Seq::<TokenModel>::empty());
        match spec_lex_from(s, 0) {
            Ok(models) => {
                assert(Seq::<TokenModel>::empty() + models =~= models);
            },
            Err(_) => {},
        }
    }
    while i < len
        invariant
            i <= len,
            len == s.len(),
            s == file@,
            lex_join(token_models(tokens@), spec_lex_from(s, i as int)) == spec_lex(s),
        decreases len - i,
    {
        let c = file.get_char(i);
        let u = c as u32;
        if u >= 128 {
            return Err(LexError::UnrecognizedCharacter(c));
        }
        let b = u as u8;
        proof {
            assert(b as char == c);
        }
        if is_whitespace(b) {
            proof {
                assert(spec_lex_from(s, i as int) == spec_lex_from(s, i + 1));
            }
            i = i + 1;
        } else if b == 123 || b == 125 || b == 40 || b == 41 || b == 59 {
            let t = punctuation_token_from_byte(b);
            proof {
                assert(t@ == TokenModel::Punctuation(punctuation_for_char(c)));
                assert(spec_lex_from(s, i as int) == lex_cons(t@, spec_lex_from(s, i + 1)));
                lemma_lex_join_cons(token_models(tokens@), t@, spec_lex_from(s, i + 1));
                lemma_token_models_push(tokens@, t);
            }
            tokens.push(t);
            i = i + 1;
        } else if b == 45 || b == 126 || b == 33 {
            let op = if b == 45 {
                Operator::Negation
            } else if b == 126 {
                Operator::BitwiseNot
            } else {
                Operator::LogicalNot
            };
            let t = Token::Operator(op);
            proof {
                assert(t@ == TokenModel::Operator(operator_for_char(c)));
                assert(spec_lex_from(s, i as int) == lex_cons(t@, spec_lex_from(s, i + 1)));
                lemma_lex_join_cons(token_models(tokens@), t@, spec_lex_from(s, i + 1));
                lemma_token_models_push(tokens@, t);
            }
            tokens.push(t);
            i = i + 1;
        } else if is_alpha_or_underscore(b) {
            let st = i;
            let k = ident_run_end(file, len, st + 1);
            let id = file.substring_char(st, k);
            let t = if str_eq_chars(id, "int") {
                Token::Keyword(Keyword::Int)
            } else if str_eq_chars(id, "return") {
                Token::Keyword(Keyword::Return)
            } else {
                Token::Ident(id.to_owned())
            };
            proof {
                assert(id@ == s.subrange(st as int, k as int));
                assert(t@ == ident_token_model(s.subrange(st as int, k as int)));
                assert(spec_lex_from(s, st as int) == lex_cons(t@, spec_lex_from(s, k as int)));
                lemma_lex_join_cons(token_models(tokens@), t@, spec_lex_from(s, k as int));
                lemma_token_models_push(tokens@, t);
            }
            tokens.push(t);
            i = k;
        } else if is_digit(b) {
            let st = i;
            let k = digit_run_end(file, len, st + 1);
            proof {
                lemma_digits_end_bounds(s, st + 1);
                assert forall|m: int| st <= m < k implies #[trigger] is_digit_char(s[m]) by {
                    if m == st {
                        assert(is_digit_char(s[st as int]));
                    }
                }
            }
            let mut acc: u64 = 0;
            let mut m = st;
            while m < k
                invariant
                    st <= m <= k,
                    k <= len,
                    len == s.len(),
                    s == file@,
                    forall|mm: int| st <= mm < k ==> #[trigger] is_digit_char(s[mm]),
                    acc == digits_val(s, st as int, m as int),
                    acc <= 0x7fff_ffff_ffff_ffff,
                decreases k - m,
            {
                let cd = file.get_char(m);
                proof {
                    assert(is_digit_char(s[m as int]));
                }
                let du = (cd as u32) as u64 - 48;
                if acc > 922337203685477580 || (acc == 922337203685477580 && du > 7) {
                    proof {
                        assert(digits_val(s, st as int, m + 1) == acc * 10 + du);
                        lemma_digits_val_grows(s, st as int, m + 1, k as int);
                        assert(digits_val(s, st as int, k as int) > 0x7fff_ffff_ffff_ffff);
                        assert(spec_lex_from(s, st as int) == Err::<Seq<TokenModel>, LexError>(
                            LexError::IntegerLiteralOverflow,
                        ));
                    }
                    return Err(LexError::IntegerLiteralOverflow);
                }
                acc = acc * 10 + du;
                m = m + 1;
            }
            let t = Token::IntLit(acc as i64);
            proof {
                assert(digits_val(s, st as int, k as int) == acc);
                assert(t@ == TokenModel::IntLit(acc as i64));
                assert(spec_lex_from(s, st as int) == lex_cons(t@, spec_lex_from(s, k as int)));
                lemma_lex_join_cons(token_models(tokens@), t@, spec_lex_from(s, k as int));
                lemma_token_models_push(tokens@, t);
            }
            tokens.push(t);
            i = k;
        } else {
            proof {
                assert(spec_lex_from(s, i as int) == Err::<Seq<TokenModel>, LexError>(
                    LexError::UnrecognizedCharacter(c),
                ));
            }
            return Err(LexError::UnrecognizedCharacter(c));
        }
    }
    proof {
        assert(spec_lex_from(s, i as int) == Ok::<Seq<TokenModel>, LexError>(Seq::empty()));
        assert(token_models(tokens@) + Seq::<TokenModel>::empty() =~= token_models(tokens@));
    }
    Ok(tokens)
}

} // verus!
