//! The abstract syntax tree and the recursive-descent parser that builds it
//! from a token sequence, together with the tree-walking code generator that
//! turns it into assembly text.
//!
//! The grammar:
//!
//! ```text
//! Program    := Function
//! Function   := "int" Identifier "(" ")" "{" Return "}"
//! Return     := "return" Expression ";"
//! Expression := IntLiteral | UnaryOperator Expression
//! ```
//!
//! Each parsing function consumes the tokens its rule owns from the front of
//! the shared deque and either returns a fully built subtree or fails with a
//! structured error; nothing is recovered and no partial tree escapes.  Every
//! parsing function's contract ties its result to a specification-level
//! parser over the deque's mathematical view, and every `to_asm` method is
//! tied to a specification-level rendering, so the whole translation is
//! pinned down as a function of the input tokens.

use vstd::prelude::*;
use vstd::string::StrSliceExecFns;
use vstd::string::StringExecFns;
use std::collections::VecDeque;

use crate::token::{Token, TokenData, TokenType, spec_display_name};
use crate::chars::{
    all_digits, dec_digits, digits_value, is_digit_char, char_is_digit, char_to_digit,
};

verus! {

/// A structured parse failure: the first grammar violation aborts the whole
/// parse and is surfaced as one of these.
#[derive(Clone, Copy, Debug, PartialEq, Eq, Structural)]
pub enum ParseError {
    /// A rule expected one specific token category and the next token's
    /// category differed.
    UnexpectedToken { expected: TokenType, actual: TokenType },
    /// An expression expected an integer literal or a unary operator and
    /// found neither.
    ExpressionExpected { actual: TokenType },
    /// The token sequence was exhausted before the rule completed.
    UnexpectedEnd,
    /// An integer literal's text does not convert to the numeric domain.
    LiteralConversion,
}

/// The diagnostic text of a parse failure.
pub open spec fn spec_message(e: ParseError) -> Seq<char> {
    match e {
        ParseError::UnexpectedToken { expected, actual } => "Expected "@ + spec_display_name(
            expected,
        ) + ", got "@ + spec_display_name(actual),
        ParseError::ExpressionExpected { actual } => "Failed to parse Expression, got "@
            + spec_display_name(actual),
        ParseError::UnexpectedEnd => "Unexpected end of input"@,
        ParseError::LiteralConversion => "Failed to parse int"@,
    }
}

impl ParseError {
    /// Renders the failure as the descriptive message shown to the user.
    pub fn message(&self) -> (out: String)
        ensures
            out@ == spec_message(*self),
    {
        let mut out = String::new();
        match self {
            ParseError::UnexpectedToken { expected, actual } => {
                out.append("Expected ");
                let name = expected.get_display_name();
                out.append(name.as_str());
                out.append(", got ");
                let name2 = actual.get_display_name();
                out.append(name2.as_str());
            },
            ParseError::ExpressionExpected { actual } => {
                out.append("Failed to parse Expression, got ");
                let name = actual.get_display_name();
                out.append(name.as_str());
            },
            ParseError::UnexpectedEnd => {
                out.append("Unexpected end of input");
            },
            ParseError::LiteralConversion => {
                out.append("Failed to parse int");
            },
        }
        proof {
            assert(out@ =~= spec_message(*self));
        }
        out
    }
}

/// The three token categories that may prefix an expression.
pub open spec fn is_unary_op(t: TokenType) -> bool {
    ||| t == TokenType::Negation
    ||| t == TokenType::BitwiseCompliment
    ||| t == TokenType::LogicalNegation
}

/// Mathematical image of an [`Expression`]: a unary chain, read as the
/// sequence of prefix operators (outermost first) over a literal value.
#[verifier::ext_equal]
pub ghost struct ExprV {
    pub ops: Seq<TokenType>,
    pub value: int,
}

impl ExprV {
    /// Every operator of the chain is unary and the literal lies in the
    /// numeric domain.
    pub open spec fn wf(self) -> bool {
        &&& forall|i: int| 0 <= i < self.ops.len() ==> is_unary_op(#[trigger] self.ops[i])
        &&& 0 <= self.value <= i32::MAX
    }
}

/// Mathematical image of a [`Return`] statement.
#[verifier::ext_equal]
pub ghost struct ReturnV {
    pub expression: ExprV,
}

/// Mathematical image of a [`Function`].
#[verifier::ext_equal]
pub ghost struct FunctionV {
    pub identifier: Seq<char>,
    pub statement: ReturnV,
}

/// Mathematical image of a [`Program`].
#[verifier::ext_equal]
pub ghost struct ProgramV {
    pub function: FunctionV,
}

/// An integer literal leaf; its value always lies in `0 ..= i32::MAX`
/// because it is converted from an unsigned digit string.
#[derive(Debug)]
pub struct IntConst {
    val: i32,
}

impl IntConst {
    #[verifier::type_invariant]
    spec fn type_inv(self) -> bool {
        0 <= self.val
    }
}

impl View for IntConst {
    type V = int;

    closed spec fn view(&self) -> int {
        self.val as int
    }
}

/// An expression: an integer literal under zero or more unary operators,
/// each layer exclusively owning the next.
#[derive(Debug)]
pub enum Expression {
    IntConst(IntConst),
    UnaryOp(TokenType, Box<Expression>),
}

/// The unary chain an expression tree denotes: its prefix operators,
/// outermost first, over the literal at the leaf.
pub closed spec fn expr_chain(e: Expression) -> ExprV
    decreases e,
{
    match e {
        Expression::IntConst(ic) => ExprV { ops: Seq::empty(), value: ic@ },
        Expression::UnaryOp(op, sub) => ExprV {
            ops: seq![op] + expr_chain(*sub).ops,
            value: expr_chain(*sub).value,
        },
    }
}

impl View for Expression {
    type V = ExprV;

    closed spec fn view(&self) -> ExprV {
        expr_chain(*self)
    }
}

/// A `return` statement owning its expression.
#[derive(Debug)]
pub struct Return {
    expression: Expression,
}

impl View for Return {
    type V = ReturnV;

    closed spec fn view(&self) -> ReturnV {
        ReturnV { expression: self.expression@ }
    }
}

/// A function: an identifier and exactly one `return` statement.
#[derive(Debug)]
pub struct Function {
    identifier: String,
    statement: Return,
}

impl View for Function {
    type V = FunctionV;

    closed spec fn view(&self) -> FunctionV {
        FunctionV { identifier: self.identifier@, statement: self.statement@ }
    }
}

/// A program owning exactly one function.
#[derive(Debug)]
pub struct Program {
    function: Function,
}

impl View for Program {
    type V = ProgramV;

    closed spec fn view(&self) -> ProgramV {
        ProgramV { function: self.function@ }
    }
}

/// Outcome of a specification-level parsing rule: a value, or the error the
/// rule fails with.  Both arms carry the tokens left over — consumption is
/// strictly monotonic, so even a failed rule leaves the deque at the exact
/// suffix where the failure occurred.
pub ghost enum Parsed<T> {
    Good { value: T, rest: Seq<TokenData> },
    Bad { error: ParseError, rest: Seq<TokenData> },
}

impl<T> Parsed<T> {
    /// The tokens left over, whether the rule succeeded or failed.
    pub open spec fn leftover(self) -> Seq<TokenData> {
        match self {
            Parsed::Good { rest, .. } => rest,
            Parsed::Bad { rest, .. } => rest,
        }
    }
}

/// `rest` is a contiguous suffix of `toks`: what a rule leaves behind is
/// never reordered, rewritten or grown.
pub open spec fn is_suffix_of(rest: Seq<TokenData>, toks: Seq<TokenData>) -> bool {
    exists|k: int| 0 <= k <= toks.len() && rest == toks.skip(k)
}

/// What popping one token of category `expected` yields: the token's text
/// and the remaining sequence, or the error describing the mismatch.
pub open spec fn spec_expect(toks: Seq<TokenData>, expected: TokenType) -> Parsed<Seq<char>> {
    if toks.len() == 0 {
        Parsed::Bad { error: ParseError::UnexpectedEnd, rest: toks }
    } else if toks[0].token_type != expected {
        Parsed::Bad {
            error: ParseError::UnexpectedToken { expected, actual: toks[0].token_type },
            rest: toks.skip(1),
        }
    } else {
        Parsed::Good { value: toks[0].text, rest: toks.skip(1) }
    }
}

/// An integer-literal token converts when its text is a nonempty string of
/// decimal digits whose value fits the numeric domain.
pub open spec fn literal_converts(text: Seq<char>) -> bool {
    &&& text.len() > 0
    &&& all_digits(text)
    &&& digits_value(text) <= i32::MAX
}

/// The `IntLiteral` rule: one literal token, converted to its value.
pub open spec fn spec_parse_int_const(toks: Seq<TokenData>) -> Parsed<int> {
    match spec_expect(toks, TokenType::IntLiteral) {
        Parsed::Bad { error, rest } => Parsed::Bad { error, rest },
        Parsed::Good { value: text, rest } => if literal_converts(text) {
            Parsed::Good { value: digits_value(text), rest }
        } else {
            Parsed::Bad { error: ParseError::LiteralConversion, rest }
        },
    }
}

/// The `Expression` rule: a single-token lookahead chooses between the
/// integer-literal leaf and a unary operator wrapping a recursive operand.
pub open spec fn spec_parse_expression(toks: Seq<TokenData>) -> Parsed<ExprV>
    decreases toks.len(),
{
    if toks.len() == 0 {
        Parsed::Bad { error: ParseError::UnexpectedEnd, rest: toks }
    } else if toks[0].token_type == TokenType::IntLiteral {
        match spec_parse_int_const(toks) {
            Parsed::Bad { error, rest } => Parsed::Bad { error, rest },
            Parsed::Good { value, rest } => Parsed::Good {
                value: ExprV { ops: Seq::empty(), value },
                rest,
            },
        }
    } else if is_unary_op(toks[0].token_type) {
        match spec_parse_expression(toks.skip(1)) {
            Parsed::Bad { error, rest } => Parsed::Bad { error, rest },
            Parsed::Good { value: operand, rest } => Parsed::Good {
                value: ExprV {
                    ops: seq![toks[0].token_type] + operand.ops,
                    value: operand.value,
                },
                rest,
            },
        }
    } else {
        // The lookahead only peeks: the offending token stays in place.
        Parsed::Bad { error: ParseError::ExpressionExpected { actual: toks[0].token_type }, rest: toks }
    }
}

/// A successfully parsed expression is a well-formed chain: every operator
/// on it is unary and its literal lies in the numeric domain.
pub proof fn lemma_parse_expression_wf(toks: Seq<TokenData>)
    ensures
        spec_parse_expression(toks) matches Parsed::Good { value, .. } ==> value.wf(),
    decreases toks.len(),
{
    if toks.len() > 0 && toks[0].token_type == TokenType::IntLiteral {
        if literal_converts(toks[0].text) {
            crate::chars::lemma_digits_value_nonneg(toks[0].text);
        }
    } else if toks.len() > 0 && is_unary_op(toks[0].token_type) {
        lemma_parse_expression_wf(toks.skip(1));
        match spec_parse_expression(toks.skip(1)) {
            Parsed::Good { value: operand, .. } => {
                let ops = seq![toks[0].token_type] + operand.ops;
                assert(forall|i: int| 0 <= i < ops.len() ==> is_unary_op(#[trigger] ops[i]));
            },
            Parsed::Bad { .. } => {},
        }
    }
}

/// The `Return` rule: the keyword, an expression, a semicolon.
pub open spec fn spec_parse_return(toks: Seq<TokenData>) -> Parsed<ReturnV> {
    match spec_expect(toks, TokenType::ReturnKeyword) {
        Parsed::Bad { error, rest } => Parsed::Bad { error, rest },
        Parsed::Good { rest: t1, .. } => match spec_parse_expression(t1) {
            Parsed::Bad { error, rest } => Parsed::Bad { error, rest },
            Parsed::Good { value: expression, rest: t2 } => match spec_expect(
                t2,
                TokenType::SemiColon,
            ) {
                Parsed::Bad { error, rest } => Parsed::Bad { error, rest },
                Parsed::Good { rest: t3, .. } => Parsed::Good {
                    value: ReturnV { expression },
                    rest: t3,
                },
            },
        },
    }
}

/// The `Function` rule: `"int" Identifier "(" ")" "{" Return "}"`.
pub open spec fn spec_parse_function(toks: Seq<TokenData>) -> Parsed<FunctionV> {
    match spec_expect(toks, TokenType::IntKeyword) {
        Parsed::Bad { error, rest } => Parsed::Bad { error, rest },
        Parsed::Good { rest: t1, .. } => match spec_expect(t1, TokenType::Identifier) {
            Parsed::Bad { error, rest } => Parsed::Bad { error, rest },
            Parsed::Good { value: identifier, rest: t2 } => match spec_expect(
                t2,
                TokenType::OpenParen,
            ) {
                Parsed::Bad { error, rest } => Parsed::Bad { error, rest },
                Parsed::Good { rest: t3, .. } => match spec_expect(t3, TokenType::CloseParen) {
                    Parsed::Bad { error, rest } => Parsed::Bad { error, rest },
                    Parsed::Good { rest: t4, .. } => match spec_expect(
                        t4,
                        TokenType::OpenBracket,
                    ) {
                        Parsed::Bad { error, rest } => Parsed::Bad { error, rest },
                        Parsed::Good { rest: t5, .. } => match spec_parse_return(t5) {
                            Parsed::Bad { error, rest } => Parsed::Bad { error, rest },
                            Parsed::Good { value: statement, rest: t6 } => match spec_expect(
                                t6,
                                TokenType::CloseBracket,
                            ) {
                                Parsed::Bad { error, rest } => Parsed::Bad { error, rest },
                                Parsed::Good { rest: t7, .. } => Parsed::Good {
                                    value: FunctionV { identifier, statement },
                                    rest: t7,
                                },
                            },
                        },
                    },
                },
            },
        },
    }
}

/// The `Program` rule: exactly one function; trailing tokens are left
/// unconsumed.
pub open spec fn spec_parse_program(toks: Seq<TokenData>) -> Parsed<ProgramV> {
    match spec_parse_function(toks) {
        Parsed::Bad { error, rest } => Parsed::Bad { error, rest },
        Parsed::Good { value: function, rest } => Parsed::Good {
            value: ProgramV { function },
            rest,
        },
    }
}

/// A suffix of a suffix is a suffix.
proof fn lemma_suffix_trans(a: Seq<TokenData>, b: Seq<TokenData>, c: Seq<TokenData>)
    requires
        is_suffix_of(b, a),
        is_suffix_of(c, b),
    ensures
        is_suffix_of(c, a),
{
    let k1 = choose|k: int| 0 <= k <= a.len() && b == a.skip(k);
    let k2 = choose|k: int| 0 <= k <= b.len() && c == b.skip(k);
    assert(c =~= a.skip(k1 + k2));
}

/// Popping one expected token leaves a contiguous suffix of the input,
/// whether it succeeds or fails.
pub proof fn lemma_expect_suffix(toks: Seq<TokenData>, expected: TokenType)
    ensures
        is_suffix_of(spec_expect(toks, expected).leftover(), toks),
{
    assert(toks.skip(0) =~= toks);
    if toks.len() > 0 {
        assert(toks.skip(1) == toks.skip(1));
    }
}

/// The literal rule consumes monotonically: on success and on failure alike
/// it leaves a contiguous suffix of its input.
pub proof fn lemma_parse_int_const_suffix(toks: Seq<TokenData>)
    ensures
        is_suffix_of(spec_parse_int_const(toks).leftover(), toks),
{
    lemma_expect_suffix(toks, TokenType::IntLiteral);
}

/// The expression rule consumes monotonically, front to back with only a
/// single-token lookahead: on any return — success or failure — the tokens
/// left over are a contiguous suffix of the input; nothing is appended,
/// reordered or rewritten.
pub proof fn lemma_parse_expression_suffix(toks: Seq<TokenData>)
    ensures
        is_suffix_of(spec_parse_expression(toks).leftover(), toks),
    decreases toks.len(),
{
    assert(toks.skip(0) =~= toks);
    if toks.len() == 0 {
    } else if toks[0].token_type == TokenType::IntLiteral {
        lemma_parse_int_const_suffix(toks);
    } else if is_unary_op(toks[0].token_type) {
        lemma_parse_expression_suffix(toks.skip(1));
        assert(toks.skip(1) == toks.skip(1));
        lemma_suffix_trans(toks, toks.skip(1), spec_parse_expression(toks).leftover());
    }
}

/// The return rule consumes monotonically: on any return the tokens left
/// over are a contiguous suffix of the input.
pub proof fn lemma_parse_return_suffix(toks: Seq<TokenData>)
    ensures
        is_suffix_of(spec_parse_return(toks).leftover(), toks),
{
    lemma_expect_suffix(toks, TokenType::ReturnKeyword);
    match spec_expect(toks, TokenType::ReturnKeyword) {
        Parsed::Bad { .. } => {},
        Parsed::Good { rest: t1, .. } => {
            lemma_parse_expression_suffix(t1);
            lemma_suffix_trans(toks, t1, spec_parse_expression(t1).leftover());
            match spec_parse_expression(t1) {
                Parsed::Bad { .. } => {},
                Parsed::Good { rest: t2, .. } => {
                    lemma_expect_suffix(t2, TokenType::SemiColon);
                    lemma_suffix_trans(toks, t2, spec_expect(t2, TokenType::SemiColon).leftover());
                },
            }
        },
    }
}

/// The function rule consumes monotonically: on any return the tokens left
/// over are a contiguous suffix of the input.
pub proof fn lemma_parse_function_suffix(toks: Seq<TokenData>)
    ensures
        is_suffix_of(spec_parse_function(toks).leftover(), toks),
{
    lemma_expect_suffix(toks, TokenType::IntKeyword);
    match spec_expect(toks, TokenType::IntKeyword) {
        Parsed::Bad { .. } => {},
        Parsed::Good { rest: t1, .. } => {
            lemma_expect_suffix(t1, TokenType::Identifier);
            lemma_suffix_trans(toks, t1, spec_expect(t1, TokenType::Identifier).leftover());
            match spec_expect(t1, TokenType::Identifier) {
                Parsed::Bad { .. } => {},
                Parsed::Good { rest: t2, .. } => {
                    lemma_expect_suffix(t2, TokenType::OpenParen);
                    lemma_suffix_trans(toks, t2, spec_expect(t2, TokenType::OpenParen).leftover());
                    match spec_expect(t2, TokenType::OpenParen) {
                        Parsed::Bad { .. } => {},
                        Parsed::Good { rest: t3, .. } => {
                            lemma_expect_suffix(t3, TokenType::CloseParen);
                            lemma_suffix_trans(
                                toks,
                                t3,
                                spec_expect(t3, TokenType::CloseParen).leftover(),
                            );
                            match spec_expect(t3, TokenType::CloseParen) {
                                Parsed::Bad { .. } => {},
                                Parsed::Good { rest: t4, .. } => {
                                    lemma_expect_suffix(t4, TokenType::OpenBracket);
                                    lemma_suffix_trans(
                                        toks,
                                        t4,
                                        spec_expect(t4, TokenType::OpenBracket).leftover(),
                                    );
                                    match spec_expect(t4, TokenType::OpenBracket) {
                                        Parsed::Bad { .. } => {},
                                        Parsed::Good { rest: t5, .. } => {
                                            lemma_parse_return_suffix(t5);
                                            lemma_suffix_trans(
                                                toks,
                                                t5,
                                                spec_parse_return(t5).leftover(),
                                            );
                                            match spec_parse_return(t5) {
                                                Parsed::Bad { .. } => {},
                                                Parsed::Good { rest: t6, .. } => {
                                                    lemma_expect_suffix(
                                                        t6,
                                                        TokenType::CloseBracket,
                                                    );
                                                    lemma_suffix_trans(
                                                        toks,
                                                        t6,
                                                        spec_expect(
                                                            t6,
                                                            TokenType::CloseBracket,
                                                        ).leftover(),
                                                    );
                                                },
                                            }
                                        },
                                    }
                                },
                            }
                        },
                    }
                },
            }
        },
    }
}

/// The program rule consumes monotonically: on any return the tokens left
/// over are a contiguous suffix of the input.
pub proof fn lemma_parse_program_suffix(toks: Seq<TokenData>)
    ensures
        is_suffix_of(spec_parse_program(toks).leftover(), toks),
{
    lemma_parse_function_suffix(toks);
}

/// Pops one token and checks its category: the step every grammar rule makes
/// for its fixed tokens.  A mismatch reports both the expected and the actual
/// category; an exhausted sequence is a distinct failure.
fn expect_token(tokens: &mut VecDeque<Token>, expected: TokenType) -> (r: Result<
    Token,
    ParseError,
>)
    ensures
        match spec_expect(old(tokens).deep_view(), expected) {
            Parsed::Good { value, rest } => {
                &&& r matches Ok(t) && t@ == (TokenData { token_type: expected, text: value })
                &&& final(tokens).deep_view() == rest
            },
            Parsed::Bad { error, rest } => {
                &&& r matches Err(e) && e == error
                &&& final(tokens).deep_view() == rest
            },
        },
{
    match tokens.pop_front() {
        None => Err(ParseError::UnexpectedEnd),
        Some(t) => {
            proof {
                assert(old(tokens).deep_view()[0] == old(tokens)@[0].deep_view());
                assert(tokens.deep_view() =~= old(tokens).deep_view().skip(1));
            }
            if t.token_type() == expected {
                Ok(t)
            } else {
                Err(ParseError::UnexpectedToken { expected, actual: t.token_type() })
            }
        },
    }
}

impl IntConst {
    /// Pops one integer-literal token and converts its text to a value,
    /// reporting a conversion failure distinctly from a category mismatch.
    pub fn parse(tokens: &mut VecDeque<Token>) -> (r: Result<Self, ParseError>)
        ensures
            match spec_parse_int_const(old(tokens).deep_view()) {
                Parsed::Good { value, rest } => {
                    &&& r matches Ok(ic) && ic@ == value
                    &&& final(tokens).deep_view() == rest
                },
                Parsed::Bad { error, rest } => {
                    &&& r matches Err(e) && e == error
                    &&& final(tokens).deep_view() == rest
                },
            },
    {
        let tok = match expect_token(tokens, TokenType::IntLiteral) {
            Ok(t) => t,
            Err(e) => {
                return Err(e);
            },
        };
        let text = tok.token();
        let s = text.as_str();
        let len = s.unicode_len();
        if len == 0 {
            return Err(ParseError::LiteralConversion);
        }
        let mut i: usize = 0;
        let mut acc: u64 = 0;
        #[verifier::loop_isolation(false)]
        while i < len
            invariant
                i <= len,
                len == s@.len(),
                s@ == tok@.text,
                all_digits(s@.take(i as int)),
                acc == digits_value(s@.take(i as int)),
                acc <= i32::MAX,
            decreases len - i,
        {
            let c = s.get_char(i);
            if !char_is_digit(c) {
                proof {
                    assert(!is_digit_char(s@[i as int]));
                }
                return Err(ParseError::LiteralConversion);
            }
            let d = char_to_digit(c);
            let next: u64 = acc * 10 + (d as u64);
            proof {
                assert(s@.take(i as int + 1).drop_last() =~= s@.take(i as int));
                assert(s@.take(i as int + 1).last() == s@[i as int]);
                assert(all_digits(s@.take(i as int + 1))) by {
                    assert(forall|k: int| 0 <= k < i as int + 1
                        ==> #[trigger] s@.take(i as int + 1)[k] == s@.take(i as int).push(
                        s@[i as int],
                    )[k]);
                }
            }
            if next > 2147483647u64 {
                proof {
                    if all_digits(s@) {
                        crate::chars::lemma_digits_value_take_le(s@, i as int + 1);
                    }
                }
                return Err(ParseError::LiteralConversion);
            }
            acc = next;
            i = i + 1;
        }
        proof {
            assert(s@.take(len as int) =~= s@);
        }
        Ok(IntConst { val: acc as i32 })
    }
}

impl Expression {
    /// Inspects the next token to choose the expression shape: an integer
    /// literal yields the leaf; a unary operator is consumed and wraps the
    /// recursively parsed operand; anything else is a syntax error.
    pub fn parse(tokens: &mut VecDeque<Token>) -> (r: Result<Self, ParseError>)
        ensures
            match spec_parse_expression(old(tokens).deep_view()) {
                Parsed::Good { value, rest } => {
                    &&& r matches Ok(e) && e@ == value
                    &&& final(tokens).deep_view() == rest
                },
                Parsed::Bad { error, rest } => {
                    &&& r matches Err(e) && e == error
                    &&& final(tokens).deep_view() == rest
                },
            },
        decreases tokens.len(),
    {
        if tokens.len() == 0 {
            return Err(ParseError::UnexpectedEnd);
        }
        let tt = tokens[0].token_type();
        proof {
            assert(old(tokens).deep_view()[0] == old(tokens)@[0].deep_view());
        }
        match tt {
            TokenType::IntLiteral => {
                match IntConst::parse(tokens) {
                    Ok(ic) => Ok(Expression::IntConst(ic)),
                    Err(e) => Err(e),
                }
            },
            TokenType::LogicalNegation => {
                let _ = tokens.pop_front();
                proof {
                    assert(tokens.deep_view() =~= old(tokens).deep_view().skip(1));
                }
                match Expression::parse(tokens) {
                    Ok(exp) => Ok(Expression::UnaryOp(TokenType::LogicalNegation, Box::new(exp))),
                    Err(e) => Err(e),
                }
            },
            TokenType::Negation => {
                let _ = tokens.pop_front();
                proof {
                    assert(tokens.deep_view() =~= old(tokens).deep_view().skip(1));
                }
                match Expression::parse(tokens) {
                    Ok(exp) => Ok(Expression::UnaryOp(TokenType::Negation, Box::new(exp))),
                    Err(e) => Err(e),
                }
            },
            TokenType::BitwiseCompliment => {
                let _ = tokens.pop_front();
                proof {
                    assert(tokens.deep_view() =~= old(tokens).deep_view().skip(1));
                }
                match Expression::parse(tokens) {
                    Ok(exp) => Ok(Expression::UnaryOp(TokenType::BitwiseCompliment, Box::new(exp))),
                    Err(e) => Err(e),
                }
            },
            _ => Err(ParseError::ExpressionExpected { actual: tt }),
        }
    }
}

impl Return {
    /// The `Return` rule: the keyword, the expression, the semicolon.
    pub fn parse(tokens: &mut VecDeque<Token>) -> (r: Result<Self, ParseError>)
        ensures
            match spec_parse_return(old(tokens).deep_view()) {
                Parsed::Good { value, rest } => {
                    &&& r matches Ok(ret) && ret@ == value
                    &&& final(tokens).deep_view() == rest
                },
                Parsed::Bad { error, rest } => {
                    &&& r matches Err(e) && e == error
                    &&& final(tokens).deep_view() == rest
                },
            },
    {
        match expect_token(tokens, TokenType::ReturnKeyword) {
            Ok(_) => (),
            Err(e) => {
                return Err(e);
            },
        }
        let expression = match Expression::parse(tokens) {
            Ok(expression) => expression,
            Err(e) => {
                return Err(e);
            },
        };
        let ret = Self { expression };
        match expect_token(tokens, TokenType::SemiColon) {
            Ok(_) => (),
            Err(e) => {
                return Err(e);
            },
        }
        Ok(ret)
    }
}

impl Function {
    /// The `Function` rule: `"int" Identifier "(" ")" "{" Return "}"`.
    pub fn parse(tokens: &mut VecDeque<Token>) -> (r: Result<Self, ParseError>)
        ensures
            match spec_parse_function(old(tokens).deep_view()) {
                Parsed::Good { value, rest } => {
                    &&& r matches Ok(func) && func@ == value
                    &&& final(tokens).deep_view() == rest
                },
                Parsed::Bad { error, rest } => {
                    &&& r matches Err(e) && e == error
                    &&& final(tokens).deep_view() == rest
                },
            },
    {
        match expect_token(tokens, TokenType::IntKeyword) {
            Ok(_) => (),
            Err(e) => {
                return Err(e);
            },
        }
        let tok = match expect_token(tokens, TokenType::Identifier) {
            Ok(t) => t,
            Err(e) => {
                return Err(e);
            },
        };
        let identifier = tok.token();
        match expect_token(tokens, TokenType::OpenParen) {
            Ok(_) => (),
            Err(e) => {
                return Err(e);
            },
        }
        match expect_token(tokens, TokenType::CloseParen) {
            Ok(_) => (),
            Err(e) => {
                return Err(e);
            },
        }
        match expect_token(tokens, TokenType::OpenBracket) {
            Ok(_) => (),
            Err(e) => {
                return Err(e);
            },
        }
        let statement = match Return::parse(tokens) {
            Ok(value) => value,
            Err(e) => {
                return Err(e);
            },
        };
        let func = Self { identifier, statement };
        match expect_token(tokens, TokenType::CloseBracket) {
            Ok(_) => (),
            Err(e) => {
                return Err(e);
            },
        }
        Ok(func)
    }
}

impl Program {
    /// The `Program` rule: exactly one function; tokens past it stay in the
    /// deque untouched.
    pub fn parse(tokens: &mut VecDeque<Token>) -> (r: Result<Self, ParseError>)
        ensures
            match spec_parse_program(old(tokens).deep_view()) {
                Parsed::Good { value, rest } => {
                    &&& r matches Ok(prog) && prog@ == value
                    &&& final(tokens).deep_view() == rest
                },
                Parsed::Bad { error, rest } => {
                    &&& r matches Err(e) && e == error
                    &&& final(tokens).deep_view() == rest
                },
            },
    {
        let function = match Function::parse(tokens) {
            Ok(result) => result,
            Err(e) => {
                return Err(e);
            },
        };
        Ok(Self { function })
    }
}

/// Assembly that loads a literal value into the accumulator:
/// ` movl $<v>, %eax`.  The value of a constructed literal is never
/// negative; the clip below only keeps the function total.
pub open spec fn spec_asm_int(v: int) -> Seq<char> {
    " movl $"@ + dec_digits((if 0 <= v { v } else { 0 }) as nat) + ", %eax\n"@
}

/// The instructions a unary operator appends after its operand's code.
/// Logical negation compares the accumulator to zero, clears it, and sets
/// its low byte from the comparison.  A non-operator category appends
/// nothing.
pub open spec fn spec_asm_op(op: TokenType) -> Seq<char> {
    if op == TokenType::Negation {
        " neg %eax\n"@
    } else if op == TokenType::BitwiseCompliment {
        " not %eax\n"@
    } else if op == TokenType::LogicalNegation {
        " cmpl $0, %eax\n"@ + " movl $0, %eax\n"@ + " sete %al\n"@
    } else {
        Seq::<char>::empty()
    }
}

/// Assembly for a unary chain, post-order: the leaf load comes first, then
/// each operator's instructions, innermost operator first.
pub open spec fn spec_asm_expr(c: ExprV) -> Seq<char>
    decreases c.ops.len(),
{
    if c.ops.len() == 0 {
        spec_asm_int(c.value)
    } else {
        spec_asm_expr(ExprV { ops: c.ops.skip(1), value: c.value }) + spec_asm_op(c.ops[0])
    }
}

/// Assembly for a `return` statement: the expression's code, then `ret`.
pub open spec fn spec_asm_return(r: ReturnV) -> Seq<char> {
    spec_asm_expr(r.expression) + " ret"@
}

/// Assembly for a function: its label, then its statement's code.
pub open spec fn spec_asm_function(f: FunctionV) -> Seq<char> {
    f.identifier + ":\n"@ + spec_asm_return(f.statement)
}

/// Assembly for a program: the global-visibility directive naming the
/// function, then the function's code.
pub open spec fn spec_asm_program(p: ProgramV) -> Seq<char> {
    " .globl "@ + p.function.identifier + "\n"@ + spec_asm_function(p.function) + "\n"@
}

impl IntConst {
    /// Emits the accumulator load of this literal.
    pub fn to_asm(&self) -> (out: String)
        ensures
            out@ == spec_asm_int(self@),
    {
        proof {
            use_type_invariant(&*self);
        }
        let mut out = String::new();
        out.append(" movl $");
        crate::chars::push_decimal(&mut out, self.val as u32);
        out.append(", %eax\n");
        proof {
            assert(out@ =~= spec_asm_int(self@));
        }
        out
    }
}

impl Expression {
    /// Emits this expression's code: the operand's code first, leaving its
    /// value in the accumulator, then the operator's instructions, which
    /// read and rewrite that same accumulator.
    pub fn to_asm(&self) -> (out: String)
        ensures
            out@ == spec_asm_expr(self@),
        decreases self,
    {
        let mut out = String::new();
        match self {
            Expression::IntConst(ic) => {
                let leaf = ic.to_asm();
                out.append(leaf.as_str());
                proof {
                    assert(out@ =~= spec_asm_expr(self@));
                }
            },
            Expression::UnaryOp(tok_type, exp) => {
                let operand = exp.to_asm();
                out.append(operand.as_str());
                proof {
                    assert((seq![*tok_type] + exp@.ops).skip(1) =~= exp@.ops);
                    assert(ExprV { ops: exp@.ops, value: exp@.value } =~= exp@);
                }
                match tok_type {
                    TokenType::Negation => {
                        out.append(" neg %eax\n");
                    },
                    TokenType::BitwiseCompliment => {
                        out.append(" not %eax\n");
                    },
                    TokenType::LogicalNegation => {
                        out.append(" cmpl $0, %eax\n");
                        out.append(" movl $0, %eax\n");
                        out.append(" sete %al\n");
                    },
                    _ => {},
                }
                proof {
                    assert(out@ =~= spec_asm_expr(self@));
                }
            },
        }
        out
    }
}

impl Return {
    /// Emits the statement's code: the expression's code, then the return
    /// instruction.
    pub fn to_asm(&self) -> (out: String)
        ensures
            out@ == spec_asm_return(self@),
    {
        let mut out = String::new();
        let body = self.expression.to_asm();
        out.append(body.as_str());
        out.append(" ret");
        proof {
            assert(out@ =~= spec_asm_return(self@));
        }
        out
    }
}

impl Function {
    /// Emits the function's code: its label, then its statement's code.
    pub fn to_asm(&self) -> (out: String)
        ensures
            out@ == spec_asm_function(self@),
    {
        let mut out = String::new();
        out.append(self.identifier.as_str());
        out.append(":\n");
        let body = self.statement.to_asm();
        out.append(body.as_str());
        proof {
            assert(out@ =~= spec_asm_function(self@));
        }
        out
    }
}

impl Program {
    /// Emits the whole translation unit: the global-visibility directive for
    /// the function's identifier, then the function's code.
    pub fn to_asm(&self) -> (out: String)
        ensures
            out@ == spec_asm_program(self@),
    {
        let mut out = String::new();
        out.append(" .globl ");
        out.append(self.function.identifier.as_str());
        out.append("\n");
        let body = self.function.to_asm();
        out.append(body.as_str());
        out.append("\n");
        proof {
            assert(out@ =~= spec_asm_program(self@));
        }
        out
    }
}

} // verus!
