use std::collections::VecDeque;

use rustyc::ast::{Expression, Function, IntConst, ParseError, Program, Return};
use rustyc::compile;
use rustyc::rusty_lexer::RustyLexer;
use rustyc::token::{Token, TokenType};
use rustyc::CompileError;

fn token_types(tokens: &VecDeque<Token>) -> Vec<TokenType> {
    tokens.iter().map(|t| t.token_type()).collect()
}

fn token_texts(tokens: &VecDeque<Token>) -> Vec<String> {
    tokens.iter().map(|t| t.token()).collect()
}

#[test]
fn lex_simple_program() {
    let out = RustyLexer::parse("int main(){return 0;}");
    assert_eq!(out.error, None);
    assert_eq!(
        token_types(&out.tokens),
        vec![
            TokenType::IntKeyword,
            TokenType::Identifier,
            TokenType::OpenParen,
            TokenType::CloseParen,
            TokenType::OpenBracket,
            TokenType::ReturnKeyword,
            TokenType::IntLiteral,
            TokenType::SemiColon,
            TokenType::CloseBracket,
        ]
    );
    assert_eq!(
        token_texts(&out.tokens),
        vec!["int", "main", "(", ")", "{", "return ", "0", ";", "}"]
    );
}

#[test]
fn lex_skips_whitespace() {
    let out = RustyLexer::parse("  int\t\r\nmain  ");
    assert_eq!(out.error, None);
    assert_eq!(
        token_types(&out.tokens),
        vec![TokenType::IntKeyword, TokenType::Identifier]
    );
    assert_eq!(token_texts(&out.tokens), vec!["int", "main"]);
}

#[test]
fn lex_unrecognized_char_stops() {
    // Scanning stops at the first unrecognized character; the tokens
    // produced before it stay available for diagnostics.
    let out = RustyLexer::parse("int @ main");
    assert_eq!(out.error, Some('@'));
    assert_eq!(token_types(&out.tokens), vec![TokenType::IntKeyword]);
    assert_eq!(token_texts(&out.tokens), vec!["int"]);
}

#[test]
fn lex_longest_match() {
    // A longer letter run beats the keyword; a tie goes to the keyword.
    let out = RustyLexer::parse("ints int int42");
    assert_eq!(out.error, None);
    assert_eq!(
        token_types(&out.tokens),
        vec![
            TokenType::Identifier,
            TokenType::IntKeyword,
            TokenType::IntKeyword,
            TokenType::IntLiteral,
        ]
    );
    assert_eq!(token_texts(&out.tokens), vec!["ints", "int", "int", "42"]);
}

#[test]
fn lex_return_keyword_needs_space() {
    // The return keyword matches "return " with its following space;
    // without the space the letters are an ordinary identifier.
    let out = RustyLexer::parse("return;");
    assert_eq!(out.error, None);
    assert_eq!(
        token_types(&out.tokens),
        vec![TokenType::Identifier, TokenType::SemiColon]
    );

    let out = RustyLexer::parse("return 5;");
    assert_eq!(out.error, None);
    assert_eq!(
        token_types(&out.tokens),
        vec![
            TokenType::ReturnKeyword,
            TokenType::IntLiteral,
            TokenType::SemiColon,
        ]
    );
    assert_eq!(token_texts(&out.tokens), vec!["return ", "5", ";"]);
}

#[test]
fn parse_and_generate_simple_program() {
    let mut out = RustyLexer::parse("int main(){return 42;}");
    assert_eq!(out.error, None);
    let prog = Program::parse(&mut out.tokens).unwrap();
    assert_eq!(out.tokens.len(), 0);
    assert_eq!(
        prog.to_asm(),
        " .globl main\nmain:\n movl $42, %eax\n ret\n"
    );
}

#[test]
fn compile_is_deterministic() {
    // Identical source text always yields byte-identical assembly.
    let source = "int main(){return !-~17;}";
    let first = compile(source).unwrap();
    let second = compile(source).unwrap();
    assert_eq!(first, second);
}

#[test]
fn compile_plain_literals() {
    // A bare literal compiles to its accumulator load followed by the
    // return instruction, and nothing else.
    assert_eq!(
        compile("int main(){return 0;}").unwrap(),
        " .globl main\nmain:\n movl $0, %eax\n ret\n"
    );
    assert_eq!(
        compile("int main(){return 42;}").unwrap(),
        " .globl main\nmain:\n movl $42, %eax\n ret\n"
    );
    assert_eq!(
        compile("int main(){return 2147483647;}").unwrap(),
        " .globl main\nmain:\n movl $2147483647, %eax\n ret\n"
    );
}

#[test]
fn compile_literal_with_leading_zeros() {
    // The literal is converted to its value before code generation, so
    // leading zeros in the source do not survive into the assembly.
    assert_eq!(
        compile("int main(){return 007;}").unwrap(),
        " .globl main\nmain:\n movl $7, %eax\n ret\n"
    );
}

#[test]
fn lex_only_whitespace() {
    let out = RustyLexer::parse(" \t\r\n ");
    assert_eq!(out.error, None);
    assert_eq!(out.tokens.len(), 0);
}

#[test]
fn compile_unary_chain_post_order() {
    // `return ~-5;` emits the leaf load of 5, then the arithmetic
    // negation, then the bitwise complement, in that order.
    assert_eq!(
        compile("int main(){return ~-5;}").unwrap(),
        " .globl main\nmain:\n movl $5, %eax\n neg %eax\n not %eax\n ret\n"
    );
}

#[test]
fn compile_logical_negation() {
    assert_eq!(
        compile("int main(){return !0;}").unwrap(),
        " .globl main\nmain:\n movl $0, %eax\n cmpl $0, %eax\n movl $0, %eax\n sete %al\n ret\n"
    );
    assert_eq!(
        compile("int main(){return !1;}").unwrap(),
        " .globl main\nmain:\n movl $1, %eax\n cmpl $0, %eax\n movl $0, %eax\n sete %al\n ret\n"
    );
}

#[test]
fn compile_missing_close_paren() {
    // A missing close parenthesis is a syntax error naming the expected
    // close parenthesis; no assembly is produced.
    let err = compile("int main( { return 0; }").unwrap_err();
    assert_eq!(
        err,
        CompileError::Parse {
            error: ParseError::UnexpectedToken {
                expected: TokenType::CloseParen,
                actual: TokenType::OpenBracket,
            },
        }
    );
}

#[test]
fn compile_truncated_input() {
    // A body missing entirely fails with an end-of-input error rather
    // than panicking or returning a partial tree.
    let err = compile("int main()").unwrap_err();
    assert_eq!(
        err,
        CompileError::Parse {
            error: ParseError::UnexpectedEnd,
        }
    );
}

#[test]
fn compile_missing_expression() {
    let err = compile("int main(){return ;}").unwrap_err();
    assert_eq!(
        err,
        CompileError::Parse {
            error: ParseError::ExpressionExpected {
                actual: TokenType::SemiColon,
            },
        }
    );
}

#[test]
fn compile_literal_out_of_range() {
    let err = compile("int main(){return 2147483648;}").unwrap_err();
    assert_eq!(
        err,
        CompileError::Parse {
            error: ParseError::LiteralConversion,
        }
    );
}

#[test]
fn compile_unrecognized_character() {
    let err = compile("int main(){return 0@;}").unwrap_err();
    assert_eq!(err, CompileError::Lexical { offending: '@' });
}

#[test]
fn compile_empty_source() {
    let err = compile("").unwrap_err();
    assert_eq!(
        err,
        CompileError::Parse {
            error: ParseError::UnexpectedEnd,
        }
    );
}

#[test]
fn compile_ignores_trailing_tokens() {
    // The program rule owns one function; tokens past it are ignored.
    assert_eq!(
        compile("int main(){return 3;} int").unwrap(),
        " .globl main\nmain:\n movl $3, %eax\n ret\n"
    );
}

#[test]
fn token_accessors() {
    let tok = Token::new(&TokenType::Identifier, "abc");
    assert_eq!(tok.token(), "abc");
    assert_eq!(tok.token_type(), TokenType::Identifier);
}

#[test]
fn token_type_display_names() {
    assert_eq!(
        TokenType::CloseParen.get_display_name(),
        "TokenType::CloseParen"
    );
    assert_eq!(
        TokenType::BitwiseCompliment.get_display_name(),
        "TokenType::BitwiseCompliment"
    );
}

#[test]
fn parse_error_messages() {
    let err = ParseError::UnexpectedToken {
        expected: TokenType::CloseParen,
        actual: TokenType::OpenBracket,
    };
    assert_eq!(
        err.message(),
        "Expected TokenType::CloseParen, got TokenType::OpenBracket"
    );
    assert_eq!(
        ParseError::ExpressionExpected { actual: TokenType::SemiColon }.message(),
        "Failed to parse Expression, got TokenType::SemiColon"
    );
    assert_eq!(ParseError::UnexpectedEnd.message(), "Unexpected end of input");
    assert_eq!(ParseError::LiteralConversion.message(), "Failed to parse int");
}

#[test]
fn expression_parse_directly() {
    let mut tokens: VecDeque<Token> = VecDeque::new();
    tokens.push_back(Token::new(&TokenType::Negation, "-"));
    tokens.push_back(Token::new(&TokenType::IntLiteral, "7"));
    let expr = Expression::parse(&mut tokens).unwrap();
    assert_eq!(tokens.len(), 0);
    assert_eq!(expr.to_asm(), " movl $7, %eax\n neg %eax\n");
}

#[test]
fn int_const_parse_errors() {
    // A category mismatch consumes the offending token.
    let mut tokens: VecDeque<Token> = VecDeque::new();
    tokens.push_back(Token::new(&TokenType::Identifier, "x"));
    assert_eq!(
        IntConst::parse(&mut tokens).unwrap_err(),
        ParseError::UnexpectedToken {
            expected: TokenType::IntLiteral,
            actual: TokenType::Identifier,
        }
    );
    assert_eq!(tokens.len(), 0);

    let mut empty: VecDeque<Token> = VecDeque::new();
    assert_eq!(
        IntConst::parse(&mut empty).unwrap_err(),
        ParseError::UnexpectedEnd
    );
    assert_eq!(empty.len(), 0);

    // A hand-built token whose text is not a digit string fails the
    // conversion, distinctly from a category mismatch; the token was
    // popped before the conversion was tried.
    let mut bad: VecDeque<Token> = VecDeque::new();
    bad.push_back(Token::new(&TokenType::IntLiteral, "12x4"));
    assert_eq!(
        IntConst::parse(&mut bad).unwrap_err(),
        ParseError::LiteralConversion
    );
    assert_eq!(bad.len(), 0);

    // An overflowing literal likewise: the error is the conversion's, and
    // the token is already consumed.
    let mut over: VecDeque<Token> = VecDeque::new();
    over.push_back(Token::new(&TokenType::IntLiteral, "2147483648"));
    assert_eq!(
        IntConst::parse(&mut over).unwrap_err(),
        ParseError::LiteralConversion
    );
    assert_eq!(over.len(), 0);
}

#[test]
fn expression_parse_only_peeks_on_mismatch() {
    // The expression lookahead inspects without consuming: after the
    // failure the offending token is still at the front of the deque.
    let mut tokens: VecDeque<Token> = VecDeque::new();
    tokens.push_back(Token::new(&TokenType::CloseBracket, "}"));
    assert_eq!(
        Expression::parse(&mut tokens).unwrap_err(),
        ParseError::ExpressionExpected {
            actual: TokenType::CloseBracket,
        }
    );
    assert_eq!(token_types(&tokens), vec![TokenType::CloseBracket]);
}

#[test]
fn function_parse_fails_fast() {
    // Parsing stops at the first deviation: the offending token has been
    // popped, and no token past it is consumed.
    let mut out = RustyLexer::parse("int main( { return 0; }");
    assert_eq!(out.error, None);
    assert_eq!(
        Function::parse(&mut out.tokens).unwrap_err(),
        ParseError::UnexpectedToken {
            expected: TokenType::CloseParen,
            actual: TokenType::OpenBracket,
        }
    );
    assert_eq!(
        token_types(&out.tokens),
        vec![
            TokenType::ReturnKeyword,
            TokenType::IntLiteral,
            TokenType::SemiColon,
            TokenType::CloseBracket,
        ]
    );
}

#[test]
fn return_parse_leaves_trailing_tokens() {
    let mut tokens: VecDeque<Token> = VecDeque::new();
    tokens.push_back(Token::new(&TokenType::ReturnKeyword, "return "));
    tokens.push_back(Token::new(&TokenType::IntLiteral, "8"));
    tokens.push_back(Token::new(&TokenType::SemiColon, ";"));
    tokens.push_back(Token::new(&TokenType::CloseBracket, "}"));
    let ret = Return::parse(&mut tokens).unwrap();
    assert_eq!(ret.to_asm(), " movl $8, %eax\n ret");
    assert_eq!(token_types(&tokens), vec![TokenType::CloseBracket]);
}
