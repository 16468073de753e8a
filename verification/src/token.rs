//! The token vocabulary shared by the lexer and the parser: a fixed
//! enumeration of token categories, and the token record pairing a category
//! with the exact source text it matched.

use vstd::prelude::*;
use vstd::string::StringExecFns;

verus! {

/// The category of a lexical token.
///
/// `End` marks exhaustion of the input and `Error` marks text matching no
/// category; neither is ever stored in a token sequence (the lexer stops
/// instead), but both belong to the vocabulary that diagnostics speak of.
#[derive(Clone, Copy, Debug, PartialEq, Eq, Structural)]
pub enum TokenType {
    End,
    Error,
    IntKeyword,
    Identifier,
    OpenParen,
    CloseParen,
    OpenBracket,
    CloseBracket,
    ReturnKeyword,
    IntLiteral,
    SemiColon,
    Negation,
    BitwiseCompliment,
    LogicalNegation,
}

/// Mathematical image of a [`Token`]: its category and the matched text.
#[verifier::ext_equal]
pub ghost struct TokenData {
    pub token_type: TokenType,
    pub text: Seq<char>,
}

/// An immutable pair of token category and matched source text.
#[derive(Debug)]
pub struct Token {
    token_type: TokenType,
    token: String,
}

impl View for Token {
    type V = TokenData;

    closed spec fn view(&self) -> TokenData {
        TokenData { token_type: self.token_type, text: self.token@ }
    }
}

impl DeepView for Token {
    type V = TokenData;

    open spec fn deep_view(&self) -> TokenData {
        self.view()
    }
}

impl Token {
    pub fn new(tok_type: &TokenType, tok: &str) -> (t: Token)
        ensures
            t@ == (TokenData { token_type: *tok_type, text: tok@ }),
    {
        Self { token_type: *tok_type, token: String::from_str(tok) }
    }

    pub fn token(&self) -> (s: String)
        ensures
            s@ == self@.text,
    {
        self.token.clone()
    }

    pub fn token_type(&self) -> (t: TokenType)
        ensures
            t == self@.token_type,
    {
        self.token_type
    }
}

/// The name under which a token category appears in diagnostics.
pub open spec fn spec_display_name(t: TokenType) -> Seq<char> {
    match t {
        TokenType::End => "TokenType::End"@,
        TokenType::Error => "TokenType::Error"@,
        TokenType::IntKeyword => "TokenType::IntKeyword"@,
        TokenType::Identifier => "TokenType::Identifier"@,
        TokenType::OpenParen => "TokenType::OpenParen"@,
        TokenType::CloseParen => "TokenType::CloseParen"@,
        TokenType::OpenBracket => "TokenType::OpenBracket"@,
        TokenType::CloseBracket => "TokenType::CloseBracket"@,
        TokenType::ReturnKeyword => "TokenType::ReturnKeyword"@,
        TokenType::IntLiteral => "TokenType::IntLiteral"@,
        TokenType::SemiColon => "TokenType::SemiColon"@,
        TokenType::Negation => "TokenType::Negation"@,
        TokenType::BitwiseCompliment => "TokenType::BitwiseCompliment"@,
        TokenType::LogicalNegation => "TokenType::LogicalNegation"@,
    }
}

impl TokenType {
    pub fn get_display_name(&self) -> (s: String)
        ensures
            s@ == spec_display_name(*self),
    {
        match self {
            TokenType::End => String::from_str("TokenType::End"),
            TokenType::Error => String::from_str("TokenType::Error"),
            TokenType::IntKeyword => String::from_str("TokenType::IntKeyword"),
            TokenType::Identifier => String::from_str("TokenType::Identifier"),
            TokenType::OpenParen => String::from_str("TokenType::OpenParen"),
            TokenType::CloseParen => String::from_str("TokenType::CloseParen"),
            TokenType::OpenBracket => String::from_str("TokenType::OpenBracket"),
            TokenType::CloseBracket => String::from_str("TokenType::CloseBracket"),
            TokenType::ReturnKeyword => String::from_str("TokenType::ReturnKeyword"),
            TokenType::IntLiteral => String::from_str("TokenType::IntLiteral"),
            TokenType::SemiColon => String::from_str("TokenType::SemiColon"),
            TokenType::Negation => String::from_str("TokenType::Negation"),
            TokenType::BitwiseCompliment => String::from_str("TokenType::BitwiseCompliment"),
            TokenType::LogicalNegation => String::from_str("TokenType::LogicalNegation"),
        }
    }
}

} // verus!
