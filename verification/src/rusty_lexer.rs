//! The lexer: converts raw source text into an ordered sequence of typed
//! tokens.
//!
//! Identifiers and integer literals take the longest run of their character
//! class; the keywords `int` and `return ` (the latter including one
//! following space) win over a same-start identifier because they match a
//! longer or equally long exact substring; whitespace is skipped and
//! produces no token.  On text matching no category the lexer stops
//! immediately and hands back everything produced so far together with the
//! offending character.

use vstd::prelude::*;
use vstd::string::StrSliceExecFns;
use std::collections::VecDeque;

use crate::token::{Token, TokenData, TokenType};
use crate::chars::{
    is_space_char, is_digit_char, is_alpha_char, char_is_space, char_is_digit, char_is_alpha,
};

verus! {

/// Length of the run of decimal digits at the front of `s`.
pub open spec fn digit_run_len(s: Seq<char>) -> nat
    decreases s.len(),
{
    if s.len() == 0 || !is_digit_char(s[0]) {
        0
    } else {
        1 + digit_run_len(s.skip(1))
    }
}

/// Length of the run of ASCII letters at the front of `s`.
pub open spec fn alpha_run_len(s: Seq<char>) -> nat
    decreases s.len(),
{
    if s.len() == 0 || !is_alpha_char(s[0]) {
        0
    } else {
        1 + alpha_run_len(s.skip(1))
    }
}

/// The digit run is exactly the longest all-digit prefix.
pub proof fn lemma_digit_run_len(s: Seq<char>, n: int)
    requires
        0 <= n <= s.len(),
        forall|k: int| 0 <= k < n ==> is_digit_char(#[trigger] s[k]),
        n == s.len() || !is_digit_char(s[n]),
    ensures
        digit_run_len(s) == n,
    decreases n,
{
    if n > 0 {
        assert(forall|k: int| 0 <= k < n - 1 ==> #[trigger] s.skip(1)[k] == s[k + 1]);
        lemma_digit_run_len(s.skip(1), n - 1);
    }
}

/// The letter run is exactly the longest all-letter prefix.
pub proof fn lemma_alpha_run_len(s: Seq<char>, n: int)
    requires
        0 <= n <= s.len(),
        forall|k: int| 0 <= k < n ==> is_alpha_char(#[trigger] s[k]),
        n == s.len() || !is_alpha_char(s[n]),
    ensures
        alpha_run_len(s) == n,
    decreases n,
{
    if n > 0 {
        assert(forall|k: int| 0 <= k < n - 1 ==> #[trigger] s.skip(1)[k] == s[k + 1]);
        lemma_alpha_run_len(s.skip(1), n - 1);
    }
}

/// The eight single-character punctuation tokens.
pub open spec fn is_punct_char(c: char) -> bool {
    ||| c == '('
    ||| c == ')'
    ||| c == '{'
    ||| c == '}'
    ||| c == ';'
    ||| c == '-'
    ||| c == '~'
    ||| c == '!'
}

/// The token category of a punctuation character.
pub open spec fn punct_token_type(c: char) -> TokenType {
    if c == '(' {
        TokenType::OpenParen
    } else if c == ')' {
        TokenType::CloseParen
    } else if c == '{' {
        TokenType::OpenBracket
    } else if c == '}' {
        TokenType::CloseBracket
    } else if c == ';' {
        TokenType::SemiColon
    } else if c == '-' {
        TokenType::Negation
    } else if c == '~' {
        TokenType::BitwiseCompliment
    } else {
        TokenType::LogicalNegation
    }
}

/// Outcome of lexing: the tokens produced up to where scanning stopped, and
/// the offending character if it stopped on text matching no category.
#[verifier::ext_equal]
pub ghost struct LexV {
    pub tokens: Seq<TokenData>,
    pub error: Option<char>,
}

/// The token sequence of a source text.  Each step skips whitespace, takes
/// the longest digit or letter run, recognizes `int` and `return ` (with
/// its following space) in place of an identifier, or takes one punctuation
/// character; an unrecognized character stops scanning at that point.
pub open spec fn spec_lex(s: Seq<char>) -> LexV
    decreases s.len()
    via spec_lex_decreases
{
    if s.len() == 0 {
        LexV { tokens: Seq::empty(), error: None }
    } else if is_space_char(s[0]) {
        spec_lex(s.skip(1))
    } else if is_digit_char(s[0]) {
        let n = digit_run_len(s) as int;
        let rest = spec_lex(s.skip(n));
        LexV {
            tokens: seq![
                TokenData { token_type: TokenType::IntLiteral, text: s.take(n) },
            ] + rest.tokens,
            error: rest.error,
        }
    } else if is_alpha_char(s[0]) {
        let n = alpha_run_len(s) as int;
        let word = s.take(n);
        if word == "return"@ && n < s.len() && s[n] == ' ' {
            let rest = spec_lex(s.skip(n + 1));
            LexV {
                tokens: seq![
                    TokenData { token_type: TokenType::ReturnKeyword, text: s.take(n + 1) },
                ] + rest.tokens,
                error: rest.error,
            }
        } else {
            let category = if word == "int"@ {
                TokenType::IntKeyword
            } else {
                TokenType::Identifier
            };
            let rest = spec_lex(s.skip(n));
            LexV {
                tokens: seq![TokenData { token_type: category, text: word }] + rest.tokens,
                error: rest.error,
            }
        }
    } else if is_punct_char(s[0]) {
        let rest = spec_lex(s.skip(1));
        LexV {
            tokens: seq![
                TokenData { token_type: punct_token_type(s[0]), text: s.take(1) },
            ] + rest.tokens,
            error: rest.error,
        }
    } else {
        LexV { tokens: Seq::empty(), error: Some(s[0]) }
    }
}

/// A run never reaches past the end of the sequence.
proof fn lemma_digit_run_len_le(s: Seq<char>)
    ensures
        digit_run_len(s) <= s.len(),
    decreases s.len(),
{
    if s.len() > 0 && is_digit_char(s[0]) {
        lemma_digit_run_len_le(s.skip(1));
    }
}

/// A run never reaches past the end of the sequence.
proof fn lemma_alpha_run_len_le(s: Seq<char>)
    ensures
        alpha_run_len(s) <= s.len(),
    decreases s.len(),
{
    if s.len() > 0 && is_alpha_char(s[0]) {
        lemma_alpha_run_len_le(s.skip(1));
    }
}

#[via_fn]
proof fn spec_lex_decreases(s: Seq<char>) {
    if s.len() > 0 {
        if is_digit_char(s[0]) {
            assert(digit_run_len(s) >= 1);
            lemma_digit_run_len_le(s);
        } else if is_alpha_char(s[0]) {
            assert(alpha_run_len(s) >= 1);
            lemma_alpha_run_len_le(s);
        }
    }
}

/// First position at or after `from` whose character is not a decimal digit.
fn scan_digits(s: &str, from: usize, len: usize) -> (j: usize)
    requires
        from <= s@.len(),
        len == s@.len(),
    ensures
        from <= j <= s@.len(),
        forall|k: int| from <= k < j ==> is_digit_char(#[trigger] s@[k]),
        j == s@.len() || !is_digit_char(s@[j as int]),
{
    let mut j = from;
    while j < len
        invariant
            from <= j <= len,
            len == s@.len(),
            forall|k: int| from <= k < j ==> is_digit_char(#[trigger] s@[k]),
        decreases len - j,
    {
        if !char_is_digit(s.get_char(j)) {
            return j;
        }
        j = j + 1;
    }
    j
}

/// First position at or after `from` whose character is not an ASCII letter.
fn scan_alphas(s: &str, from: usize, len: usize) -> (j: usize)
    requires
        from <= s@.len(),
        len == s@.len(),
    ensures
        from <= j <= s@.len(),
        forall|k: int| from <= k < j ==> is_alpha_char(#[trigger] s@[k]),
        j == s@.len() || !is_alpha_char(s@[j as int]),
{
    let mut j = from;
    while j < len
        invariant
            from <= j <= len,
            len == s@.len(),
            forall|k: int| from <= k < j ==> is_alpha_char(#[trigger] s@[k]),
        decreases len - j,
    {
        if !char_is_alpha(s.get_char(j)) {
            return j;
        }
        j = j + 1;
    }
    j
}

/// Whether the characters of `s` from `from` (inclusive) to `to`
/// (exclusive) are exactly the word `w`.
fn segment_equals(s: &str, from: usize, to: usize, w: &str) -> (b: bool)
    requires
        from <= to <= s@.len(),
    ensures
        b == (s@.subrange(from as int, to as int) == w@),
{
    let n = w.unicode_len();
    if to - from != n {
        proof {
            assert(s@.subrange(from as int, to as int).len() != w@.len());
        }
        return false;
    }
    let mut k: usize = 0;
    while k < n
        invariant
            k <= n,
            n == w@.len(),
            to - from == n,
            from <= to <= s@.len(),
            forall|t: int| 0 <= t < k ==> s@[from + t] == w@[t],
        decreases n - k,
    {
        if s.get_char(from + k) != w.get_char(k) {
            proof {
                assert(s@.subrange(from as int, to as int)[k as int] == s@[from + k]);
            }
            return false;
        }
        k = k + 1;
    }
    proof {
        assert(s@.subrange(from as int, to as int) =~= w@);
    }
    true
}

/// The lexer.  It retains no state: each call scans one source text.
pub struct RustyLexer {}

/// What a lexing run produced: the tokens up to where scanning stopped, and
/// the unrecognized character if it stopped early.  The tokens stay
/// available to the caller even when an error is reported.
pub struct LexOutput {
    pub tokens: VecDeque<Token>,
    pub error: Option<char>,
}

impl RustyLexer {
    /// Scans the whole source text front to back.
    #[verifier::rlimit(100)]
    pub fn parse(contents: &str) -> (r: LexOutput)
        ensures
            r.tokens.deep_view() == spec_lex(contents@).tokens,
            r.error == spec_lex(contents@).error,
    {
        let len = contents.unicode_len();
        let mut tokens: VecDeque<Token> = VecDeque::new();
        let mut i: usize = 0;
        proof {
            assert(contents@.skip(0) =~= contents@);
            assert(tokens.deep_view() =~= Seq::<TokenData>::empty());
            assert(spec_lex(contents@).tokens =~= tokens.deep_view() + spec_lex(
                contents@.skip(0),
            ).tokens);
        }
        #[verifier::loop_isolation(false)]
        while i < len
            invariant
                i <= len,
                len == contents@.len(),
                spec_lex(contents@).tokens == tokens.deep_view() + spec_lex(
                    contents@.skip(i as int),
                ).tokens,
                spec_lex(contents@).error == spec_lex(contents@.skip(i as int)).error,
            decreases len - i,
        {
            let ghost suffix = contents@.skip(i as int);
            let ghost pre = tokens.deep_view();
            let c = contents.get_char(i);
            proof {
                assert(suffix[0] == contents@[i as int]);
            }
            if char_is_space(c) {
                i = i + 1;
                proof {
                    assert(contents@.skip(i as int) =~= suffix.skip(1));
                }
            } else if char_is_digit(c) {
                let j = scan_digits(contents, i + 1, len);
                let text = contents.substring_char(i, j);
                tokens.push_back(Token::new(&TokenType::IntLiteral, text));
                proof {
                    assert(forall|k: int| 0 <= k < j - i ==> #[trigger] suffix[k] == contents@[
                        i + k
                    ]);
                    lemma_digit_run_len(suffix, j - i);
                    assert(suffix.take(j - i) =~= contents@.subrange(i as int, j as int));
                    assert(suffix.skip(j - i) =~= contents@.skip(j as int));
                    assert(tokens.deep_view() =~= pre.push(
                        TokenData { token_type: TokenType::IntLiteral, text: suffix.take(j - i) },
                    ));
                    assert(spec_lex(contents@).tokens =~= tokens.deep_view() + spec_lex(
                        contents@.skip(j as int),
                    ).tokens);
                }
                i = j;
            } else if char_is_alpha(c) {
                let j = scan_alphas(contents, i + 1, len);
                proof {
                    assert(forall|k: int| 0 <= k < j - i ==> #[trigger] suffix[k] == contents@[
                        i + k
                    ]);
                    lemma_alpha_run_len(suffix, j - i);
                    assert(suffix.take(j - i) =~= contents@.subrange(i as int, j as int));
                    assert(suffix.skip(j - i) =~= contents@.skip(j as int));
                }
                if segment_equals(contents, i, j, "return") && j < len && contents.get_char(j)
                    == ' ' {
                    let text = contents.substring_char(i, j + 1);
                    tokens.push_back(Token::new(&TokenType::ReturnKeyword, text));
                    proof {
                        assert(suffix.take(j - i + 1) =~= contents@.subrange(
                            i as int,
                            j as int + 1,
                        ));
                        assert(suffix.skip(j - i + 1) =~= contents@.skip(j as int + 1));
                        assert(tokens.deep_view() =~= pre.push(
                            TokenData {
                                token_type: TokenType::ReturnKeyword,
                                text: suffix.take(j - i + 1),
                            },
                        ));
                        assert(spec_lex(contents@).tokens =~= tokens.deep_view() + spec_lex(
                            contents@.skip(j as int + 1),
                        ).tokens);
                    }
                    i = j + 1;
                } else {
                    let category = if segment_equals(contents, i, j, "int") {
                        TokenType::IntKeyword
                    } else {
                        TokenType::Identifier
                    };
                    let text = contents.substring_char(i, j);
                    tokens.push_back(Token::new(&category, text));
                    proof {
                        assert(tokens.deep_view() =~= pre.push(
                            TokenData { token_type: category, text: suffix.take(j - i) },
                        ));
                        assert(spec_lex(contents@).tokens =~= tokens.deep_view() + spec_lex(
                            contents@.skip(j as int),
                        ).tokens);
                    }
                    i = j;
                }
            } else {
                let category = if c == '(' {
                    TokenType::OpenParen
                } else if c == ')' {
                    TokenType::CloseParen
                } else if c == '{' {
                    TokenType::OpenBracket
                } else if c == '}' {
                    TokenType::CloseBracket
                } else if c == ';' {
                    TokenType::SemiColon
                } else if c == '-' {
                    TokenType::Negation
                } else if c == '~' {
                    TokenType::BitwiseCompliment
                } else if c == '!' {
                    TokenType::LogicalNegation
                } else {
                    return LexOutput { tokens, error: Some(c) };
                };
                let text = contents.substring_char(i, i + 1);
                tokens.push_back(Token::new(&category, text));
                proof {
                    assert(suffix.take(1) =~= contents@.subrange(i as int, i as int + 1));
                    assert(suffix.skip(1) =~= contents@.skip(i as int + 1));
                    assert(tokens.deep_view() =~= pre.push(
                        TokenData { token_type: category, text: suffix.take(1) },
                    ));
                    assert(spec_lex(contents@).tokens =~= tokens.deep_view() + spec_lex(
                        contents@.skip(i as int + 1),
                    ).tokens);
                }
                i = i + 1;
            }
        }
        proof {
            assert(contents@.skip(i as int) =~= Seq::<char>::empty());
            assert(spec_lex(contents@).tokens =~= tokens.deep_view());
        }
        LexOutput { tokens, error: None }
    }
}

} // verus!
