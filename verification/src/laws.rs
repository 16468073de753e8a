//! Properties of the translation that hold for every input, stated over the
//! specification-level parser and code generator that the executable
//! functions' contracts are pinned to.

use vstd::prelude::*;

use crate::token::{TokenData, TokenType};
use crate::chars::{
    dec_digits, is_alpha_char, is_digit_char, lemma_dec_digits_all_digits,
    lemma_digits_value_of_dec_digits,
};
use crate::ast::{
    ExprV, ReturnV, Parsed, is_unary_op, literal_converts, spec_parse_return, spec_asm_expr,
    spec_asm_op, spec_asm_return,
};
use crate::rusty_lexer::{
    LexV, spec_lex, lemma_alpha_run_len, lemma_digit_run_len, punct_token_type,
};

verus! {

/// For every value of the numeric domain, `return <N>;` with no unary
/// prefix parses to the bare literal and its code is exactly the
/// accumulator load of `N` followed by the return instruction — no other
/// instructions.
pub proof fn lemma_return_literal(v: int, rest: Seq<TokenData>)
    requires
        0 <= v <= i32::MAX,
    ensures
        ({
            let toks = seq![
                TokenData { token_type: TokenType::ReturnKeyword, text: "return "@ },
                TokenData { token_type: TokenType::IntLiteral, text: dec_digits(v as nat) },
                TokenData { token_type: TokenType::SemiColon, text: ";"@ },
            ] + rest;
            &&& spec_parse_return(toks) matches Parsed::Good { value, rest: left }
                && value == (ReturnV { expression: ExprV { ops: Seq::empty(), value: v } })
                && left == rest
            &&& spec_asm_return(ReturnV { expression: ExprV { ops: Seq::empty(), value: v } })
                == " movl $"@ + dec_digits(v as nat) + ", %eax\n"@ + " ret"@
        }),
{
    let toks = seq![
        TokenData { token_type: TokenType::ReturnKeyword, text: "return "@ },
        TokenData { token_type: TokenType::IntLiteral, text: dec_digits(v as nat) },
        TokenData { token_type: TokenType::SemiColon, text: ";"@ },
    ] + rest;
    lemma_dec_digits_all_digits(v as nat);
    lemma_digits_value_of_dec_digits(v as nat);
    let t1 = toks.skip(1);
    assert(t1[0] == toks[1]);
    assert(literal_converts(dec_digits(v as nat)));
    let t2 = t1.skip(1);
    assert(t2 =~= toks.skip(2));
    assert(t2[0] == toks[2]);
    let t3 = t2.skip(1);
    assert(t3 =~= rest);
    assert(spec_parse_return(toks) matches Parsed::Good { value, rest: left }
        && value == (ReturnV { expression: ExprV { ops: Seq::empty(), value: v } })
        && left == rest);
}

/// Lexing the statement `return <N>;`, with `<N>` the canonical decimal
/// rendering of any value of the numeric domain, yields exactly the keyword
/// token, the literal token and the semicolon, and no lexical error.
pub proof fn lemma_lex_return_statement(v: int)
    requires
        0 <= v <= i32::MAX,
    ensures
        ({
            let s = "return "@ + dec_digits(v as nat) + ";"@;
            spec_lex(s) == (LexV {
                tokens: seq![
                    TokenData { token_type: TokenType::ReturnKeyword, text: "return "@ },
                    TokenData { token_type: TokenType::IntLiteral, text: dec_digits(v as nat) },
                    TokenData { token_type: TokenType::SemiColon, text: ";"@ },
                ],
                error: None,
            })
        }),
{
    reveal_strlit("return ");
    reveal_strlit("return");
    reveal_strlit(";");
    let d = dec_digits(v as nat);
    lemma_dec_digits_all_digits(v as nat);
    let s = "return "@ + d + ";"@;
    assert(s[0] == 'r' && s[1] == 'e' && s[2] == 't' && s[3] == 'u' && s[4] == 'r' && s[5] == 'n'
        && s[6] == ' ');
    assert forall|k: int| 0 <= k < 6 implies is_alpha_char(#[trigger] s[k]) by {
        if k == 0 {
            assert(is_alpha_char('r'));
        } else if k == 1 {
            assert(is_alpha_char('e'));
        } else if k == 2 {
            assert(is_alpha_char('t'));
        } else if k == 3 {
            assert(is_alpha_char('u'));
        } else if k == 4 {
            assert(is_alpha_char('r'));
        } else {
            assert(is_alpha_char('n'));
        }
    }
    assert(!is_alpha_char(' '));
    lemma_alpha_run_len(s, 6);
    assert(s.take(6) =~= "return"@);
    assert(s.take(7) =~= "return "@);
    let s2 = s.skip(7);
    assert(s2 =~= d + ";"@);
    assert(s2[0] == d[0]);
    assert(is_digit_char(d[0]));
    assert(forall|k: int| 0 <= k < d.len() ==> is_digit_char(#[trigger] s2[k]) && s2[k] == d[k]);
    assert(s2[d.len() as int] == ';');
    assert(!is_digit_char(';'));
    lemma_digit_run_len(s2, d.len() as int);
    assert(s2.take(d.len() as int) =~= d);
    let s3 = s2.skip(d.len() as int);
    assert(s3 =~= ";"@);
    assert(s3[0] == ';');
    assert(punct_token_type(';') == TokenType::SemiColon);
    assert(s3.take(1) =~= ";"@);
    assert(s3.skip(1) =~= Seq::<char>::empty());
    assert(spec_lex(s3.skip(1)) == (LexV { tokens: Seq::<TokenData>::empty(), error: None }));
    assert(spec_lex(s3).tokens =~= seq![
        TokenData { token_type: TokenType::SemiColon, text: ";"@ },
    ]);
    assert(spec_lex(s2).tokens =~= seq![
        TokenData { token_type: TokenType::IntLiteral, text: d },
        TokenData { token_type: TokenType::SemiColon, text: ";"@ },
    ]);
    assert(spec_lex(s).tokens =~= seq![
        TokenData { token_type: TokenType::ReturnKeyword, text: "return "@ },
        TokenData { token_type: TokenType::IntLiteral, text: d },
        TokenData { token_type: TokenType::SemiColon, text: ";"@ },
    ]);
    assert(spec_lex(s).error is None);
    assert(spec_lex(s) =~~= (LexV {
        tokens: seq![
            TokenData { token_type: TokenType::ReturnKeyword, text: "return "@ },
            TokenData { token_type: TokenType::IntLiteral, text: dec_digits(v as nat) },
            TokenData { token_type: TokenType::SemiColon, text: ";"@ },
        ],
        error: None,
    }));
}

/// `return <N>;` from source text to assembly: for every value of the
/// numeric domain the statement lexes to three tokens, parses to the bare
/// literal `N`, and its code is exactly the accumulator load of `N`
/// followed by the return instruction — no other instructions.
pub proof fn lemma_return_statement_translation(v: int)
    requires
        0 <= v <= i32::MAX,
    ensures
        ({
            let s = "return "@ + dec_digits(v as nat) + ";"@;
            let lexed = spec_lex(s);
            &&& lexed.error is None
            &&& spec_parse_return(lexed.tokens) matches Parsed::Good { value, rest }
                && value == (ReturnV { expression: ExprV { ops: Seq::empty(), value: v } })
                && rest == Seq::<TokenData>::empty()
            &&& spec_asm_return(ReturnV { expression: ExprV { ops: Seq::empty(), value: v } })
                == " movl $"@ + dec_digits(v as nat) + ", %eax\n"@ + " ret"@
        }),
{
    lemma_lex_return_statement(v);
    lemma_return_literal(v, Seq::empty());
    let s = "return "@ + dec_digits(v as nat) + ";"@;
    assert(spec_lex(s).tokens =~= seq![
        TokenData { token_type: TokenType::ReturnKeyword, text: "return "@ },
        TokenData { token_type: TokenType::IntLiteral, text: dec_digits(v as nat) },
        TokenData { token_type: TokenType::SemiColon, text: ";"@ },
    ] + Seq::<TokenData>::empty());
}

/// Unary chains compose post-order: wrapping an expression in one more
/// unary operator emits the operand's code unchanged and appends that
/// operator's instructions after it, so operand code strictly precedes
/// operator code at every nesting level.
pub proof fn lemma_unary_postorder(op: TokenType, operand: ExprV)
    requires
        is_unary_op(op),
    ensures
        spec_asm_expr(ExprV { ops: seq![op] + operand.ops, value: operand.value })
            == spec_asm_expr(operand) + spec_asm_op(op),
{
    let whole = ExprV { ops: seq![op] + operand.ops, value: operand.value };
    assert(whole.ops[0] == op);
    assert(whole.ops.skip(1) =~= operand.ops);
    assert(ExprV { ops: whole.ops.skip(1), value: whole.value } =~= operand);
}

} // verus!
