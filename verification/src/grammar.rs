//! The grammar of the language, written as spec functions: for every
//! position in a token stream, which node each rule of the recursive
//! descent yields, where it leaves the cursor, and which diagnostics are
//! recorded. The parser is proved equal to these functions rule by rule,
//! so parsing — statements, diagnostics and recovery included — is a pure
//! function of the token stream.
//!
//! Each rule's second decreases component is a rank ordering the rules
//! that call one another without consuming a token; the guards comparing
//! returned positions to entry positions keep the definitions well-founded
//! and are never reached on a real run, since every rule moves the cursor
//! forward.

use crate::expr::ExprM;
use crate::loxresult::SigM;
use crate::stmt::StmtM;
use crate::token::{LitM, TokM, Token, TokenType};
use vstd::prelude::*;

verus! {


/// The type tag of the token at a position.
pub open spec fn pk(toks: Seq<Token>, i: int) -> TokenType {
    toks[i].token_type
}

/// A well-formed token stream: nonempty and ending with the end-of-input
/// marker, as the scanner guarantees.
pub open spec fn wf_tokens(toks: Seq<Token>) -> bool {
    toks.len() >= 1 && toks[toks.len() - 1].token_type == TokenType::Eof
}

pub open spec fn parse_err(toks: Seq<Token>, i: int, msg: Seq<char>) -> SigM {
    SigM::ParseErr { token: toks[i]@, msg }
}

/// `primary`: literals, grouping, identifiers; anything else is the
/// `Expect expression` error at the offending token.
#[verifier::opaque]
pub open spec fn sp_primary(toks: Seq<Token>, i: int) -> (Result<ExprM, SigM>, int)
    decreases toks.len() - i, 0int,
{
    if i < 0 || i >= toks.len() {
        (Err(parse_err(toks, i, "Expect expression"@)), i)
    } else {
        if pk(toks, i) == TokenType::False {
            (Ok(ExprM::Literal { value: LitM::Bool(false) }), i + 1)
        } else if pk(toks, i) == TokenType::True {
            (Ok(ExprM::Literal { value: LitM::Bool(true) }), i + 1)
        } else if pk(toks, i) == TokenType::Nil {
            (Ok(ExprM::Literal { value: LitM::Nil }), i + 1)
        } else if pk(toks, i) == TokenType::Number || pk(toks, i) == TokenType::Str {
            match toks[i]@.literal {
                Some(l) => (Ok(ExprM::Literal { value: l }), i + 1),
                None => (Err(parse_err(toks, i, "Expect expression"@)), i),
            }
        } else if pk(toks, i) == TokenType::Identifier {
            (Ok(ExprM::Variable { name: toks[i]@ }), i + 1)
        } else if pk(toks, i) == TokenType::LeftParen {
            let (r, j) = sp_expression(toks, i + 1);
            match r {
                Ok(e) => if pk(toks, j) == TokenType::RightParen {
                    (Ok(ExprM::Grouping { expression: Box::new(e) }), j + 1)
                } else {
                    (Err(parse_err(toks, j, "Expect ')' after expression."@)), j)
                },
                Err(s) => (Err(s), j),
            }
        } else {
            (Err(parse_err(toks, i, "Expect expression"@)), i)
        }
    }
}

/// The postfix call loop: as long as a `(` follows, parse an argument
/// list.
#[verifier::opaque]
pub open spec fn sp_call(toks: Seq<Token>, i: int) -> (Result<ExprM, SigM>, int)
    decreases toks.len() - i, 2int,
{
    if i < 0 || i >= toks.len() {
        (Err(parse_err(toks, i, "Expect expression"@)), i)
    } else {
        let (r, j) = sp_primary(toks, i);
        match r {
            Ok(e) => if j < i || toks.len() < j {
                (Ok(e), j)
            } else {
                sp_call_rest(toks, j, e)
            },
            Err(s) => (Err(s), j),
        }
    }
}

#[verifier::opaque]
pub open spec fn sp_call_rest(toks: Seq<Token>, i: int, callee: ExprM) -> (
    Result<ExprM, SigM>,
    int,
)
    decreases toks.len() - i, 1int,
{
    if i < 0 || i >= toks.len() {
        (Err(parse_err(toks, i, "Expect expression"@)), i)
    } else {
        if pk(toks, i) == TokenType::LeftParen {
            let (r, j) = sp_finish_call(toks, i + 1, callee);
            match r {
                Ok(e) => if j <= i || toks.len() < j {
                    (Ok(e), j)
                } else {
                    sp_call_rest(toks, j, e)
                },
                Err(s) => (Err(s), j),
            }
        } else {
            (Ok(callee), i)
        }
    }
}

/// The argument list after the opening `(`: expressions separated by
/// commas, at most 255 of them, closed by `)`.
#[verifier::opaque]
pub open spec fn sp_finish_call(toks: Seq<Token>, i: int, callee: ExprM) -> (
    Result<ExprM, SigM>,
    int,
)
    decreases toks.len() - i, 19int,
{
    if i < 0 || i >= toks.len() {
        (Err(parse_err(toks, i, "Expect expression"@)), i)
    } else {
        if pk(toks, i) == TokenType::RightParen {
            (
                Ok(
                    ExprM::Call {
                        callee: Box::new(callee),
                        paren: toks[i]@,
                        arguments: Seq::empty(),
                    },
                ),
                i + 1,
            )
        } else {
            let (r, j) = sp_expression(toks, i);
            match r {
                Ok(a0) => if j < i || toks.len() < j {
                    (Err(parse_err(toks, j, "Expect ')' after arguments."@)), j)
                } else {
                    sp_args_rest(toks, j, callee, seq![a0])
                },
                Err(s) => (Err(s), j),
            }
        }
    }
}

#[verifier::opaque]
pub open spec fn sp_args_rest(toks: Seq<Token>, i: int, callee: ExprM, args: Seq<ExprM>) -> (
    Result<ExprM, SigM>,
    int,
)
    decreases toks.len() - i, 16int,
{
    if i < 0 || i >= toks.len() {
        (Err(parse_err(toks, i, "Expect expression"@)), i)
    } else {
        if pk(toks, i) == TokenType::Comma {
            if args.len() >= 255 {
                (Err(parse_err(toks, i + 1, "Can't have more than 255 parameters."@)), i + 1)
            } else {
                let (r, j) = sp_expression(toks, i + 1);
                match r {
                    Ok(a) => if j <= i || toks.len() < j {
                        (Err(parse_err(toks, j, "Expect ')' after arguments."@)), j)
                    } else {
                        sp_args_rest(toks, j, callee, args.push(a))
                    },
                    Err(s) => (Err(s), j),
                }
            }
        } else if pk(toks, i) == TokenType::RightParen {
            (
                Ok(ExprM::Call { callee: Box::new(callee), paren: toks[i]@, arguments: args }),
                i + 1,
            )
        } else {
            (Err(parse_err(toks, i, "Expect ')' after arguments."@)), i)
        }
    }
}

/// `unary`: `!` and `-` bind tighter than any binary operator.
#[verifier::opaque]
pub open spec fn sp_unary(toks: Seq<Token>, i: int) -> (Result<ExprM, SigM>, int)
    decreases toks.len() - i, 3int,
{
    if i < 0 || i >= toks.len() {
        (Err(parse_err(toks, i, "Expect expression"@)), i)
    } else {
        if pk(toks, i) == TokenType::Bang || pk(toks, i) == TokenType::Minus {
            let (r, j) = sp_unary(toks, i + 1);
            match r {
                Ok(e) => (Ok(ExprM::Unary { operator: toks[i]@, right: Box::new(e) }), j),
                Err(s) => (Err(s), j),
            }
        } else {
            sp_call(toks, i)
        }
    }
}

#[verifier::opaque]
pub open spec fn sp_factor(toks: Seq<Token>, i: int) -> (Result<ExprM, SigM>, int)
    decreases toks.len() - i, 5int,
{
    if i < 0 || i >= toks.len() {
        (Err(parse_err(toks, i, "Expect expression"@)), i)
    } else {
        let (r, j) = sp_unary(toks, i);
        match r {
            Ok(e) => if j < i || toks.len() < j {
                (Ok(e), j)
            } else {
                sp_factor_rest(toks, j, e)
            },
            Err(s) => (Err(s), j),
        }
    }
}

#[verifier::opaque]
pub open spec fn sp_factor_rest(toks: Seq<Token>, i: int, left: ExprM) -> (
    Result<ExprM, SigM>,
    int,
)
    decreases toks.len() - i, 4int,
{
    if i < 0 || i >= toks.len() {
        (Err(parse_err(toks, i, "Expect expression"@)), i)
    } else {
        if pk(toks, i) == TokenType::Slash || pk(toks, i) == TokenType::Star {
            let (r, j) = sp_unary(toks, i + 1);
            match r {
                Ok(e) => {
                    let built = ExprM::Binary {
                        left: Box::new(left),
                        operator: toks[i]@,
                        right: Box::new(e),
                    };
                    if j <= i || toks.len() < j {
                        (Ok(built), j)
                    } else {
                        sp_factor_rest(toks, j, built)
                    }
                },
                Err(s) => (Err(s), j),
            }
        } else {
            (Ok(left), i)
        }
    }
}

#[verifier::opaque]
pub open spec fn sp_term(toks: Seq<Token>, i: int) -> (Result<ExprM, SigM>, int)
    decreases toks.len() - i, 7int,
{
    if i < 0 || i >= toks.len() {
        (Err(parse_err(toks, i, "Expect expression"@)), i)
    } else {
        let (r, j) = sp_factor(toks, i);
        match r {
            Ok(e) => if j < i || toks.len() < j {
                (Ok(e), j)
            } else {
                sp_term_rest(toks, j, e)
            },
            Err(s) => (Err(s), j),
        }
    }
}

#[verifier::opaque]
pub open spec fn sp_term_rest(toks: Seq<Token>, i: int, left: ExprM) -> (Result<ExprM, SigM>, int)
    decreases toks.len() - i, 6int,
{
    if i < 0 || i >= toks.len() {
        (Err(parse_err(toks, i, "Expect expression"@)), i)
    } else {
        if pk(toks, i) == TokenType::Minus || pk(toks, i) == TokenType::Plus {
            let (r, j) = sp_factor(toks, i + 1);
            match r {
                Ok(e) => {
                    let built = ExprM::Binary {
                        left: Box::new(left),
                        operator: toks[i]@,
                        right: Box::new(e),
                    };
                    if j <= i || toks.len() < j {
                        (Ok(built), j)
                    } else {
                        sp_term_rest(toks, j, built)
                    }
                },
                Err(s) => (Err(s), j),
            }
        } else {
            (Ok(left), i)
        }
    }
}

#[verifier::opaque]
pub open spec fn sp_comparison(toks: Seq<Token>, i: int) -> (Result<ExprM, SigM>, int)
    decreases toks.len() - i, 9int,
{
    if i < 0 || i >= toks.len() {
        (Err(parse_err(toks, i, "Expect expression"@)), i)
    } else {
        let (r, j) = sp_term(toks, i);
        match r {
            Ok(e) => if j < i || toks.len() < j {
                (Ok(e), j)
            } else {
                sp_comparison_rest(toks, j, e)
            },
            Err(s) => (Err(s), j),
        }
    }
}

#[verifier::opaque]
pub open spec fn sp_comparison_rest(toks: Seq<Token>, i: int, left: ExprM) -> (
    Result<ExprM, SigM>,
    int,
)
    decreases toks.len() - i, 8int,
{
    if i < 0 || i >= toks.len() {
        (Err(parse_err(toks, i, "Expect expression"@)), i)
    } else {
        if pk(toks, i) == TokenType::Greater || pk(toks, i) == TokenType::GreaterEqual || pk(toks, i)
            == TokenType::Less || pk(toks, i) == TokenType::LessEqual {
            let (r, j) = sp_term(toks, i + 1);
            match r {
                Ok(e) => {
                    let built = ExprM::Binary {
                        left: Box::new(left),
                        operator: toks[i]@,
                        right: Box::new(e),
                    };
                    if j <= i || toks.len() < j {
                        (Ok(built), j)
                    } else {
                        sp_comparison_rest(toks, j, built)
                    }
                },
                Err(s) => (Err(s), j),
            }
        } else {
            (Ok(left), i)
        }
    }
}

#[verifier::opaque]
pub open spec fn sp_equality(toks: Seq<Token>, i: int) -> (Result<ExprM, SigM>, int)
    decreases toks.len() - i, 11int,
{
    if i < 0 || i >= toks.len() {
        (Err(parse_err(toks, i, "Expect expression"@)), i)
    } else {
        let (r, j) = sp_comparison(toks, i);
        match r {
            Ok(e) => if j < i || toks.len() < j {
                (Ok(e), j)
            } else {
                sp_equality_rest(toks, j, e)
            },
            Err(s) => (Err(s), j),
        }
    }
}

#[verifier::opaque]
pub open spec fn sp_equality_rest(toks: Seq<Token>, i: int, left: ExprM) -> (
    Result<ExprM, SigM>,
    int,
)
    decreases toks.len() - i, 10int,
{
    if i < 0 || i >= toks.len() {
        (Err(parse_err(toks, i, "Expect expression"@)), i)
    } else {
        if pk(toks, i) == TokenType::BangEqual || pk(toks, i) == TokenType::EqualEqual {
            let (r, j) = sp_comparison(toks, i + 1);
            match r {
                Ok(e) => {
                    let built = ExprM::Binary {
                        left: Box::new(left),
                        operator: toks[i]@,
                        right: Box::new(e),
                    };
                    if j <= i || toks.len() < j {
                        (Ok(built), j)
                    } else {
                        sp_equality_rest(toks, j, built)
                    }
                },
                Err(s) => (Err(s), j),
            }
        } else {
            (Ok(left), i)
        }
    }
}

#[verifier::opaque]
pub open spec fn sp_and(toks: Seq<Token>, i: int) -> (Result<ExprM, SigM>, int)
    decreases toks.len() - i, 13int,
{
    if i < 0 || i >= toks.len() {
        (Err(parse_err(toks, i, "Expect expression"@)), i)
    } else {
        let (r, j) = sp_equality(toks, i);
        match r {
            Ok(e) => if j < i || toks.len() < j {
                (Ok(e), j)
            } else {
                sp_and_rest(toks, j, e)
            },
            Err(s) => (Err(s), j),
        }
    }
}

#[verifier::opaque]
pub open spec fn sp_and_rest(toks: Seq<Token>, i: int, left: ExprM) -> (Result<ExprM, SigM>, int)
    decreases toks.len() - i, 12int,
{
    if i < 0 || i >= toks.len() {
        (Err(parse_err(toks, i, "Expect expression"@)), i)
    } else {
        if pk(toks, i) == TokenType::And {
            let (r, j) = sp_equality(toks, i + 1);
            match r {
                Ok(e) => {
                    let built = ExprM::Logical {
                        left: Box::new(left),
                        operator: toks[i]@,
                        right: Box::new(e),
                    };
                    if j <= i || toks.len() < j {
                        (Ok(built), j)
                    } else {
                        sp_and_rest(toks, j, built)
                    }
                },
                Err(s) => (Err(s), j),
            }
        } else {
            (Ok(left), i)
        }
    }
}

#[verifier::opaque]
pub open spec fn sp_or(toks: Seq<Token>, i: int) -> (Result<ExprM, SigM>, int)
    decreases toks.len() - i, 15int,
{
    if i < 0 || i >= toks.len() {
        (Err(parse_err(toks, i, "Expect expression"@)), i)
    } else {
        let (r, j) = sp_and(toks, i);
        match r {
            Ok(e) => if j < i || toks.len() < j {
                (Ok(e), j)
            } else {
                sp_or_rest(toks, j, e)
            },
            Err(s) => (Err(s), j),
        }
    }
}

#[verifier::opaque]
pub open spec fn sp_or_rest(toks: Seq<Token>, i: int, left: ExprM) -> (Result<ExprM, SigM>, int)
    decreases toks.len() - i, 14int,
{
    if i < 0 || i >= toks.len() {
        (Err(parse_err(toks, i, "Expect expression"@)), i)
    } else {
        if pk(toks, i) == TokenType::Or {
            let (r, j) = sp_and(toks, i + 1);
            match r {
                Ok(e) => {
                    let built = ExprM::Logical {
                        left: Box::new(left),
                        operator: toks[i]@,
                        right: Box::new(e),
                    };
                    if j <= i || toks.len() < j {
                        (Ok(built), j)
                    } else {
                        sp_or_rest(toks, j, built)
                    }
                },
                Err(s) => (Err(s), j),
            }
        } else {
            (Ok(left), i)
        }
    }
}

/// Assignment is right-associative, and its left-hand side must have
/// parsed as a plain variable reference; any other shape is the
/// `Invalid assignment target.` error at the `=` token.
#[verifier::opaque]
pub open spec fn sp_assignment(toks: Seq<Token>, i: int) -> (Result<ExprM, SigM>, int)
    decreases toks.len() - i, 17int,
{
    if i < 0 || i >= toks.len() {
        (Err(parse_err(toks, i, "Expect expression"@)), i)
    } else {
        let (r, j) = sp_or(toks, i);
        match r {
            Ok(e) => if pk(toks, j) == TokenType::Equal && i <= j && j < toks.len() {
                let (rv, k) = sp_assignment(toks, j + 1);
                match rv {
                    Ok(v) => match e {
                        ExprM::Variable { name } => (
                            Ok(ExprM::Assign { name, value: Box::new(v) }),
                            k,
                        ),
                        _ => (Err(parse_err(toks, j, "Invalid assignment target."@)), k),
                    },
                    Err(s) => (Err(s), k),
                }
            } else {
                (Ok(e), j)
            },
            Err(s) => (Err(s), j),
        }
    }
}

/// `expression` is the whole precedence ladder, from assignment down.
#[verifier::opaque]
pub open spec fn sp_expression(toks: Seq<Token>, i: int) -> (Result<ExprM, SigM>, int)
    decreases toks.len() - i, 18int,
{
    sp_assignment(toks, i)
}


/// Panic-mode recovery: skip the token at the error site, then discard
/// tokens until just past a semicolon or in front of a keyword that
/// begins a new declaration or statement.
pub open spec fn sp_synchronize(toks: Seq<Token>, i: int) -> int
    decreases toks.len() - i, 0int,
{
    if i < 0 || i >= toks.len() || pk(toks, i) == TokenType::Eof {
        i
    } else {
        sp_sync_loop(toks, i + 1)
    }
}

pub open spec fn sp_sync_loop(toks: Seq<Token>, i: int) -> int
    decreases toks.len() - i, 1int,
{
    if i < 1 || i >= toks.len() || pk(toks, i) == TokenType::Eof {
        i
    } else if pk(toks, i - 1) == TokenType::Semicolon {
        i
    } else if pk(toks, i) == TokenType::Class || pk(toks, i) == TokenType::Fun || pk(toks, i)
        == TokenType::Var || pk(toks, i) == TokenType::For || pk(toks, i) == TokenType::If || pk(
        toks,
        i,
    ) == TokenType::While || pk(toks, i) == TokenType::Print || pk(toks, i) == TokenType::Return {
        i
    } else {
        sp_sync_loop(toks, i + 1)
    }
}

/// `var NAME ( = initializer )? ;` — the position is just past the `var`
/// keyword.
#[verifier::opaque]
pub open spec fn sp_var_declaration(toks: Seq<Token>, i: int) -> (Result<StmtM, SigM>, int)
    decreases toks.len() - i, 20int,
{
    if i < 0 || i >= toks.len() {
        (Err(parse_err(toks, i, "Expect variable name."@)), i)
    } else if pk(toks, i) != TokenType::Identifier {
        (Err(parse_err(toks, i, "Expect variable name."@)), i)
    } else {
        let name = toks[i]@;
        if pk(toks, i + 1) == TokenType::Equal && i + 2 <= toks.len() {
            let (r, j) = sp_expression(toks, i + 2);
            match r {
                Ok(e) => if pk(toks, j) == TokenType::Semicolon {
                    (
                        Ok(StmtM::Var { name, initializer: Some(Box::new(e)) }),
                        j + 1,
                    )
                } else {
                    (
                        Err(parse_err(toks, j, "Expect ';' after variable declaration."@)),
                        j,
                    )
                },
                Err(sg) => (Err(sg), j),
            }
        } else {
            if pk(toks, i + 1) == TokenType::Semicolon {
                (Ok(StmtM::Var { name, initializer: None }), i + 2)
            } else {
                (
                    Err(parse_err(toks, i + 1, "Expect ';' after variable declaration."@)),
                    i + 1,
                )
            }
        }
    }
}

/// `print expression ;` — the position is just past the `print` keyword.
#[verifier::opaque]
pub open spec fn sp_print_statement(toks: Seq<Token>, i: int) -> (Result<StmtM, SigM>, int)
    decreases toks.len() - i, 20int,
{
    let (r, j) = sp_expression(toks, i);
    match r {
        Ok(e) => if pk(toks, j) == TokenType::Semicolon {
            (Ok(StmtM::Print { expression: Box::new(e) }), j + 1)
        } else {
            (Err(parse_err(toks, j, "Expect ';' after value"@)), j)
        },
        Err(sg) => (Err(sg), j),
    }
}

/// `expression ;` as a statement.
#[verifier::opaque]
pub open spec fn sp_expression_statement(toks: Seq<Token>, i: int) -> (Result<StmtM, SigM>, int)
    decreases toks.len() - i, 20int,
{
    let (r, j) = sp_expression(toks, i);
    match r {
        Ok(e) => if pk(toks, j) == TokenType::Semicolon {
            (Ok(StmtM::Expression { expression: Box::new(e) }), j + 1)
        } else {
            (Err(parse_err(toks, j, "Expect ';' after value"@)), j)
        },
        Err(sg) => (Err(sg), j),
    }
}

/// `return ( value )? ;` — the position is at the `return` keyword itself,
/// which the node records.
#[verifier::opaque]
pub open spec fn sp_return_statement(toks: Seq<Token>, i: int) -> (Result<StmtM, SigM>, int)
    decreases toks.len() - i, 20int,
{
    if i < 0 || i >= toks.len() {
        (Err(parse_err(toks, i, "Expect ';' after return value"@)), i)
    } else {
        let keyword = toks[i]@;
        if pk(toks, i + 1) == TokenType::Semicolon {
            (Ok(StmtM::Return { keyword, value: None }), i + 2)
        } else {
            let (r, j) = sp_expression(toks, i + 1);
            match r {
                Ok(e) => if pk(toks, j) == TokenType::Semicolon {
                    (
                        Ok(StmtM::Return { keyword, value: Some(Box::new(e)) }),
                        j + 1,
                    )
                } else {
                    (Err(parse_err(toks, j, "Expect ';' after return value"@)), j)
                },
                Err(sg) => (Err(sg), j),
            }
        }
    }
}

/// `while ( condition ) body` — the position is just past the `while`
/// keyword.
#[verifier::opaque]
pub open spec fn sp_while_statement(toks: Seq<Token>, i: int) -> (
    Result<StmtM, SigM>,
    Seq<SigM>,
    int,
)
    decreases toks.len() - i, 20int,
{
    if i < 0 || i >= toks.len() {
        (Err(parse_err(toks, i, "Expect '(' after 'while'."@)), Seq::empty(), i)
    } else if pk(toks, i) != TokenType::LeftParen {
        (Err(parse_err(toks, i, "Expect '(' after 'while'."@)), Seq::empty(), i)
    } else {
        let (r, j) = sp_expression(toks, i + 1);
        match r {
            Ok(c) => if j <= i || toks.len() <= j || pk(toks, j) != TokenType::RightParen {
                (Err(parse_err(toks, j, "Expect ')' after condition."@)), Seq::empty(), j)
            } else {
                let (b, errs, k) = sp_statement(toks, j + 1);
                match b {
                    Ok(body) => (
                        Ok(
                            StmtM::While {
                                condition: Box::new(c),
                                body: Box::new(body),
                            },
                        ),
                        errs,
                        k,
                    ),
                    Err(sg) => (Err(sg), errs, k),
                }
            },
            Err(sg) => (Err(sg), Seq::empty(), j),
        }
    }
}

/// `if ( condition ) then ( else other )?` — the position is just past the
/// `if` keyword.
#[verifier::opaque]
pub open spec fn sp_if_statement(toks: Seq<Token>, i: int) -> (Result<StmtM, SigM>, Seq<SigM>, int)
    decreases toks.len() - i, 20int,
{
    if i < 0 || i >= toks.len() {
        (Err(parse_err(toks, i, "Expect '(' after 'if'."@)), Seq::empty(), i)
    } else if pk(toks, i) != TokenType::LeftParen {
        (Err(parse_err(toks, i, "Expect '(' after 'if'."@)), Seq::empty(), i)
    } else {
        let (r, j) = sp_expression(toks, i + 1);
        match r {
            Ok(c) => if j <= i || toks.len() <= j || pk(toks, j) != TokenType::RightParen {
                (Err(parse_err(toks, j, "Expect ')' after if condition."@)), Seq::empty(), j)
            } else {
                let (b, errs, k) = sp_statement(toks, j + 1);
                match b {
                    Ok(then_branch) => if i <= k && k < toks.len() && pk(toks, k)
                        == TokenType::Else {
                        let (b2, errs2, m) = sp_statement(toks, k + 1);
                        match b2 {
                            Ok(els) => (
                                Ok(
                                    StmtM::If {
                                        condition: Box::new(c),
                                        then_branch: Box::new(then_branch),
                                        else_branch: Some(Box::new(els)),
                                    },
                                ),
                                errs + errs2,
                                m,
                            ),
                            Err(sg) => (Err(sg), errs + errs2, m),
                        }
                    } else {
                        (
                            Ok(
                                StmtM::If {
                                    condition: Box::new(c),
                                    then_branch: Box::new(then_branch),
                                    else_branch: None,
                                },
                            ),
                            errs,
                            k,
                        )
                    },
                    Err(sg) => (Err(sg), errs, k),
                }
            },
            Err(sg) => (Err(sg), Seq::empty(), j),
        }
    }
}

/// `for ( init ; cond ; incr ) body`, desugared at parse time into a block
/// holding the initializer and a `while` loop whose body runs the original
/// body and then the increment; a missing condition becomes the literal
/// `true`.
#[verifier::opaque]
pub open spec fn sp_for_statement(toks: Seq<Token>, i: int) -> (
    Result<StmtM, SigM>,
    Seq<SigM>,
    int,
)
    decreases toks.len() - i, 20int,
{
    if i < 0 || i >= toks.len() {
        (Err(parse_err(toks, i, "Expect '(' after 'for'."@)), Seq::empty(), i)
    } else if pk(toks, i) != TokenType::LeftParen {
        (Err(parse_err(toks, i, "Expect '(' after 'for'."@)), Seq::empty(), i)
    } else {
        let p = i + 1;
        let init_step: (Result<Option<StmtM>, SigM>, int) = if p < toks.len() && pk(toks, p)
            == TokenType::Semicolon {
            (Ok(None), p + 1)
        } else if p < toks.len() && pk(toks, p) == TokenType::Var {
            let (r, j) = sp_var_declaration(toks, p + 1);
            match r {
                Ok(st) => (Ok(Some(st)), j),
                Err(sg) => (Err(sg), j),
            }
        } else {
            let (r, j) = sp_expression_statement(toks, p);
            match r {
                Ok(st) => (Ok(Some(st)), j),
                Err(sg) => (Err(sg), j),
            }
        };
        match init_step.0 {
            Err(sg) => (Err(sg), Seq::empty(), init_step.1),
            Ok(initializer) => {
                let j = init_step.1;
                if j <= i || toks.len() <= j {
                    (
                        Err(parse_err(toks, j, "Expect ';' after loop condition."@)),
                        Seq::empty(),
                        j,
                    )
                } else {
                    let cond_step: (Result<Option<ExprM>, SigM>, int) = if pk(toks, j)
                        == TokenType::Semicolon {
                        (Ok(None), j)
                    } else {
                        let (r, k) = sp_expression(toks, j);
                        match r {
                            Ok(c) => (Ok(Some(c)), k),
                            Err(sg) => (Err(sg), k),
                        }
                    };
                    match cond_step.0 {
                        Err(sg) => (Err(sg), Seq::empty(), cond_step.1),
                        Ok(condition) => {
                            let k = cond_step.1;
                            if k < i || toks.len() <= k || pk(toks, k) != TokenType::Semicolon {
                                (
                                    Err(
                                        parse_err(
                                            toks,
                                            k,
                                            "Expect ';' after loop condition."@,
                                        ),
                                    ),
                                    Seq::empty(),
                                    k,
                                )
                            } else {
                                let k1 = k + 1;
                                let incr_step: (Result<Option<ExprM>, SigM>, int) = if k1
                                    < toks.len() && pk(toks, k1) != TokenType::RightParen {
                                    let (r, m) = sp_expression(toks, k1);
                                    match r {
                                        Ok(e) => (Ok(Some(e)), m),
                                        Err(sg) => (Err(sg), m),
                                    }
                                } else {
                                    (Ok(None), k1)
                                };
                                match incr_step.0 {
                                    Err(sg) => (Err(sg), Seq::empty(), incr_step.1),
                                    Ok(increment) => {
                                        let m = incr_step.1;
                                        if m < i || toks.len() <= m || pk(toks, m)
                                            != TokenType::RightParen {
                                            (
                                                Err(
                                                    parse_err(
                                                        toks,
                                                        m,
                                                        "Expect ')' after for clause."@,
                                                    ),
                                                ),
                                                Seq::empty(),
                                                m,
                                            )
                                        } else {
                                            let (b, errs, q) = sp_statement(toks, m + 1);
                                            match b {
                                                Ok(body) => {
                                                    let body1 = match increment {
                                                        Some(inc) => StmtM::Block {
                                                            statements: seq![
                                                                body,
                                                                StmtM::Expression {
                                                                    expression: Box::new(inc),
                                                                },
                                                            ],
                                                        },
                                                        None => body,
                                                    };
                                                    let cond1 = match condition {
                                                        Some(c) => c,
                                                        None => ExprM::Literal {
                                                            value: LitM::Bool(true),
                                                        },
                                                    };
                                                    let w = StmtM::While {
                                                        condition: Box::new(cond1),
                                                        body: Box::new(body1),
                                                    };
                                                    let result = match initializer {
                                                        Some(init) => StmtM::Block {
                                                            statements: seq![init, w],
                                                        },
                                                        None => w,
                                                    };
                                                    (Ok(result), errs, q)
                                                },
                                                Err(sg) => (Err(sg), errs, q),
                                            }
                                        }
                                    },
                                }
                            }
                        },
                    }
                }
            },
        }
    }
}

/// The parameter list of a function declaration: identifiers separated by
/// commas, at most 255 of them.
#[verifier::opaque]
pub open spec fn sp_param_list(toks: Seq<Token>, i: int, acc: Seq<TokM>) -> (
    Result<Seq<TokM>, SigM>,
    int,
)
    decreases toks.len() - i, 2int,
{
    if i < 0 || i >= toks.len() {
        (Err(parse_err(toks, i, "Expect parameter name."@)), i)
    } else if acc.len() >= 255 {
        (Err(parse_err(toks, i, "Can't have more than 255 parameters."@)), i)
    } else if pk(toks, i) != TokenType::Identifier {
        (Err(parse_err(toks, i, "Expect parameter name."@)), i)
    } else {
        let acc2 = acc.push(toks[i]@);
        if pk(toks, i + 1) == TokenType::Comma && i + 2 <= toks.len() {
            sp_param_list(toks, i + 2, acc2)
        } else {
            (Ok(acc2), i + 1)
        }
    }
}

/// `fun NAME ( params ) { body }` — the position is just past the `fun`
/// keyword.
#[verifier::opaque]
pub open spec fn sp_function(toks: Seq<Token>, i: int) -> (Result<StmtM, SigM>, Seq<SigM>, int)
    decreases toks.len() - i, 23int,
{
    if i < 0 || i >= toks.len() {
        (Err(parse_err(toks, i, "Expect '(' after function name."@)), Seq::empty(), i)
    } else if pk(toks, i) != TokenType::Identifier {
        (Err(parse_err(toks, i, "Expect '(' after function name."@)), Seq::empty(), i)
    } else {
        let name = toks[i]@;
        if pk(toks, i + 1) != TokenType::LeftParen {
            (
                Err(parse_err(toks, i + 1, "Expect '(' after function name."@)),
                Seq::empty(),
                i + 1,
            )
        } else {
            let params_step: (Result<Seq<TokM>, SigM>, int) = if i + 2 < toks.len() && pk(
                toks,
                i + 2,
            ) == TokenType::RightParen {
                (Ok(Seq::empty()), i + 2)
            } else {
                sp_param_list(toks, i + 2, Seq::empty())
            };
            let after = params_step.1;
            match params_step.0 {
                Err(sg) => (Err(sg), Seq::empty(), after),
                Ok(params) => if after < i || toks.len() <= after || pk(toks, after)
                    != TokenType::RightParen {
                    (
                        Err(parse_err(toks, after, "Expect ')' after parameters."@)),
                        Seq::empty(),
                        after,
                    )
                } else if toks.len() <= after + 1 || pk(toks, after + 1)
                    != TokenType::LeftBrace {
                    (
                        Err(
                            parse_err(toks, after + 1, "Expect '{' before function body"@),
                        ),
                        Seq::empty(),
                        after + 1,
                    )
                } else {
                    let (b, errs, q) = sp_block(toks, after + 2);
                    match b {
                        Ok(body) => (
                            Ok(StmtM::Function { name, params, body }),
                            errs,
                            q,
                        ),
                        Err(sg) => (Err(sg), errs, q),
                    }
                },
            }
        }
    }
}

/// The statements between `{` and `}`; inner malformed declarations are
/// recovered and recorded, a missing `}` is an error.
#[verifier::opaque]
pub open spec fn sp_block(toks: Seq<Token>, i: int) -> (Result<Seq<StmtM>, SigM>, Seq<SigM>, int)
    decreases toks.len() - i, 26int,
{
    if i < 0 || i >= toks.len() {
        (Err(parse_err(toks, i, "Expect '}' after a block"@)), Seq::empty(), i)
    } else if pk(toks, i) == TokenType::RightBrace {
        (Ok(Seq::empty()), Seq::empty(), i + 1)
    } else if pk(toks, i) == TokenType::Eof {
        (Err(parse_err(toks, i, "Expect '}' after a block"@)), Seq::empty(), i)
    } else {
        let (o, errs1, j) = sp_declaration(toks, i);
        let first: Seq<StmtM> = match o {
            Some(st) => seq![st],
            None => Seq::empty(),
        };
        if j <= i || toks.len() < j {
            (Err(parse_err(toks, i, "Expect '}' after a block"@)), errs1, j)
        } else {
            let (rest, errs2, k) = sp_block(toks, j);
            match rest {
                Ok(ss) => (Ok(first + ss), errs1 + errs2, k),
                Err(sg) => (Err(sg), errs1 + errs2, k),
            }
        }
    }
}

/// `declaration`: a function declaration, a variable declaration, or any
/// statement; on failure the error is recorded once and the parser
/// resynchronizes at the next statement boundary, contributing no
/// statement.
#[verifier::opaque]
pub open spec fn sp_declaration(toks: Seq<Token>, i: int) -> (Option<StmtM>, Seq<SigM>, int)
    decreases toks.len() - i, 24int,
{
    if i < 0 || i >= toks.len() {
        (None, Seq::empty(), i)
    } else if pk(toks, i) == TokenType::Fun {
        let (r, errs, j) = sp_function(toks, i + 1);
        match r {
            Ok(st) => (Some(st), errs, j),
            Err(sg) => (
                None,
                errs.push(sg),
                if i <= j && j <= toks.len() {
                    sp_synchronize(toks, j)
                } else {
                    j
                },
            ),
        }
    } else if pk(toks, i) == TokenType::Var {
        let (r, j) = sp_var_declaration(toks, i + 1);
        match r {
            Ok(st) => (Some(st), Seq::empty(), j),
            Err(sg) => (
                None,
                seq![sg],
                if i <= j && j <= toks.len() {
                    sp_synchronize(toks, j)
                } else {
                    j
                },
            ),
        }
    } else {
        let (r, errs, j) = sp_statement(toks, i);
        match r {
            Ok(st) => (Some(st), errs, j),
            Err(sg) => (
                None,
                errs.push(sg),
                if i <= j && j <= toks.len() {
                    sp_synchronize(toks, j)
                } else {
                    j
                },
            ),
        }
    }
}

/// `statement`: dispatch on the leading keyword, falling through to an
/// expression statement.
#[verifier::opaque]
pub open spec fn sp_statement(toks: Seq<Token>, i: int) -> (Result<StmtM, SigM>, Seq<SigM>, int)
    decreases toks.len() - i, 22int,
{
    if i < 0 || i >= toks.len() {
        (Err(parse_err(toks, i, "Expect expression"@)), Seq::empty(), i)
    } else if pk(toks, i) == TokenType::For {
        sp_for_statement(toks, i + 1)
    } else if pk(toks, i) == TokenType::If {
        sp_if_statement(toks, i + 1)
    } else if pk(toks, i) == TokenType::Print {
        let (r, j) = sp_print_statement(toks, i + 1);
        (r, Seq::empty(), j)
    } else if pk(toks, i) == TokenType::Return {
        let (r, j) = sp_return_statement(toks, i);
        (r, Seq::empty(), j)
    } else if pk(toks, i) == TokenType::While {
        sp_while_statement(toks, i + 1)
    } else if pk(toks, i) == TokenType::LeftBrace {
        let (r, errs, j) = sp_block(toks, i + 1);
        match r {
            Ok(ss) => (Ok(StmtM::Block { statements: ss }), errs, j),
            Err(sg) => (Err(sg), errs, j),
        }
    } else {
        let (r, j) = sp_expression_statement(toks, i);
        (r, Seq::empty(), j)
    }
}

/// The whole program: declarations until the end-of-input marker. Parsing
/// always runs to the end; failed statements contribute a recorded
/// diagnostic instead of a node.
#[verifier::opaque]
pub open spec fn sp_program(toks: Seq<Token>, i: int) -> (Seq<StmtM>, Seq<SigM>, int)
    decreases toks.len() - i, 28int,
{
    if i < 0 || i >= toks.len() || pk(toks, i) == TokenType::Eof {
        (Seq::empty(), Seq::empty(), i)
    } else {
        let (o, errs, j) = sp_declaration(toks, i);
        let first: Seq<StmtM> = match o {
            Some(st) => seq![st],
            None => Seq::empty(),
        };
        if j <= i || toks.len() < j {
            (first, errs, j)
        } else {
            let (rest, errs2, k) = sp_program(toks, j);
            (first + rest, errs + errs2, k)
        }
    }
}

/// What parsing a token stream yields: the statement list and the
/// diagnostics, in order.
pub open spec fn sp_parse(toks: Seq<Token>) -> (Seq<StmtM>, Seq<SigM>) {
    let (ss, errs, j) = sp_program(toks, 0);
    (ss, errs)
}


/// The sync scan never moves backwards.
pub proof fn lemma_sync_loop_ge(toks: Seq<Token>, k: int)
    ensures
        sp_sync_loop(toks, k) >= k,
    decreases toks.len() - k, 1int,
{
    if !(k < 1 || k >= toks.len() || pk(toks, k) == TokenType::Eof) && pk(toks, k - 1)
        != TokenType::Semicolon && !(pk(toks, k) == TokenType::Class || pk(toks, k)
        == TokenType::Fun || pk(toks, k) == TokenType::Var || pk(toks, k) == TokenType::For || pk(
        toks,
        k,
    ) == TokenType::If || pk(toks, k) == TokenType::While || pk(toks, k) == TokenType::Print || pk(
        toks,
        k,
    ) == TokenType::Return) {
        lemma_sync_loop_ge(toks, k + 1);
    }
}

} // verus!
