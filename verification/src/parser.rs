//! A recursive-descent parser from tokens to the syntax tree of one function.
//!
//! The grammar is given by the spec functions `p_*`, each of which takes the
//! token kinds, what is known of scopes there (`Ctx`) and a position, and
//! gives the tree it reads there with the position after it (and, for
//! declarations and statements, the scopes after it), or the position and
//! message of the error. Positions
//! only move forward; where a rule reads on from a position that a sub-rule
//! returned, `fwd` states that it moved, which is what makes the definitions
//! terminate. The parser's methods are proved to compute these functions.
use vstd::prelude::*;
use std::collections::VecDeque;
use crate::ast::{Prog, Func, Param, ParamV, params_view, Decl, BlockItem, Stmt, Type, Expr, Unary, ProgV, FuncV, DeclV, BlockItemV, StmtV, ExprV, UnaryV, opt_expr_view, block_items_view, lemma_block_items_view_last};
use crate::lexer::{Token, TokenType, TokenTypeV, tokens_view, token_kind, token_name, push_token_name, copy_tokens};
use crate::symbols::{SymTab, Symbol, SymbolV, resolve};

verus! {

pub type Toks = Seq<TokenTypeV>;

/// Where parsing stopped, and why.
pub type PErr = (int, Seq<char>);

/// The scope of the function body's variables: a child of the global scope.
pub open spec fn func_scope() -> Seq<u32> {
    seq![1u32, 2u32]
}

pub open spec fn eof_msg() -> Seq<char> {
    "unexpected end of tokens"@
}

/// The token at `p`, or the end-of-input error there.
pub open spec fn tok(t: Toks, p: int) -> Result<TokenTypeV, PErr> {
    if 0 <= p < t.len() {
        Ok(t[p])
    } else {
        Err((p, eof_msg()))
    }
}

/// `q` lies after `p`, within the tokens.
pub open spec fn fwd(p: int, q: int, t: Toks) -> bool {
    p < q <= t.len()
}

pub open spec fn expect_msg(ty: TokenTypeV, actual: TokenTypeV) -> Seq<char> {
    token_name(ty) + " expected , actual "@ + token_name(actual)
}

/// The token at `p` must be `ty`; the position after it.
pub open spec fn p_expect(t: Toks, p: int, ty: TokenTypeV) -> Result<int, PErr> {
    match tok(t, p) {
        Ok(x) => if x == ty {
            Ok(p + 1)
        } else {
            Err((p, expect_msg(ty, x)))
        },
        Err(e) => Err(e),
    }
}

pub open spec fn bx(e: ExprV) -> Box<ExprV> {
    Box::new(e)
}

/// What the parser knows of scopes where it stands: the chain of open scopes,
/// innermost last; the variables declared so far, by scope and name; and the
/// number that the next block's scope gets.
pub struct Ctx {
    pub env: Seq<u32>,
    pub table: Map<(Seq<u32>, Seq<char>), SymbolV>,
    pub next: nat,
}

/// Where parsing starts: in the function's scope, with nothing declared; the
/// first block gets scope number 3.
pub open spec fn init_ctx() -> Ctx {
    Ctx { env: func_scope(), table: Map::empty(), next: 3 }
}

/// The symbol that a declaration of `name` adds: no register yet.
pub open spec fn new_symbol(name: Seq<char>) -> SymbolV {
    SymbolV { name, reg: None, alloc_virtual_reg: false, alloc_phy_reg: false, array_range: Seq::empty() }
}

/// `c` with `name` declared in the innermost open scope.
pub open spec fn declare(c: Ctx, name: Seq<char>) -> Ctx {
    Ctx { env: c.env, table: c.table.insert((c.env, name), new_symbol(name)), next: c.next }
}

/// `c` inside a new block, whose scope is a child of the innermost one.
pub open spec fn enter_block(c: Ctx) -> Ctx {
    Ctx { env: c.env.push(c.next as u32), table: c.table, next: c.next + 1 }
}

/// Back in the scopes of `outer` after a block that ended in `inner`: what
/// the block declared stays in the table, under the block's scope.
pub open spec fn leave_block(outer: Ctx, inner: Ctx) -> Ctx {
    Ctx { env: outer.env, table: inner.table, next: inner.next }
}

/// The scope that a use of `name` refers to: the innermost open scope that
/// declares it, or the innermost open scope if none does.
#[verifier::opaque]
pub open spec fn scope_of(c: Ctx, name: Seq<char>) -> Seq<u32> {
    match resolve(c.table, c.env, name) {
        Some(sc) => sc,
        None => c.env,
    }
}

/// expr := assignment
pub open spec fn p_expr(t: Toks, c: Ctx, p: int) -> Result<(ExprV, int), PErr>
    decreases t.len() - p, 10int,
{
    p_assignment(t, c, p)
}

/// assignment := ident '=' expr | condition
pub open spec fn p_assignment(t: Toks, c: Ctx, p: int) -> Result<(ExprV, int), PErr>
    decreases t.len() - p, 9int,
{
    match tok(t, p) {
        Ok(TokenTypeV::Ident(id)) => match tok(t, p + 1) {
            Ok(TokenTypeV::Equal) => match p_expr(t, c, p + 2) {
                Ok((e, q)) => Ok((ExprV::Assign(scope_of(c, id), id, bx(e)), q)),
                Err(x) => Err(x),
            },
            Ok(_) => p_condition(t, c, p),
            Err(x) => Err(x),
        },
        Ok(_) => p_condition(t, c, p),
        Err(x) => Err(x),
    }
}

/// condition := logical_or ['?' expr ':' condition]
pub open spec fn p_condition(t: Toks, c: Ctx, p: int) -> Result<(ExprV, int), PErr>
    decreases t.len() - p, 8int,
{
    match p_logical_or(t, c, p) {
        Ok((lo, p1)) => match tok(t, p1) {
            Ok(TokenTypeV::Ques) => if fwd(p, p1, t) {
                match p_expr(t, c, p1 + 1) {
                    Ok((e, p2)) => match p_expect(t, p2, TokenTypeV::Colon) {
                        Ok(p3) => if fwd(p, p3, t) {
                            match p_condition(t, c, p3) {
                                Ok((f, p4)) => Ok((ExprV::Cond(bx(lo), bx(e), bx(f)), p4)),
                                Err(x) => Err(x),
                            }
                        } else {
                            Err((p3, eof_msg()))
                        },
                        Err(x) => Err(x),
                    },
                    Err(x) => Err(x),
                }
            } else {
                Err((p1, eof_msg()))
            },
            Ok(_) => Ok((lo, p1)),
            Err(x) => Err(x),
        },
        Err(x) => Err(x),
    }
}

/// logical_or := logical_and rest3
pub open spec fn p_logical_or(t: Toks, c: Ctx, p: int) -> Result<(ExprV, int), PErr>
    decreases t.len() - p, 7int,
{
    match p_logical_and(t, c, p) {
        Ok((a, p1)) => if fwd(p, p1, t) {
            p_rest3(t, c, a, p1)
        } else {
            Err((p1, eof_msg()))
        },
        Err(x) => Err(x),
    }
}

/// rest3 := ('|' '|' logical_and)*; a single `|` is passed over and ends it.
pub open spec fn p_rest3(t: Toks, c: Ctx, e: ExprV, p: int) -> Result<(ExprV, int), PErr>
    decreases t.len() - p, 0int,
{
    match tok(t, p) {
        Ok(TokenTypeV::Or) => match tok(t, p + 1) {
            Ok(TokenTypeV::Or) => match p_logical_and(t, c, p + 2) {
                Ok((a, p2)) => if fwd(p, p2, t) {
                    p_rest3(t, c, ExprV::Or(bx(e), bx(a)), p2)
                } else {
                    Err((p2, eof_msg()))
                },
                Err(x) => Err(x),
            },
            Ok(_) => Ok((e, p + 1)),
            Err(x) => Err(x),
        },
        Ok(_) => Ok((e, p)),
        Err(x) => Err(x),
    }
}

/// logical_and := equality rest4
pub open spec fn p_logical_and(t: Toks, c: Ctx, p: int) -> Result<(ExprV, int), PErr>
    decreases t.len() - p, 6int,
{
    match p_equality(t, c, p) {
        Ok((a, p1)) => if fwd(p, p1, t) {
            p_rest4(t, c, a, p1)
        } else {
            Err((p1, eof_msg()))
        },
        Err(x) => Err(x),
    }
}

/// rest4 := ('&' '&' equality)*; a single `&` is passed over and ends it.
pub open spec fn p_rest4(t: Toks, c: Ctx, e: ExprV, p: int) -> Result<(ExprV, int), PErr>
    decreases t.len() - p, 0int,
{
    match tok(t, p) {
        Ok(TokenTypeV::And) => match tok(t, p + 1) {
            Ok(TokenTypeV::And) => match p_equality(t, c, p + 2) {
                Ok((a, p2)) => if fwd(p, p2, t) {
                    p_rest4(t, c, ExprV::And(bx(e), bx(a)), p2)
                } else {
                    Err((p2, eof_msg()))
                },
                Err(x) => Err(x),
            },
            Ok(_) => Ok((e, p + 1)),
            Err(x) => Err(x),
        },
        Ok(_) => Ok((e, p)),
        Err(x) => Err(x),
    }
}

/// equality := relational rest5
pub open spec fn p_equality(t: Toks, c: Ctx, p: int) -> Result<(ExprV, int), PErr>
    decreases t.len() - p, 5int,
{
    match p_relational(t, c, p) {
        Ok((a, p1)) => if fwd(p, p1, t) {
            p_rest5(t, c, a, p1)
        } else {
            Err((p1, eof_msg()))
        },
        Err(x) => Err(x),
    }
}

/// The equality node that `op` (`=` for `==`, `!` for `!=`) builds.
pub open spec fn eq_node(op: TokenTypeV, e: ExprV, a: ExprV) -> ExprV {
    if op == TokenTypeV::Not {
        ExprV::NotEquals(bx(e), bx(a))
    } else {
        ExprV::Equals(bx(e), bx(a))
    }
}

/// rest5 := (('=' '=' | '!' '=') relational)*; a lone `=` or `!` is passed
/// over and ends it.
pub open spec fn p_rest5(t: Toks, c: Ctx, e: ExprV, p: int) -> Result<(ExprV, int), PErr>
    decreases t.len() - p, 0int,
{
    match tok(t, p) {
        Ok(op) => if op == TokenTypeV::Equal || op == TokenTypeV::Not {
            match tok(t, p + 1) {
                Ok(TokenTypeV::Equal) => match p_relational(t, c, p + 2) {
                    Ok((a, p2)) => if fwd(p, p2, t) {
                        p_rest5(t, c, eq_node(op, e, a), p2)
                    } else {
                        Err((p2, eof_msg()))
                    },
                    Err(x) => Err(x),
                },
                Ok(_) => Ok((e, p + 1)),
                Err(x) => Err(x),
            }
        } else {
            Ok((e, p))
        },
        Err(x) => Err(x),
    }
}

/// relational := additive rest6
pub open spec fn p_relational(t: Toks, c: Ctx, p: int) -> Result<(ExprV, int), PErr>
    decreases t.len() - p, 4int,
{
    match p_additive(t, c, p) {
        Ok((a, p1)) => if fwd(p, p1, t) {
            p_rest6(t, c, a, p1)
        } else {
            Err((p1, eof_msg()))
        },
        Err(x) => Err(x),
    }
}

/// The comparison node that `op` (`<` or `>`) builds, `or_equal` where `=`
/// follows it.
pub open spec fn rel_node(op: TokenTypeV, or_equal: bool, e: ExprV, a: ExprV) -> ExprV {
    if op == TokenTypeV::Gt {
        if or_equal { ExprV::Get(bx(e), bx(a)) } else { ExprV::Gt(bx(e), bx(a)) }
    } else {
        if or_equal { ExprV::Let(bx(e), bx(a)) } else { ExprV::Lt(bx(e), bx(a)) }
    }
}

/// rest6 := (('<' '=' | '<' | '>' '=' | '>') additive)*
pub open spec fn p_rest6(t: Toks, c: Ctx, e: ExprV, p: int) -> Result<(ExprV, int), PErr>
    decreases t.len() - p, 0int,
{
    match tok(t, p) {
        Ok(op) => if op == TokenTypeV::Lt || op == TokenTypeV::Gt {
            match tok(t, p + 1) {
                Ok(next) => {
                    let or_equal = next == TokenTypeV::Equal;
                    match p_additive(t, c, if or_equal { p + 2 } else { p + 1 }) {
                        Ok((a, p2)) => if fwd(p, p2, t) {
                            p_rest6(t, c, rel_node(op, or_equal, e, a), p2)
                        } else {
                            Err((p2, eof_msg()))
                        },
                        Err(x) => Err(x),
                    }
                },
                Err(x) => Err(x),
            }
        } else {
            Ok((e, p))
        },
        Err(x) => Err(x),
    }
}

/// additive := multiplicative rest
pub open spec fn p_additive(t: Toks, c: Ctx, p: int) -> Result<(ExprV, int), PErr>
    decreases t.len() - p, 3int,
{
    match p_multiplicative(t, c, p) {
        Ok((a, p1)) => if fwd(p, p1, t) {
            p_rest(t, c, a, p1)
        } else {
            Err((p1, eof_msg()))
        },
        Err(x) => Err(x),
    }
}

/// The node that `op` (`+` or `-`) builds.
pub open spec fn add_node(op: TokenTypeV, e: ExprV, a: ExprV) -> ExprV {
    if op == TokenTypeV::Add { ExprV::Add(bx(e), bx(a)) } else { ExprV::Sub(bx(e), bx(a)) }
}

/// rest := (('+' | '-') multiplicative)*
pub open spec fn p_rest(t: Toks, c: Ctx, e: ExprV, p: int) -> Result<(ExprV, int), PErr>
    decreases t.len() - p, 0int,
{
    match tok(t, p) {
        Ok(op) => if op == TokenTypeV::Add || op == TokenTypeV::Neg {
            match p_multiplicative(t, c, p + 1) {
                Ok((a, p2)) => if fwd(p, p2, t) {
                    p_rest(t, c, add_node(op, e, a), p2)
                } else {
                    Err((p2, eof_msg()))
                },
                Err(x) => Err(x),
            }
        } else {
            Ok((e, p))
        },
        Err(x) => Err(x),
    }
}

/// multiplicative := unary rest2
pub open spec fn p_multiplicative(t: Toks, c: Ctx, p: int) -> Result<(ExprV, int), PErr>
    decreases t.len() - p, 2int,
{
    match p_unary(t, c, p) {
        Ok((u, p1)) => if fwd(p, p1, t) {
            p_rest2(t, c, ExprV::Unary(u), p1)
        } else {
            Err((p1, eof_msg()))
        },
        Err(x) => Err(x),
    }
}

/// The node that `op` (`/`, `%` or `*`) builds.
pub open spec fn mul_node(op: TokenTypeV, e: ExprV, u: UnaryV) -> ExprV {
    if op == TokenTypeV::Div {
        ExprV::Div(bx(e), bx(ExprV::Unary(u)))
    } else if op == TokenTypeV::Mod {
        ExprV::Mod(bx(e), bx(ExprV::Unary(u)))
    } else {
        ExprV::Mul(bx(e), bx(ExprV::Unary(u)))
    }
}

/// rest2 := (('/' | '%' | '*') unary)*
pub open spec fn p_rest2(t: Toks, c: Ctx, e: ExprV, p: int) -> Result<(ExprV, int), PErr>
    decreases t.len() - p, 0int,
{
    match tok(t, p) {
        Ok(op) => if op == TokenTypeV::Div || op == TokenTypeV::Mod || op == TokenTypeV::Mul {
            match p_unary(t, c, p + 1) {
                Ok((u, p2)) => if fwd(p, p2, t) {
                    p_rest2(t, c, mul_node(op, e, u), p2)
                } else {
                    Err((p2, eof_msg()))
                },
                Err(x) => Err(x),
            }
        } else {
            Ok((e, p))
        },
        Err(x) => Err(x),
    }
}

/// unary := '-' unary | num | '(' expr <any token> | ident; the token after
/// a bracketed expression is passed over unread.
pub open spec fn p_unary(t: Toks, c: Ctx, p: int) -> Result<(UnaryV, int), PErr>
    decreases t.len() - p, 1int,
{
    match tok(t, p) {
        Ok(TokenTypeV::Neg) => match p_unary(t, c, p + 1) {
            Ok((u, q)) => Ok((UnaryV::Neg(Box::new(u)), q)),
            Err(x) => Err(x),
        },
        Ok(TokenTypeV::Num(v)) => Ok((UnaryV::Int(v), p + 1)),
        Ok(TokenTypeV::LeftParen) => match p_expr(t, c, p + 1) {
            Ok((e, q)) => Ok((UnaryV::Primary(bx(e)), q + 1)),
            Err(x) => Err(x),
        },
        Ok(TokenTypeV::Ident(id)) => Ok((UnaryV::Identifier(scope_of(c, id), id), p + 1)),
        Ok(x) => Err((p + 1, "expected , actual "@ + token_name(x))),
        Err(x) => Err(x),
    }
}

/// type := 'int'
pub open spec fn p_type(t: Toks, p: int) -> Result<int, PErr> {
    p_expect(t, p, TokenTypeV::Int)
}

/// The identifier at `p`.
pub open spec fn p_identifier(t: Toks, p: int) -> Result<(Seq<char>, int), PErr> {
    match tok(t, p) {
        Ok(TokenTypeV::Ident(id)) => Ok((id, p + 1)),
        Ok(_) => Err((p, "ident expected"@)),
        Err(x) => Err(x),
    }
}

/// decl_expr := '=' expr ';' | ';'
pub open spec fn p_decl_expr(t: Toks, c: Ctx, p: int) -> Result<(Option<ExprV>, int), PErr> {
    match tok(t, p) {
        Ok(TokenTypeV::Equal) => match p_expr(t, c, p + 1) {
            Ok((e, q)) => match p_expect(t, q, TokenTypeV::Semicolon) {
                Ok(q2) => Ok((Some(e), q2)),
                Err(x) => Err(x),
            },
            Err(x) => Err(x),
        },
        Ok(TokenTypeV::Semicolon) => Ok((None, p + 1)),
        Ok(_) => Err((p + 1, "; or expr expected from decl"@)),
        Err(x) => Err(x),
    }
}

/// decl := type ident decl_expr; a scalar of the innermost open scope, which
/// it declares there once its initializer is read.
pub open spec fn p_decl(t: Toks, c: Ctx, p: int) -> Result<(DeclV, Ctx, int), PErr> {
    match p_type(t, p) {
        Ok(p1) => match p_identifier(t, p1) {
            Ok((name, p2)) => match p_decl_expr(t, c, p2) {
                Ok((e, p3)) => Ok((
                    DeclV { t: Type::Integer, name, indexes: Seq::empty(), expr: e, scope: c.env },
                    declare(c, name),
                    p3,
                )),
                Err(x) => Err(x),
            },
            Err(x) => Err(x),
        },
        Err(x) => Err(x),
    }
}

pub open spec fn blocks_msg() -> Seq<char> {
    "too many blocks"@
}

/// stmt := 'return' expr ';' | ';' | 'if' '(' expr ')' stmt ['else' stmt]
///       | 'while' '(' expr ')' stmt | '{' block_item* '}' | expr ';'
pub open spec fn p_stmt(t: Toks, c: Ctx, p: int) -> Result<(StmtV, Ctx, int), PErr>
    decreases t.len() - p, 0int,
{
    match tok(t, p) {
        Ok(TokenTypeV::Return) => match p_expr(t, c, p + 1) {
            Ok((e, q)) => match p_expect(t, q, TokenTypeV::Semicolon) {
                Ok(q2) => Ok((StmtV::Ret(e), c, q2)),
                Err(x) => Err(x),
            },
            Err(x) => Err(x),
        },
        Ok(TokenTypeV::Semicolon) => Ok((StmtV::Expr(Some(ExprV::Null)), c, p + 1)),
        Ok(TokenTypeV::If) => match p_expect(t, p + 1, TokenTypeV::LeftParen) {
            Ok(p1) => match p_expr(t, c, p1) {
                Ok((cond, p2)) => match p_expect(t, p2, TokenTypeV::RightParen) {
                    Ok(p3) => if fwd(p, p3, t) {
                        match p_stmt(t, c, p3) {
                            Ok((th, c1, p4)) => match tok(t, p4) {
                                Ok(TokenTypeV::Else) => if fwd(p, p4, t) {
                                    match p_stmt(t, c1, p4 + 1) {
                                        Ok((el, c2, p5)) => Ok((StmtV::If(cond, Box::new(th), Some(Box::new(el))), c2, p5)),
                                        Err(x) => Err(x),
                                    }
                                } else {
                                    Err((p4, eof_msg()))
                                },
                                Ok(_) => Ok((StmtV::If(cond, Box::new(th), None), c1, p4)),
                                Err(x) => Err(x),
                            },
                            Err(x) => Err(x),
                        }
                    } else {
                        Err((p3, eof_msg()))
                    },
                    Err(x) => Err(x),
                },
                Err(x) => Err(x),
            },
            Err(x) => Err(x),
        },
        Ok(TokenTypeV::While) => match p_expect(t, p + 1, TokenTypeV::LeftParen) {
            Ok(p1) => match p_expr(t, c, p1) {
                Ok((cond, p2)) => match p_expect(t, p2, TokenTypeV::RightParen) {
                    Ok(p3) => if fwd(p, p3, t) {
                        match p_stmt(t, c, p3) {
                            Ok((body, c1, p4)) => Ok((StmtV::While(cond, Box::new(body)), c1, p4)),
                            Err(x) => Err(x),
                        }
                    } else {
                        Err((p3, eof_msg()))
                    },
                    Err(x) => Err(x),
                },
                Err(x) => Err(x),
            },
            Err(x) => Err(x),
        },
        Ok(TokenTypeV::LeftBrace) => if c.next < u32::MAX {
            match p_items(t, enter_block(c), p + 1) {
                Ok((items, c1, q)) => match p_expect(t, q, TokenTypeV::RightBrace) {
                    Ok(q2) => Ok((StmtV::Block(items), leave_block(c, c1), q2)),
                    Err(x) => Err(x),
                },
                Err(x) => Err(x),
            }
        } else {
            Err((p, blocks_msg()))
        },
        Ok(_) => match p_expr(t, c, p) {
            Ok((e, q)) => match p_expect(t, q, TokenTypeV::Semicolon) {
                Ok(q2) => Ok((StmtV::Expr(Some(e)), c, q2)),
                Err(x) => Err(x),
            },
            Err(x) => Err(x),
        },
        Err(x) => Err(x),
    }
}

/// block_item := decl | stmt; `None` at the closing brace.
pub open spec fn p_block_item(t: Toks, c: Ctx, p: int) -> Result<(Option<BlockItemV>, Ctx, int), PErr>
    decreases t.len() - p, 1int,
{
    match tok(t, p) {
        Ok(TokenTypeV::Int) => match p_decl(t, c, p) {
            Ok((d, c1, q)) => Ok((Some(BlockItemV::Decl(d)), c1, q)),
            Err(x) => Err(x),
        },
        Ok(TokenTypeV::RightBrace) => Ok((None, c, p)),
        Ok(_) => match p_stmt(t, c, p) {
            Ok((st, c1, q)) => Ok((Some(BlockItemV::Stmt(st)), c1, q)),
            Err(x) => Err(x),
        },
        Err(x) => Err(x),
    }
}

/// block_item*, up to the closing brace.
pub open spec fn p_items(t: Toks, c: Ctx, p: int) -> Result<(Seq<BlockItemV>, Ctx, int), PErr>
    decreases t.len() - p, 2int,
{
    match p_block_item(t, c, p) {
        Ok((Some(b), c1, q)) => if fwd(p, q, t) {
            match p_items(t, c1, q) {
                Ok((bs, c2, r)) => Ok((seq![b] + bs, c2, r)),
                Err(x) => Err(x),
            }
        } else {
            Err((q, eof_msg()))
        },
        Ok((None, c1, q)) => Ok((Seq::empty(), c1, q)),
        Err(x) => Err(x),
    }
}

/// param := type ident; an integer of the innermost open scope, which it
/// declares there.
pub open spec fn p_param(t: Toks, c: Ctx, p: int) -> Result<(ParamV, Ctx, int), PErr> {
    match p_type(t, p) {
        Ok(p1) => match p_identifier(t, p1) {
            Ok((name, p2)) => Ok((ParamV { t: Type::Integer, scope: c.env, name }, declare(c, name), p2)),
            Err(x) => Err(x),
        },
        Err(x) => Err(x),
    }
}

/// param_list := param (',' param)*
pub open spec fn p_param_list(t: Toks, c: Ctx, p: int) -> Result<(Seq<ParamV>, Ctx, int), PErr>
    decreases t.len() - p,
{
    match p_param(t, c, p) {
        Ok((x, c1, p1)) => match tok(t, p1) {
            Ok(TokenTypeV::Comma) => if fwd(p, p1, t) {
                match p_param_list(t, c1, p1 + 1) {
                    Ok((xs, c2, q)) => Ok((seq![x] + xs, c2, q)),
                    Err(e) => Err(e),
                }
            } else {
                Err((p1, eof_msg()))
            },
            Ok(_) => Ok((seq![x], c1, p1)),
            Err(e) => Err(e),
        },
        Err(e) => Err(e),
    }
}

/// params := [param_list]; a list is there when `int` comes first.
pub open spec fn p_params(t: Toks, c: Ctx, p: int) -> Result<(Seq<ParamV>, Ctx, int), PErr> {
    match tok(t, p) {
        Ok(TokenTypeV::Int) => p_param_list(t, c, p),
        Ok(_) => Ok((Seq::empty(), c, p)),
        Err(x) => Err(x),
    }
}

/// func := type ident '(' params ')' '{' block_item* '}'; the parameters and
/// the variables of the body share the innermost open scope.
pub open spec fn p_func(t: Toks, c: Ctx, p: int) -> Result<(FuncV, Ctx, int), PErr> {
    match p_type(t, p) {
        Ok(p1) => match p_identifier(t, p1) {
            Ok((name, p2)) => match p_expect(t, p2, TokenTypeV::LeftParen) {
                Ok(p3) => match p_params(t, c, p3) {
                    Ok((params, c1, p4)) => match p_expect(t, p4, TokenTypeV::RightParen) {
                        Ok(p5) => match p_expect(t, p5, TokenTypeV::LeftBrace) {
                            Ok(p6) => match p_items(t, c1, p6) {
                                Ok((body, c2, p7)) => match p_expect(t, p7, TokenTypeV::RightBrace) {
                                    Ok(p8) => Ok((FuncV { name, stmt: body, params }, c2, p8)),
                                    Err(x) => Err(x),
                                },
                                Err(x) => Err(x),
                            },
                            Err(x) => Err(x),
                        },
                        Err(x) => Err(x),
                    },
                    Err(x) => Err(x),
                },
                Err(x) => Err(x),
            },
            Err(x) => Err(x),
        },
        Err(x) => Err(x),
    }
}

/// A program: the one function at the start of the tokens (what follows it
/// is not read), with the table of the variables it declares.
pub open spec fn spec_parsing(t: Toks) -> Result<(ProgV, Map<(Seq<u32>, Seq<char>), SymbolV>), PErr> {
    match p_func(t, init_ctx(), 0) {
        Ok((f, c, _)) => Ok((ProgV { funcs: seq![f], global_vars: Seq::empty() }, c.table)),
        Err(x) => Err(x),
    }
}

// ---------------------------------------------------------------------------
// A parse reads no token after the position it returns.
// ---------------------------------------------------------------------------

/// `u` begins with the tokens of `t`.
pub open spec fn extends(t: Toks, u: Toks) -> bool {
    t.len() <= u.len() && forall|i: int| 0 <= i < t.len() ==> #[trigger] u[i] == t[i]
}

proof fn lemma_tok_ext(t: Toks, u: Toks, p: int)
    requires
        extends(t, u),
    ensures
        tok(t, p) is Ok ==> tok(u, p) == tok(t, p),
{
}

proof fn lemma_expect_ext(t: Toks, u: Toks, p: int, ty: TokenTypeV)
    requires
        extends(t, u),
    ensures
        p_expect(t, p, ty) is Ok ==> p_expect(u, p, ty) == p_expect(t, p, ty),
{
    lemma_tok_ext(t, u, p);
}

proof fn lemma_expr_ext(t: Toks, u: Toks, c: Ctx, p: int)
    requires
        extends(t, u),
        p_expr(t, c, p) is Ok,
    ensures
        p_expr(u, c, p) == p_expr(t, c, p),
    decreases t.len() - p, 10int,
{
    lemma_assignment_ext(t, u, c, p);
}

proof fn lemma_assignment_ext(t: Toks, u: Toks, c: Ctx, p: int)
    requires
        extends(t, u),
        p_assignment(t, c, p) is Ok,
    ensures
        p_assignment(u, c, p) == p_assignment(t, c, p),
    decreases t.len() - p, 9int,
{
    lemma_tok_ext(t, u, p);
    lemma_tok_ext(t, u, p + 1);
    if let Ok(TokenTypeV::Ident(_)) = tok(t, p) {
        if tok(t, p + 1) == Ok::<TokenTypeV, PErr>(TokenTypeV::Equal) {
            lemma_expr_ext(t, u, c, p + 2);
        } else {
            lemma_condition_ext(t, u, c, p);
        }
    } else {
        lemma_condition_ext(t, u, c, p);
    }
}

proof fn lemma_condition_ext(t: Toks, u: Toks, c: Ctx, p: int)
    requires
        extends(t, u),
        p_condition(t, c, p) is Ok,
    ensures
        p_condition(u, c, p) == p_condition(t, c, p),
    decreases t.len() - p, 8int,
{
    lemma_logical_or_ext(t, u, c, p);
    if let Ok((lo, p1)) = p_logical_or(t, c, p) {
        lemma_tok_ext(t, u, p1);
        if tok(t, p1) == Ok::<TokenTypeV, PErr>(TokenTypeV::Ques) && fwd(p, p1, t) {
            lemma_expr_ext(t, u, c, p1 + 1);
            if let Ok((e, p2)) = p_expr(t, c, p1 + 1) {
                lemma_expect_ext(t, u, p2, TokenTypeV::Colon);
                if let Ok(p3) = p_expect(t, p2, TokenTypeV::Colon) {
                    if fwd(p, p3, t) {
                        lemma_condition_ext(t, u, c, p3);
                    }
                }
            }
        }
    }
}

proof fn lemma_logical_or_ext(t: Toks, u: Toks, c: Ctx, p: int)
    requires
        extends(t, u),
        p_logical_or(t, c, p) is Ok,
    ensures
        p_logical_or(u, c, p) == p_logical_or(t, c, p),
    decreases t.len() - p, 7int,
{
    lemma_logical_and_ext(t, u, c, p);
    if let Ok((a, p1)) = p_logical_and(t, c, p) {
        if fwd(p, p1, t) {
            lemma_rest3_ext(t, u, c, a, p1);
        }
    }
}

proof fn lemma_rest3_ext(t: Toks, u: Toks, c: Ctx, e: ExprV, p: int)
    requires
        extends(t, u),
        p_rest3(t, c, e, p) is Ok,
    ensures
        p_rest3(u, c, e, p) == p_rest3(t, c, e, p),
    decreases t.len() - p, 0int,
{
    lemma_tok_ext(t, u, p);
    lemma_tok_ext(t, u, p + 1);
    if tok(t, p) == Ok::<TokenTypeV, PErr>(TokenTypeV::Or) && tok(t, p + 1) == Ok::<TokenTypeV, PErr>(TokenTypeV::Or) {
        lemma_logical_and_ext(t, u, c, p + 2);
        if let Ok((a, p2)) = p_logical_and(t, c, p + 2) {
            if fwd(p, p2, t) {
                lemma_rest3_ext(t, u, c, ExprV::Or(bx(e), bx(a)), p2);
            }
        }
    }
}

proof fn lemma_logical_and_ext(t: Toks, u: Toks, c: Ctx, p: int)
    requires
        extends(t, u),
        p_logical_and(t, c, p) is Ok,
    ensures
        p_logical_and(u, c, p) == p_logical_and(t, c, p),
    decreases t.len() - p, 6int,
{
    lemma_equality_ext(t, u, c, p);
    if let Ok((a, p1)) = p_equality(t, c, p) {
        if fwd(p, p1, t) {
            lemma_rest4_ext(t, u, c, a, p1);
        }
    }
}

proof fn lemma_rest4_ext(t: Toks, u: Toks, c: Ctx, e: ExprV, p: int)
    requires
        extends(t, u),
        p_rest4(t, c, e, p) is Ok,
    ensures
        p_rest4(u, c, e, p) == p_rest4(t, c, e, p),
    decreases t.len() - p, 0int,
{
    lemma_tok_ext(t, u, p);
    lemma_tok_ext(t, u, p + 1);
    if tok(t, p) == Ok::<TokenTypeV, PErr>(TokenTypeV::And) && tok(t, p + 1) == Ok::<TokenTypeV, PErr>(TokenTypeV::And) {
        lemma_equality_ext(t, u, c, p + 2);
        if let Ok((a, p2)) = p_equality(t, c, p + 2) {
            if fwd(p, p2, t) {
                lemma_rest4_ext(t, u, c, ExprV::And(bx(e), bx(a)), p2);
            }
        }
    }
}

proof fn lemma_equality_ext(t: Toks, u: Toks, c: Ctx, p: int)
    requires
        extends(t, u),
        p_equality(t, c, p) is Ok,
    ensures
        p_equality(u, c, p) == p_equality(t, c, p),
    decreases t.len() - p, 5int,
{
    lemma_relational_ext(t, u, c, p);
    if let Ok((a, p1)) = p_relational(t, c, p) {
        if fwd(p, p1, t) {
            lemma_rest5_ext(t, u, c, a, p1);
        }
    }
}

proof fn lemma_rest5_ext(t: Toks, u: Toks, c: Ctx, e: ExprV, p: int)
    requires
        extends(t, u),
        p_rest5(t, c, e, p) is Ok,
    ensures
        p_rest5(u, c, e, p) == p_rest5(t, c, e, p),
    decreases t.len() - p, 0int,
{
    lemma_tok_ext(t, u, p);
    lemma_tok_ext(t, u, p + 1);
    if let Ok(op) = tok(t, p) {
        if (op == TokenTypeV::Equal || op == TokenTypeV::Not) && tok(t, p + 1) == Ok::<TokenTypeV, PErr>(
            TokenTypeV::Equal,
        ) {
            lemma_relational_ext(t, u, c, p + 2);
            if let Ok((a, p2)) = p_relational(t, c, p + 2) {
                if fwd(p, p2, t) {
                    lemma_rest5_ext(t, u, c, eq_node(op, e, a), p2);
                }
            }
        }
    }
}

proof fn lemma_relational_ext(t: Toks, u: Toks, c: Ctx, p: int)
    requires
        extends(t, u),
        p_relational(t, c, p) is Ok,
    ensures
        p_relational(u, c, p) == p_relational(t, c, p),
    decreases t.len() - p, 4int,
{
    lemma_additive_ext(t, u, c, p);
    if let Ok((a, p1)) = p_additive(t, c, p) {
        if fwd(p, p1, t) {
            lemma_rest6_ext(t, u, c, a, p1);
        }
    }
}

proof fn lemma_rest6_ext(t: Toks, u: Toks, c: Ctx, e: ExprV, p: int)
    requires
        extends(t, u),
        p_rest6(t, c, e, p) is Ok,
    ensures
        p_rest6(u, c, e, p) == p_rest6(t, c, e, p),
    decreases t.len() - p, 0int,
{
    lemma_tok_ext(t, u, p);
    lemma_tok_ext(t, u, p + 1);
    if let Ok(op) = tok(t, p) {
        if op == TokenTypeV::Lt || op == TokenTypeV::Gt {
            if let Ok(next) = tok(t, p + 1) {
                let or_equal = next == TokenTypeV::Equal;
                let q = if or_equal { p + 2 } else { p + 1 };
                lemma_additive_ext(t, u, c, q);
                if let Ok((a, p2)) = p_additive(t, c, q) {
                    if fwd(p, p2, t) {
                        lemma_rest6_ext(t, u, c, rel_node(op, or_equal, e, a), p2);
                    }
                }
            }
        }
    }
}

proof fn lemma_additive_ext(t: Toks, u: Toks, c: Ctx, p: int)
    requires
        extends(t, u),
        p_additive(t, c, p) is Ok,
    ensures
        p_additive(u, c, p) == p_additive(t, c, p),
    decreases t.len() - p, 3int,
{
    lemma_multiplicative_ext(t, u, c, p);
    if let Ok((a, p1)) = p_multiplicative(t, c, p) {
        if fwd(p, p1, t) {
            lemma_rest_ext(t, u, c, a, p1);
        }
    }
}

proof fn lemma_rest_ext(t: Toks, u: Toks, c: Ctx, e: ExprV, p: int)
    requires
        extends(t, u),
        p_rest(t, c, e, p) is Ok,
    ensures
        p_rest(u, c, e, p) == p_rest(t, c, e, p),
    decreases t.len() - p, 0int,
{
    lemma_tok_ext(t, u, p);
    if let Ok(op) = tok(t, p) {
        if op == TokenTypeV::Add || op == TokenTypeV::Neg {
            lemma_multiplicative_ext(t, u, c, p + 1);
            if let Ok((a, p2)) = p_multiplicative(t, c, p + 1) {
                if fwd(p, p2, t) {
                    lemma_rest_ext(t, u, c, add_node(op, e, a), p2);
                }
            }
        }
    }
}

proof fn lemma_multiplicative_ext(t: Toks, u: Toks, c: Ctx, p: int)
    requires
        extends(t, u),
        p_multiplicative(t, c, p) is Ok,
    ensures
        p_multiplicative(u, c, p) == p_multiplicative(t, c, p),
    decreases t.len() - p, 2int,
{
    lemma_unary_ext(t, u, c, p);
    if let Ok((x, p1)) = p_unary(t, c, p) {
        if fwd(p, p1, t) {
            lemma_rest2_ext(t, u, c, ExprV::Unary(x), p1);
        }
    }
}

proof fn lemma_rest2_ext(t: Toks, u: Toks, c: Ctx, e: ExprV, p: int)
    requires
        extends(t, u),
        p_rest2(t, c, e, p) is Ok,
    ensures
        p_rest2(u, c, e, p) == p_rest2(t, c, e, p),
    decreases t.len() - p, 0int,
{
    lemma_tok_ext(t, u, p);
    if let Ok(op) = tok(t, p) {
        if op == TokenTypeV::Div || op == TokenTypeV::Mod || op == TokenTypeV::Mul {
            lemma_unary_ext(t, u, c, p + 1);
            if let Ok((x, p2)) = p_unary(t, c, p + 1) {
                if fwd(p, p2, t) {
                    lemma_rest2_ext(t, u, c, mul_node(op, e, x), p2);
                }
            }
        }
    }
}

proof fn lemma_unary_ext(t: Toks, u: Toks, c: Ctx, p: int)
    requires
        extends(t, u),
        p_unary(t, c, p) is Ok,
    ensures
        p_unary(u, c, p) == p_unary(t, c, p),
    decreases t.len() - p, 1int,
{
    lemma_tok_ext(t, u, p);
    if tok(t, p) == Ok::<TokenTypeV, PErr>(TokenTypeV::Neg) {
        lemma_unary_ext(t, u, c, p + 1);
    } else if tok(t, p) == Ok::<TokenTypeV, PErr>(TokenTypeV::LeftParen) {
        lemma_expr_ext(t, u, c, p + 1);
    }
}

proof fn lemma_decl_ext(t: Toks, u: Toks, c: Ctx, p: int)
    requires
        extends(t, u),
        p_decl(t, c, p) is Ok,
    ensures
        p_decl(u, c, p) == p_decl(t, c, p),
{
    lemma_expect_ext(t, u, p, TokenTypeV::Int);
    lemma_tok_ext(t, u, p + 1);
    lemma_tok_ext(t, u, p + 2);
    if tok(t, p + 2) == Ok::<TokenTypeV, PErr>(TokenTypeV::Equal) {
        lemma_expr_ext(t, u, c, p + 3);
        if let Ok((e, q)) = p_expr(t, c, p + 3) {
            lemma_expect_ext(t, u, q, TokenTypeV::Semicolon);
        }
    }
}

proof fn lemma_stmt_ext(t: Toks, u: Toks, c: Ctx, p: int)
    requires
        extends(t, u),
        p_stmt(t, c, p) is Ok,
    ensures
        p_stmt(u, c, p) == p_stmt(t, c, p),
    decreases t.len() - p, 0int,
{
    lemma_tok_ext(t, u, p);
    if tok(t, p) == Ok::<TokenTypeV, PErr>(TokenTypeV::Return) {
        lemma_expr_ext(t, u, c, p + 1);
        if let Ok((e, q)) = p_expr(t, c, p + 1) {
            lemma_expect_ext(t, u, q, TokenTypeV::Semicolon);
        }
    } else if tok(t, p) == Ok::<TokenTypeV, PErr>(TokenTypeV::If) || tok(t, p) == Ok::<TokenTypeV, PErr>(
        TokenTypeV::While,
    ) {
        lemma_expect_ext(t, u, p + 1, TokenTypeV::LeftParen);
        if let Ok(p1) = p_expect(t, p + 1, TokenTypeV::LeftParen) {
            lemma_expr_ext(t, u, c, p1);
            if let Ok((cond, p2)) = p_expr(t, c, p1) {
                lemma_expect_ext(t, u, p2, TokenTypeV::RightParen);
                if let Ok(p3) = p_expect(t, p2, TokenTypeV::RightParen) {
                    if fwd(p, p3, t) {
                        lemma_stmt_ext(t, u, c, p3);
                        if let Ok((th, c1, p4)) = p_stmt(t, c, p3) {
                            lemma_tok_ext(t, u, p4);
                            if tok(t, p) == Ok::<TokenTypeV, PErr>(TokenTypeV::If) && tok(t, p4) == Ok::<
                                TokenTypeV,
                                PErr,
                            >(TokenTypeV::Else) && fwd(p, p4, t) {
                                lemma_stmt_ext(t, u, c1, p4 + 1);
                            }
                        }
                    }
                }
            }
        }
    } else if tok(t, p) == Ok::<TokenTypeV, PErr>(TokenTypeV::LeftBrace) {
        if c.next < u32::MAX {
            lemma_items_ext(t, u, enter_block(c), p + 1);
            if let Ok((items, c1, q)) = p_items(t, enter_block(c), p + 1) {
                lemma_expect_ext(t, u, q, TokenTypeV::RightBrace);
            }
        }
    } else if tok(t, p) != Ok::<TokenTypeV, PErr>(TokenTypeV::Semicolon) {
        lemma_expr_ext(t, u, c, p);
        if let Ok((e, q)) = p_expr(t, c, p) {
            lemma_expect_ext(t, u, q, TokenTypeV::Semicolon);
        }
    }
}

proof fn lemma_items_ext(t: Toks, u: Toks, c: Ctx, p: int)
    requires
        extends(t, u),
        p_items(t, c, p) is Ok,
    ensures
        p_items(u, c, p) == p_items(t, c, p),
    decreases t.len() - p, 2int,
{
    lemma_tok_ext(t, u, p);
    if tok(t, p) == Ok::<TokenTypeV, PErr>(TokenTypeV::Int) {
        lemma_decl_ext(t, u, c, p);
    } else if tok(t, p) != Ok::<TokenTypeV, PErr>(TokenTypeV::RightBrace) {
        lemma_stmt_ext(t, u, c, p);
    }
    assert(p_block_item(u, c, p) == p_block_item(t, c, p));
    if let Ok((Some(b), c1, q)) = p_block_item(t, c, p) {
        if fwd(p, q, t) {
            lemma_items_ext(t, u, c1, q);
        }
    }
}

proof fn lemma_param_list_ext(t: Toks, u: Toks, c: Ctx, p: int)
    requires
        extends(t, u),
        p_param_list(t, c, p) is Ok,
    ensures
        p_param_list(u, c, p) == p_param_list(t, c, p),
    decreases t.len() - p,
{
    lemma_expect_ext(t, u, p, TokenTypeV::Int);
    lemma_tok_ext(t, u, p + 1);
    lemma_tok_ext(t, u, p + 2);
    assert(p_param(u, c, p) == p_param(t, c, p));
    if let Ok((x, c1, p1)) = p_param(t, c, p) {
        if tok(t, p1) == Ok::<TokenTypeV, PErr>(TokenTypeV::Comma) && fwd(p, p1, t) {
            lemma_param_list_ext(t, u, c1, p1 + 1);
        }
    }
}

proof fn lemma_func_ext(t: Toks, u: Toks, c: Ctx, p: int)
    requires
        extends(t, u),
        p_func(t, c, p) is Ok,
    ensures
        p_func(u, c, p) == p_func(t, c, p),
{
    lemma_expect_ext(t, u, p, TokenTypeV::Int);
    lemma_tok_ext(t, u, p + 1);
    lemma_expect_ext(t, u, p + 2, TokenTypeV::LeftParen);
    lemma_tok_ext(t, u, p + 3);
    if tok(t, p + 3) == Ok::<TokenTypeV, PErr>(TokenTypeV::Int) {
        lemma_param_list_ext(t, u, c, p + 3);
    }
    assert(p_params(u, c, p + 3) == p_params(t, c, p + 3));
    if let Ok((ps, c1, p4)) = p_params(t, c, p + 3) {
        lemma_expect_ext(t, u, p4, TokenTypeV::RightParen);
        lemma_expect_ext(t, u, p4 + 1, TokenTypeV::LeftBrace);
        if let Ok(p5) = p_expect(t, p4, TokenTypeV::RightParen) {
            if let Ok(p6) = p_expect(t, p5, TokenTypeV::LeftBrace) {
                lemma_items_ext(t, u, c1, p6);
                if let Ok((body, c2, p7)) = p_items(t, c1, p6) {
                    lemma_expect_ext(t, u, p7, TokenTypeV::RightBrace);
                }
            }
        }
    }
}

/// Parsing reads one function and nothing after it: tokens added after a
/// program that parses leave its parse as it was.
pub proof fn law_parsing_ignores_what_follows(t: Toks, extra: Toks)
    requires
        spec_parsing(t) is Ok,
    ensures
        spec_parsing(t + extra) == spec_parsing(t),
{
    assert(extends(t, t + extra));
    lemma_func_ext(t, t + extra, init_ctx(), 0);
}

/// Why parsing stopped: the position of the token at fault and a message.
#[derive(Debug)]
pub struct ParseError {
    pub pos: usize,
    pub msg: String,
}

/// A parser over a token list: the tokens, the position of the next one, the
/// program once parsed, the table of the variables declared so far, the chain
/// of open scopes and the number of the next block's scope.
pub struct Parser {
    tokens: Vec<Token>,
    pos: usize,
    prog: Option<Prog>,
    pub symbols: SymTab,
    env: Vec<u32>,
    next: u32,
}

/// The parser's tokens, parsed program and table are those of `a`.
spec fn unchanged(a: Parser, b: Parser) -> bool {
    &&& b.tokens == a.tokens
    &&& b.prog == a.prog
    &&& b.symbols == a.symbols
    &&& b.env == a.env
    &&& b.next == a.next
}

/// `r` is the statement that `s` gives, and the parser stands at the position
/// and in the scopes that it gives.
pub open spec fn stmt_res(s: Result<(StmtV, Ctx, int), PErr>, r: Result<Stmt, ParseError>, c: Ctx, q: int) -> bool {
    match s {
        Ok((v, c1, p)) => r matches Ok(x) && x@ == v && c == c1 && q == p,
        Err((p, m)) => r matches Err(er) && er.pos == p && er.msg@ == m,
    }
}

/// `r` is what `s` says, and the parser stands at the position it gives.
pub open spec fn expr_res(s: Result<(ExprV, int), PErr>, r: Result<Expr, ParseError>, q: int) -> bool {
    match s {
        Ok((e, p)) => r matches Ok(x) && x@ == e && q == p,
        Err((p, m)) => r matches Err(er) && er.pos == p && er.msg@ == m,
    }
}

impl Parser {
    /// The kinds of the parser's tokens.
    pub closed spec fn toks(&self) -> Toks {
        tokens_view(self.tokens@)
    }

    /// The position of the next token.
    pub closed spec fn position(&self) -> int {
        self.pos as int
    }

    /// The variables declared so far.
    pub closed spec fn table(&self) -> Map<(Seq<u32>, Seq<char>), SymbolV> {
        self.symbols@
    }

    /// The open scopes, the variables declared so far, and the number of the
    /// next block's scope.
    pub closed spec fn ctx(&self) -> Ctx {
        Ctx { env: self.env@, table: self.symbols@, next: self.next as nat }
    }

    /// The program, once parsed.
    pub closed spec fn parsed(&self) -> Option<ProgV> {
        match self.prog {
            Some(p) => Some(p@),
            None => None,
        }
    }

    /// A parser at the first of `tokens`, with nothing parsed or declared.
    pub fn new(tokens: Vec<Token>) -> (r: Self)
        ensures
            r.toks() == tokens_view(tokens@),
            r.position() == 0,
            r.parsed() is None,
            r.table() == Map::<(Seq<u32>, Seq<char>), SymbolV>::empty(),
            r.ctx() == init_ctx(),
    {
        Parser { tokens, pos: 0, prog: None, symbols: SymTab::init(), env: scope_vec(), next: 3 }
    }

    /// The error for the token at the current position.
    pub fn bad_token(&self, msg: &str) -> (e: ParseError)
        ensures
            e.pos == self.position(),
            e.msg@ == msg@,
    {
        ParseError { pos: self.pos, msg: String::from_str(msg) }
    }

    /// The error for running off the end of the tokens.
    fn end_of_tokens(&self) -> (e: ParseError)
        ensures
            e.pos == self.pos,
            e.msg@ == eof_msg(),
    {
        self.bad_token("unexpected end of tokens")
    }

    /// Whether the token at `i` is of the same kind as `ty`.
    fn is_at(&self, i: usize, ty: TokenType) -> (b: bool)
        requires
            i < self.tokens@.len(),
            !(ty is Ident) && !(ty is Num),
        ensures
            b == (self.toks()[i as int] == ty@),
    {
        proof {
            reveal(token_kind);
        }
        self.tokens[i].ty.same(&ty)
    }

    /// The text of the identifier at `i`, if it is one.
    fn ident_at(&self, i: usize) -> (r: Option<String>)
        requires
            i < self.tokens@.len(),
        ensures
            match self.toks()[i as int] {
                TokenTypeV::Ident(s) => r matches Some(x) && x@ == s,
                _ => r is None,
            },
    {
        proof {
            reveal(token_kind);
        }
        match &self.tokens[i].ty {
            TokenType::Ident(id) => Some(id.clone()),
            _ => None,
        }
    }

    /// The value of the number at `i`, if it is one.
    fn num_at(&self, i: usize) -> (r: Option<i32>)
        requires
            i < self.tokens@.len(),
        ensures
            match self.toks()[i as int] {
                TokenTypeV::Num(v) => r == Some(v),
                _ => r is None,
            },
    {
        proof {
            reveal(token_kind);
        }
        match &self.tokens[i].ty {
            TokenType::Num(v) => Some(*v),
            _ => None,
        }
    }

    /// Appends the name of the token at `i` to `out`.
    fn push_name_at(&self, out: &mut String, i: usize)
        requires
            i < self.tokens@.len(),
        ensures
            final(out)@ == old(out)@ + token_name(self.toks()[i as int]),
    {
        proof {
            reveal(token_kind);
        }
        push_token_name(out, &self.tokens[i].ty);
    }

    fn expect(&mut self, ty: TokenType) -> (r: Result<(), ParseError>)
        requires
            old(self).pos <= old(self).tokens@.len(),
        ensures
            unchanged(*old(self), *final(self)),
            final(self).pos <= final(self).tokens@.len(),
            match p_expect(old(self).toks(), old(self).pos as int, ty@) {
                Ok(q) => r is Ok && final(self).pos == q,
                Err((q, m)) => r matches Err(e) && e.pos == q && e.msg@ == m,
            },
    {
        proof {
            reveal(token_kind);
        }
        if self.pos >= self.tokens.len() {
            return Err(self.end_of_tokens());
        }
        if !self.tokens[self.pos].ty.same(&ty) {
            let mut m = String::new();
            push_token_name(&mut m, &ty);
            m.append(" expected , actual ");
            self.push_name_at(&mut m, self.pos);
            return Err(self.bad_token(m.as_str()));
        }
        self.pos += 1;
        Ok(())
    }

    fn expr(&mut self) -> (r: Result<Expr, ParseError>)
        requires
            old(self).pos <= old(self).tokens@.len(),
        ensures
            unchanged(*old(self), *final(self)),
            expr_res(p_expr(old(self).toks(), old(self).ctx(), old(self).pos as int), r, final(self).pos as int),
            r is Ok ==> old(self).pos < final(self).pos < final(self).tokens@.len(),
        decreases old(self).tokens@.len() - old(self).pos, 10int,
    {
        self.assignment()
    }

    fn assignment(&mut self) -> (r: Result<Expr, ParseError>)
        requires
            old(self).pos <= old(self).tokens@.len(),
        ensures
            unchanged(*old(self), *final(self)),
            expr_res(p_assignment(old(self).toks(), old(self).ctx(), old(self).pos as int), r, final(self).pos as int),
            r is Ok ==> old(self).pos < final(self).pos < final(self).tokens@.len(),
        decreases old(self).tokens@.len() - old(self).pos, 9int,
    {
        if self.pos >= self.tokens.len() {
            return Err(self.end_of_tokens());
        }
        if let Some(id) = self.ident_at(self.pos) {
            self.pos += 1;  // eat id
            if self.pos >= self.tokens.len() {
                return Err(self.end_of_tokens());
            }
            if self.is_at(self.pos, TokenType::Equal) {
                self.pos += 1;  // eat =
                let e = match self.expr() {
                    Ok(e) => e,
                    Err(x) => {
                        return Err(x);
                    },
                };
                let sc = self.scope_of_name(&id);
                Ok(Expr::Assign(Box::new(sc), Box::new(id), Box::new(e)))
            } else {
                self.pos -= 1;
                self.condition()
            }
        } else {
            self.condition()
        }
    }

    /// `logical_or`, or a conditional expression `c ? e : f`.
    #[verifier::spinoff_prover]
    #[verifier::rlimit(40)]
    fn condition(&mut self) -> (r: Result<Expr, ParseError>)
        requires
            old(self).pos <= old(self).tokens@.len(),
        ensures
            unchanged(*old(self), *final(self)),
            expr_res(p_condition(old(self).toks(), old(self).ctx(), old(self).pos as int), r, final(self).pos as int),
            r is Ok ==> old(self).pos < final(self).pos < final(self).tokens@.len(),
        decreases old(self).tokens@.len() - old(self).pos, 8int,
    {
        let ghost t = self.toks();
        let ghost c = self.ctx();
        let ghost p = self.pos as int;
        let or = match self.logical_or() {
            Ok(a) => a,
            Err(x) => {
                assert(p_condition(t, c, p) == Err::<(ExprV, int), PErr>((x.pos as int, x.msg@)));
                return Err(x);
            },
        };
        assert(p_logical_or(t, c, p) == Ok::<(ExprV, int), PErr>((or@, self.pos as int)));
        if self.is_at(self.pos, TokenType::Ques) {
            self.cond_tail(or, Ghost(p))
        } else {
            assert(p_condition(t, c, p) == Ok::<(ExprV, int), PErr>((or@, self.pos as int)));
            Ok(or)
        }
    }

    /// At the `?` after `c`, which began at `p0`: the rest of `c ? e : f`.
    #[verifier::spinoff_prover]
    #[verifier::rlimit(40)]
    fn cond_tail(&mut self, cnd: Expr, Ghost(p0): Ghost<int>) -> (r: Result<Expr, ParseError>)
        requires
            0 <= p0 < old(self).pos < old(self).tokens@.len(),
            p_logical_or(old(self).toks(), old(self).ctx(), p0) == Ok::<(ExprV, int), PErr>((cnd@, old(self).pos as int)),
            old(self).toks()[old(self).pos as int] == TokenTypeV::Ques,
        ensures
            unchanged(*old(self), *final(self)),
            expr_res(p_condition(old(self).toks(), old(self).ctx(), p0), r, final(self).pos as int),
            r is Ok ==> old(self).pos < final(self).pos < final(self).tokens@.len(),
        decreases old(self).tokens@.len() - old(self).pos, 0int,
    {
        let ghost t = self.toks();
        let ghost c = self.ctx();
                match self.expect(TokenType::Ques) {
            Ok(()) => {},
            Err(x) => {
                return Err(x);
            },
        }
        let e = match self.expr() {
            Ok(a) => a,
            Err(x) => {
                assert(p_condition(t, c, p0) == Err::<(ExprV, int), PErr>((x.pos as int, x.msg@)));
                return Err(x);
            },
        };
        match self.expect(TokenType::Colon) {
            Ok(()) => {},
            Err(x) => {
                assert(p_condition(t, c, p0) == Err::<(ExprV, int), PErr>((x.pos as int, x.msg@)));
                return Err(x);
            },
        }
        let ghost p3 = self.pos as int;
        let f = match self.condition() {
            Ok(a) => a,
            Err(x) => {
                assert(p_condition(t, c, p0) == p_condition(t, c, p3));
                return Err(x);
            },
        };
        let n = Expr::Cond(Box::new(cnd), Box::new(e), Box::new(f));
        assert(p_condition(t, c, p0) == Ok::<(ExprV, int), PErr>((n@, self.pos as int)));
        Ok(n)
    }

    /// logical_and, then any `||` terms.
    fn logical_or(&mut self) -> (r: Result<Expr, ParseError>)
        requires
            old(self).pos <= old(self).tokens@.len(),
        ensures
            unchanged(*old(self), *final(self)),
            expr_res(p_logical_or(old(self).toks(), old(self).ctx(), old(self).pos as int), r, final(self).pos as int),
            r is Ok ==> old(self).pos < final(self).pos < final(self).tokens@.len(),
        decreases old(self).tokens@.len() - old(self).pos, 7int,
    {
        let a = match self.logical_and() {
            Ok(a) => a,
            Err(x) => {
                return Err(x);
            },
        };
        self.rest3(a)
    }

    /// The `||` terms after `e`.
    #[verifier::spinoff_prover]
    #[verifier::rlimit(40)]
    fn rest3(&mut self, e: Expr) -> (r: Result<Expr, ParseError>)
        requires
            old(self).pos <= old(self).tokens@.len(),
        ensures
            unchanged(*old(self), *final(self)),
            expr_res(p_rest3(old(self).toks(), old(self).ctx(), e@, old(self).pos as int), r, final(self).pos as int),
            r is Ok ==> old(self).pos <= final(self).pos < final(self).tokens@.len(),
        decreases old(self).tokens@.len() - old(self).pos, 0int,
    {
        if self.pos >= self.tokens.len() {
            return Err(self.end_of_tokens());
        }
        if self.is_at(self.pos, TokenType::Or) {
            self.pos += 1;
            if self.pos >= self.tokens.len() {
                return Err(self.end_of_tokens());
            }
            if self.is_at(self.pos, TokenType::Or) {
                self.pos += 1;
                let ghost t = self.toks();
        let ghost c = self.ctx();
                let ghost p = old(self).pos as int;
                let ghost ev = e@;
                assert(tok(t, p + 1) == Ok::<TokenTypeV, PErr>(TokenTypeV::Or));
                let a = match self.logical_and() {
                    Ok(a) => a,
                    Err(x) => {
                        assert(p_rest3(t, c, ev, p) == Err::<(ExprV, int), PErr>((x.pos as int, x.msg@)));
                        return Err(x);
                    },
                };
                let n = Expr::Or(Box::new(e), Box::new(a));
                assert(p_rest3(t, c, ev, p) == p_rest3(t, c, n@, self.pos as int));
                return self.rest3(n);
            }
            return Ok(e);
        }
        Ok(e)
    }

    /// equality, then any `&&` terms.
    fn logical_and(&mut self) -> (r: Result<Expr, ParseError>)
        requires
            old(self).pos <= old(self).tokens@.len(),
        ensures
            unchanged(*old(self), *final(self)),
            expr_res(p_logical_and(old(self).toks(), old(self).ctx(), old(self).pos as int), r, final(self).pos as int),
            r is Ok ==> old(self).pos < final(self).pos < final(self).tokens@.len(),
        decreases old(self).tokens@.len() - old(self).pos, 6int,
    {
        let a = match self.equality() {
            Ok(a) => a,
            Err(x) => {
                return Err(x);
            },
        };
        self.rest4(a)
    }

    /// The `&&` terms after `e`.
    #[verifier::spinoff_prover]
    #[verifier::rlimit(40)]
    fn rest4(&mut self, e: Expr) -> (r: Result<Expr, ParseError>)
        requires
            old(self).pos <= old(self).tokens@.len(),
        ensures
            unchanged(*old(self), *final(self)),
            expr_res(p_rest4(old(self).toks(), old(self).ctx(), e@, old(self).pos as int), r, final(self).pos as int),
            r is Ok ==> old(self).pos <= final(self).pos < final(self).tokens@.len(),
        decreases old(self).tokens@.len() - old(self).pos, 0int,
    {
        if self.pos >= self.tokens.len() {
            return Err(self.end_of_tokens());
        }
        if self.is_at(self.pos, TokenType::And) {
            self.pos += 1;
            if self.pos >= self.tokens.len() {
                return Err(self.end_of_tokens());
            }
            if self.is_at(self.pos, TokenType::And) {
                self.pos += 1;
                let ghost t = self.toks();
        let ghost c = self.ctx();
                let ghost p = old(self).pos as int;
                let ghost ev = e@;
                assert(tok(t, p + 1) == Ok::<TokenTypeV, PErr>(TokenTypeV::And));
                let a = match self.equality() {
                    Ok(a) => a,
                    Err(x) => {
                        assert(p_rest4(t, c, ev, p) == Err::<(ExprV, int), PErr>((x.pos as int, x.msg@)));
                        return Err(x);
                    },
                };
                let n = Expr::And(Box::new(e), Box::new(a));
                assert(p_rest4(t, c, ev, p) == p_rest4(t, c, n@, self.pos as int));
                return self.rest4(n);
            }
            return Ok(e);
        }
        Ok(e)
    }

    /// relational, then any `==` or `!=` terms.
    fn equality(&mut self) -> (r: Result<Expr, ParseError>)
        requires
            old(self).pos <= old(self).tokens@.len(),
        ensures
            unchanged(*old(self), *final(self)),
            expr_res(p_equality(old(self).toks(), old(self).ctx(), old(self).pos as int), r, final(self).pos as int),
            r is Ok ==> old(self).pos < final(self).pos < final(self).tokens@.len(),
        decreases old(self).tokens@.len() - old(self).pos, 5int,
    {
        let a = match self.relational() {
            Ok(a) => a,
            Err(x) => {
                return Err(x);
            },
        };
        self.rest5(a)
    }

    /// The `==` and `!=` terms after `e`.
    #[verifier::spinoff_prover]
    #[verifier::rlimit(40)]
    fn rest5(&mut self, e: Expr) -> (r: Result<Expr, ParseError>)
        requires
            old(self).pos <= old(self).tokens@.len(),
        ensures
            unchanged(*old(self), *final(self)),
            expr_res(p_rest5(old(self).toks(), old(self).ctx(), e@, old(self).pos as int), r, final(self).pos as int),
            r is Ok ==> old(self).pos <= final(self).pos < final(self).tokens@.len(),
        decreases old(self).tokens@.len() - old(self).pos, 0int,
    {
        if self.pos >= self.tokens.len() {
            return Err(self.end_of_tokens());
        }
        let ghost t = self.toks();
        let ghost c = self.ctx();
        let ghost p = self.pos as int;
        let ghost ev = e@;
        let not = self.is_at(self.pos, TokenType::Not);
        if !not && !self.is_at(self.pos, TokenType::Equal) {
            assert(p_rest5(t, c, ev, p) == Ok::<(ExprV, int), PErr>((ev, p)));
            return Ok(e);
        }
        let ghost op = t[p];
        self.pos += 1;
        if self.pos >= self.tokens.len() {
            return Err(self.end_of_tokens());
        }
        if !self.is_at(self.pos, TokenType::Equal) {
            return Ok(e);
        }
        self.pos += 1;
        let a = match self.relational() {
            Ok(a) => a,
            Err(x) => {
                assert(p_rest5(t, c, ev, p) == Err::<(ExprV, int), PErr>((x.pos as int, x.msg@)));
                return Err(x);
            },
        };
        let ghost av = a@;
        let n = if not {
            Expr::NotEquals(Box::new(e), Box::new(a))
        } else {
            Expr::Equals(Box::new(e), Box::new(a))
        };
        assert(n@ == eq_node(op, ev, av));
        assert(p_rest5(t, c, ev, p) == p_rest5(t, c, n@, self.pos as int));
        self.rest5(n)
    }

    /// additive, then any comparisons.
    fn relational(&mut self) -> (r: Result<Expr, ParseError>)
        requires
            old(self).pos <= old(self).tokens@.len(),
        ensures
            unchanged(*old(self), *final(self)),
            expr_res(p_relational(old(self).toks(), old(self).ctx(), old(self).pos as int), r, final(self).pos as int),
            r is Ok ==> old(self).pos < final(self).pos < final(self).tokens@.len(),
        decreases old(self).tokens@.len() - old(self).pos, 4int,
    {
        let a = match self.additive() {
            Ok(a) => a,
            Err(x) => {
                return Err(x);
            },
        };
        self.rest6(a)
    }

    /// The `<`, `<=`, `>` and `>=` terms after `e`.
    #[verifier::spinoff_prover]
    #[verifier::rlimit(40)]
    fn rest6(&mut self, e: Expr) -> (r: Result<Expr, ParseError>)
        requires
            old(self).pos <= old(self).tokens@.len(),
        ensures
            unchanged(*old(self), *final(self)),
            expr_res(p_rest6(old(self).toks(), old(self).ctx(), e@, old(self).pos as int), r, final(self).pos as int),
            r is Ok ==> old(self).pos <= final(self).pos < final(self).tokens@.len(),
        decreases old(self).tokens@.len() - old(self).pos, 0int,
    {
        if self.pos >= self.tokens.len() {
            return Err(self.end_of_tokens());
        }
        let ghost t = self.toks();
        let ghost c = self.ctx();
        let ghost p = self.pos as int;
        let ghost ev = e@;
        let gt = self.is_at(self.pos, TokenType::Gt);
        if !gt && !self.is_at(self.pos, TokenType::Lt) {
            assert(p_rest6(t, c, ev, p) == Ok::<(ExprV, int), PErr>((ev, p)));
            return Ok(e);
        }
        let ghost op = t[p];
        self.pos += 1;
        if self.pos >= self.tokens.len() {
            return Err(self.end_of_tokens());
        }
        let or_equal = self.is_at(self.pos, TokenType::Equal);
        if or_equal {
            self.pos += 1;
        }
        let a = match self.additive() {
            Ok(a) => a,
            Err(x) => {
                assert(p_rest6(t, c, ev, p) == Err::<(ExprV, int), PErr>((x.pos as int, x.msg@)));
                return Err(x);
            },
        };
        let n = rel_expr(gt, or_equal, e, a);
        assert(op == (if gt { TokenTypeV::Gt } else { TokenTypeV::Lt }));
        assert(p_rest6(t, c, ev, p) == p_rest6(t, c, n@, self.pos as int));
        self.rest6(n)
    }

    /// multiplicative, then any `+` or `-` terms.
    fn additive(&mut self) -> (r: Result<Expr, ParseError>)
        requires
            old(self).pos <= old(self).tokens@.len(),
        ensures
            unchanged(*old(self), *final(self)),
            expr_res(p_additive(old(self).toks(), old(self).ctx(), old(self).pos as int), r, final(self).pos as int),
            r is Ok ==> old(self).pos < final(self).pos < final(self).tokens@.len(),
        decreases old(self).tokens@.len() - old(self).pos, 3int,
    {
        let a = match self.multiplicative() {
            Ok(a) => a,
            Err(x) => {
                return Err(x);
            },
        };
        self.rest(a)
    }

    /// The `+` and `-` terms after `e`.
    #[verifier::spinoff_prover]
    #[verifier::rlimit(40)]
    fn rest(&mut self, e: Expr) -> (r: Result<Expr, ParseError>)
        requires
            old(self).pos <= old(self).tokens@.len(),
        ensures
            unchanged(*old(self), *final(self)),
            expr_res(p_rest(old(self).toks(), old(self).ctx(), e@, old(self).pos as int), r, final(self).pos as int),
            r is Ok ==> old(self).pos <= final(self).pos < final(self).tokens@.len(),
        decreases old(self).tokens@.len() - old(self).pos, 0int,
    {
        if self.pos >= self.tokens.len() {
            return Err(self.end_of_tokens());
        }
        let ghost t = self.toks();
        let ghost c = self.ctx();
        let ghost p = self.pos as int;
        let ghost ev = e@;
        let add = self.is_at(self.pos, TokenType::Add);
        if !add && !self.is_at(self.pos, TokenType::Neg) {
            return Ok(e);
        }
        let ghost op = t[p];
        self.pos += 1;
        let a = match self.multiplicative() {
            Ok(a) => a,
            Err(x) => {
                assert(p_rest(t, c, ev, p) == Err::<(ExprV, int), PErr>((x.pos as int, x.msg@)));
                return Err(x);
            },
        };
        let ghost av = a@;
        let n = if add {
            Expr::Add(Box::new(e), Box::new(a))
        } else {
            Expr::Sub(Box::new(e), Box::new(a))
        };
        assert(n@ == add_node(op, ev, av));
        assert(p_rest(t, c, ev, p) == p_rest(t, c, n@, self.pos as int));
        self.rest(n)
    }

    /// unary, then any `*`, `/` or `%` terms.
    fn multiplicative(&mut self) -> (r: Result<Expr, ParseError>)
        requires
            old(self).pos <= old(self).tokens@.len(),
        ensures
            unchanged(*old(self), *final(self)),
            expr_res(p_multiplicative(old(self).toks(), old(self).ctx(), old(self).pos as int), r, final(self).pos as int),
            r is Ok ==> old(self).pos < final(self).pos < final(self).tokens@.len(),
        decreases old(self).tokens@.len() - old(self).pos, 2int,
    {
        let u = match self.unary() {
            Ok(a) => a,
            Err(x) => {
                return Err(x);
            },
        };
        self.rest2(Expr::Unary(u))
    }

    /// The `/`, `%` and `*` terms after `e`.
    #[verifier::spinoff_prover]
    #[verifier::rlimit(40)]
    fn rest2(&mut self, e: Expr) -> (r: Result<Expr, ParseError>)
        requires
            old(self).pos <= old(self).tokens@.len(),
        ensures
            unchanged(*old(self), *final(self)),
            expr_res(p_rest2(old(self).toks(), old(self).ctx(), e@, old(self).pos as int), r, final(self).pos as int),
            r is Ok ==> old(self).pos <= final(self).pos < final(self).tokens@.len(),
        decreases old(self).tokens@.len() - old(self).pos, 0int,
    {
        if self.pos >= self.tokens.len() {
            return Err(self.end_of_tokens());
        }
        let ghost t = self.toks();
        let ghost c = self.ctx();
        let ghost p = self.pos as int;
        let ghost ev = e@;
        let div = self.is_at(self.pos, TokenType::Div);
        let md = self.is_at(self.pos, TokenType::Mod);
        if !div && !md && !self.is_at(self.pos, TokenType::Mul) {
            return Ok(e);
        }
        let ghost op = t[p];
        self.pos += 1;
        let u = match self.unary() {
            Ok(u) => u,
            Err(x) => {
                assert(p_rest2(t, c, ev, p) == Err::<(ExprV, int), PErr>((x.pos as int, x.msg@)));
                return Err(x);
            },
        };
        let n = mul_expr(div, md, e, u);
        assert(op == (if div { TokenTypeV::Div } else if md { TokenTypeV::Mod } else { TokenTypeV::Mul }));
        assert(p_rest2(t, c, ev, p) == p_rest2(t, c, n@, self.pos as int));
        self.rest2(n)
    }

    /// A negation, a number, a bracketed expression or an identifier.
    fn unary(&mut self) -> (r: Result<Unary, ParseError>)
        requires
            old(self).pos <= old(self).tokens@.len(),
        ensures
            unchanged(*old(self), *final(self)),
            match p_unary(old(self).toks(), old(self).ctx(), old(self).pos as int) {
                Ok((u, p)) => r matches Ok(x) && x@ == u && final(self).pos == p,
                Err((p, m)) => r matches Err(er) && er.pos == p && er.msg@ == m,
            },
            r is Ok ==> old(self).pos < final(self).pos <= final(self).tokens@.len(),
        decreases old(self).tokens@.len() - old(self).pos, 1int,
    {
        if self.pos >= self.tokens.len() {
            return Err(self.end_of_tokens());
        }
        let i = self.pos;
        self.pos += 1;
        if self.is_at(i, TokenType::Neg) {
            return match self.unary() {
                Ok(u) => Ok(Unary::Neg(Box::new(u))),
                Err(x) => Err(x),
            };
        }
        if self.is_at(i, TokenType::LeftParen) {
            let e = match self.expr() {
                Ok(a) => a,
                Err(x) => {
                    return Err(x);
                },
            };
            let r = Unary::Primary(Box::new(e));
            self.pos += 1;  // skip right paren
            return Ok(r);
        }
        if let Some(val) = self.num_at(i) {
            return Ok(Unary::Int(val));
        }
        if let Some(id) = self.ident_at(i) {
            let sc = self.scope_of_name(&id);
            return Ok(Unary::Identifier(Box::new(sc), Box::new(id)));
        }
        let mut m = String::from_str("expected , actual ");
        self.push_name_at(&mut m, i);
        Err(self.bad_token(m.as_str()))
    }
    /// The type `int`.
    fn _type(&mut self) -> (r: Result<Type, ParseError>)
        requires
            old(self).pos <= old(self).tokens@.len(),
        ensures
            unchanged(*old(self), *final(self)),
            r is Ok ==> final(self).pos <= final(self).tokens@.len(),
            match p_type(old(self).toks(), old(self).pos as int) {
                Ok(q) => r == Ok::<Type, ParseError>(Type::Integer) && final(self).pos == q,
                Err((q, m)) => r matches Err(e) && e.pos == q && e.msg@ == m,
            },
    {
        match self.expect(TokenType::Int) {
            Ok(()) => Ok(Type::Integer),
            Err(x) => Err(x),
        }
    }

    /// The name at the current position.
    fn identifier(&mut self) -> (r: Result<String, ParseError>)
        requires
            old(self).pos <= old(self).tokens@.len(),
        ensures
            unchanged(*old(self), *final(self)),
            r is Ok ==> final(self).pos <= final(self).tokens@.len(),
            match p_identifier(old(self).toks(), old(self).pos as int) {
                Ok((name, q)) => r matches Ok(x) && x@ == name && final(self).pos == q,
                Err((q, m)) => r matches Err(e) && e.pos == q && e.msg@ == m,
            },
    {
        if self.pos >= self.tokens.len() {
            return Err(self.end_of_tokens());
        }
        let name = match self.ident_at(self.pos) {
            Some(id) => id,
            None => {
                return Err(self.bad_token("ident expected"));
            },
        };
        self.pos += 1;
        Ok(name)
    }

    /// A declaration's initializer, if any, and its `;`.
    fn decl_expr(&mut self) -> (r: Result<Option<Expr>, ParseError>)
        requires
            old(self).pos <= old(self).tokens@.len(),
        ensures
            unchanged(*old(self), *final(self)),
            r is Ok ==> old(self).pos < final(self).pos <= final(self).tokens@.len(),
            match p_decl_expr(old(self).toks(), old(self).ctx(), old(self).pos as int) {
                Ok((e, q)) => r matches Ok(x) && opt_expr_view(x) == e && final(self).pos == q,
                Err((q, m)) => r matches Err(er) && er.pos == q && er.msg@ == m,
            },
    {
        if self.pos >= self.tokens.len() {
            return Err(self.end_of_tokens());
        }
        let i = self.pos;
        self.pos += 1;
        if self.is_at(i, TokenType::Equal) {
            let e = match self.expr() {
                Ok(e) => e,
                Err(x) => {
                    return Err(x);
                },
            };
            match self.expect(TokenType::Semicolon) {
                Ok(()) => {},
                Err(x) => {
                    return Err(x);
                },
            }
            return Ok(Some(e));
        }
        if self.is_at(i, TokenType::Semicolon) {
            return Ok(None);
        }
        Err(self.bad_token("; or expr expected from decl"))
    }

    /// A declaration; its variable goes into the table, under the innermost
    /// open scope.
    fn decl(&mut self) -> (r: Result<Decl, ParseError>)
        requires
            old(self).pos <= old(self).tokens@.len(),
        ensures
            final(self).tokens == old(self).tokens,
            final(self).prog == old(self).prog,
            r is Ok ==> old(self).pos < final(self).pos <= final(self).tokens@.len(),
            match p_decl(old(self).toks(), old(self).ctx(), old(self).pos as int) {
                Ok((d, c, q)) => r matches Ok(x) && x@ == d && final(self).pos == q && final(self).ctx() == c,
                Err((q, m)) => r matches Err(er) && er.pos == q && er.msg@ == m,
            },
    {
        let t = match self._type() {
            Ok(t) => t,
            Err(x) => {
                return Err(x);
            },
        };
        let name = match self.identifier() {
            Ok(n) => n,
            Err(x) => {
                return Err(x);
            },
        };
        let expr = match self.decl_expr() {
            Ok(e) => e,
            Err(x) => {
                return Err(x);
            },
        };
        self.symbols.put(self.env.clone(), name.clone(), Symbol::new(name.clone()));
        Ok(Decl { t, name, indexes: VecDeque::new(), expr, scope: self.env.clone() })
    }

    /// A statement.
    fn stmt(&mut self) -> (r: Result<Stmt, ParseError>)
        requires
            old(self).pos <= old(self).tokens@.len(),
        ensures
            final(self).tokens == old(self).tokens,
            final(self).prog == old(self).prog,
            r is Ok ==> old(self).pos < final(self).pos <= final(self).tokens@.len(),
            stmt_res(p_stmt(old(self).toks(), old(self).ctx(), old(self).pos as int), r, final(self).ctx(), final(self).pos as int),
        decreases old(self).tokens@.len() - old(self).pos, 1int,
    {
        if self.pos >= self.tokens.len() {
            return Err(self.end_of_tokens());
        }
        if self.is_at(self.pos, TokenType::Return) {
            self.pos += 1;  // eat return
            let e = match self.expr() {
                Ok(e) => e,
                Err(x) => {
                    return Err(x);
                },
            };
            match self.expect(TokenType::Semicolon) {
                Ok(()) => {},
                Err(x) => {
                    return Err(x);
                },
            }
            return Ok(Stmt::Ret(e));
        }
        if self.is_at(self.pos, TokenType::Semicolon) {
            self.pos += 1;  // eat ;
            return Ok(Stmt::Expr(Some(Expr::Null)));
        }
        if self.is_at(self.pos, TokenType::If) {
            return self.if_stmt();
        }
        if self.is_at(self.pos, TokenType::While) {
            return self.while_stmt();
        }
        if self.is_at(self.pos, TokenType::LeftBrace) {
            return self.block_stmt();
        }
        let e = match self.expr() {
            Ok(e) => e,
            Err(x) => {
                return Err(x);
            },
        };
        match self.expect(TokenType::Semicolon) {
            Ok(()) => {},
            Err(x) => {
                return Err(x);
            },
        }
        Ok(Stmt::Expr(Some(e)))
    }

    /// An `if` statement, with its `else` branch if it has one.
    fn if_stmt(&mut self) -> (r: Result<Stmt, ParseError>)
        requires
            old(self).pos < old(self).tokens@.len(),
            old(self).toks()[old(self).pos as int] == TokenTypeV::If,
        ensures
            final(self).tokens == old(self).tokens,
            final(self).prog == old(self).prog,
            r is Ok ==> old(self).pos < final(self).pos <= final(self).tokens@.len(),
            stmt_res(p_stmt(old(self).toks(), old(self).ctx(), old(self).pos as int), r, final(self).ctx(), final(self).pos as int),
        decreases old(self).tokens@.len() - old(self).pos, 0int,
    {
        let ghost t = self.toks();
        let ghost c = self.ctx();
        let ghost p = self.pos as int;
        match self.expect(TokenType::If) {
            Ok(()) => {},
            Err(x) => {
                return Err(x);
            },
        }
        match self.expect(TokenType::LeftParen) {
            Ok(()) => {},
            Err(x) => {
                return Err(x);
            },
        }
        let condition = match self.expr() {
            Ok(e) => e,
            Err(x) => {
                return Err(x);
            },
        };
        match self.expect(TokenType::RightParen) {
            Ok(()) => {},
            Err(x) => {
                return Err(x);
            },
        }
        let ghost p3 = self.pos as int;
        let then_stmt = match self.stmt() {
            Ok(s) => s,
            Err(x) => {
                assert(p_stmt(t, c, p) == p_stmt(t, c, p3));
                return Err(x);
            },
        };
        if self.pos >= self.tokens.len() {
            return Err(self.end_of_tokens());
        }
        let mut else_stmt = None;
        if self.is_at(self.pos, TokenType::Else) {
            self.pos += 1;  // eat else
            let ghost c1 = self.ctx();
            let ghost p5 = self.pos as int;
            match self.stmt() {
                Ok(s) => {
                    else_stmt = Some(Box::new(s));
                },
                Err(x) => {
                    assert(p_stmt(t, c, p) == p_stmt(t, c1, p5));
                    return Err(x);
                },
            }
        }
        Ok(Stmt::If(condition, Box::new(then_stmt), else_stmt))
    }

    /// A `while` loop.
    fn while_stmt(&mut self) -> (r: Result<Stmt, ParseError>)
        requires
            old(self).pos < old(self).tokens@.len(),
            old(self).toks()[old(self).pos as int] == TokenTypeV::While,
        ensures
            final(self).tokens == old(self).tokens,
            final(self).prog == old(self).prog,
            r is Ok ==> old(self).pos < final(self).pos <= final(self).tokens@.len(),
            stmt_res(p_stmt(old(self).toks(), old(self).ctx(), old(self).pos as int), r, final(self).ctx(), final(self).pos as int),
        decreases old(self).tokens@.len() - old(self).pos, 0int,
    {
        let ghost t = self.toks();
        let ghost c = self.ctx();
        let ghost p = self.pos as int;
        match self.expect(TokenType::While) {
            Ok(()) => {},
            Err(x) => {
                return Err(x);
            },
        }
        match self.expect(TokenType::LeftParen) {
            Ok(()) => {},
            Err(x) => {
                return Err(x);
            },
        }
        let condition = match self.expr() {
            Ok(e) => e,
            Err(x) => {
                return Err(x);
            },
        };
        match self.expect(TokenType::RightParen) {
            Ok(()) => {},
            Err(x) => {
                return Err(x);
            },
        }
        let ghost p3 = self.pos as int;
        let body = match self.stmt() {
            Ok(s) => s,
            Err(x) => {
                assert(p_stmt(t, c, p) == p_stmt(t, c, p3));
                return Err(x);
            },
        };
        Ok(Stmt::While(condition, Box::new(body)))
    }

    /// A block `{ items }`, whose variables go in a scope of its own: a child
    /// of the innermost open scope, numbered after the blocks before it.
    fn block_stmt(&mut self) -> (r: Result<Stmt, ParseError>)
        requires
            old(self).pos < old(self).tokens@.len(),
            old(self).toks()[old(self).pos as int] == TokenTypeV::LeftBrace,
        ensures
            final(self).tokens == old(self).tokens,
            final(self).prog == old(self).prog,
            r is Ok ==> old(self).pos < final(self).pos <= final(self).tokens@.len(),
            stmt_res(p_stmt(old(self).toks(), old(self).ctx(), old(self).pos as int), r, final(self).ctx(), final(self).pos as int),
        decreases old(self).tokens@.len() - old(self).pos, 0int,
    {
        let ghost t = self.toks();
        let ghost c = self.ctx();
        let ghost p = self.pos as int;
        if self.next == u32::MAX {
            return Err(self.bad_token("too many blocks"));
        }
        match self.expect(TokenType::LeftBrace) {
            Ok(()) => {},
            Err(x) => {
                return Err(x);
            },
        }
        let outer = self.env.clone();
        self.env.push(self.next);
        self.next = self.next + 1;
        assert(self.ctx() == enter_block(c));
        let items = match self.items() {
            Ok(b) => b,
            Err(x) => {
                return Err(x);
            },
        };
        match self.expect(TokenType::RightBrace) {
            Ok(()) => {},
            Err(x) => {
                return Err(x);
            },
        }
        self.env = outer;
        Ok(Stmt::Block(items))
    }

    /// A declaration or a statement; `None` at the closing brace.
    fn block_item(&mut self) -> (r: Result<Option<BlockItem>, ParseError>)
        requires
            old(self).pos <= old(self).tokens@.len(),
        ensures
            final(self).tokens == old(self).tokens,
            final(self).prog == old(self).prog,
            r is Ok ==> final(self).pos <= final(self).tokens@.len(),
            match p_block_item(old(self).toks(), old(self).ctx(), old(self).pos as int) {
                Ok((b, c, q)) => r matches Ok(x) && final(self).pos == q && final(self).ctx() == c && match (x, b) {
                    (Some(bi), Some(bv)) => bi@ == bv,
                    (None, None) => true,
                    _ => false,
                },
                Err((q, m)) => r matches Err(er) && er.pos == q && er.msg@ == m,
            },
            r matches Ok(Some(_)) ==> old(self).pos < final(self).pos,
        decreases old(self).tokens@.len() - old(self).pos, 2int,
    {
        if self.pos >= self.tokens.len() {
            return Err(self.end_of_tokens());
        }
        if self.is_at(self.pos, TokenType::Int) {
            let d = match self.decl() {
                Ok(d) => d,
                Err(x) => {
                    return Err(x);
                },
            };
            return Ok(Some(BlockItem::Decl(d)));
        }
        if self.is_at(self.pos, TokenType::RightBrace) {
            return Ok(None);  // when } finish.
        }
        let st = match self.stmt() {
            Ok(s) => s,
            Err(x) => {
                return Err(x);
            },
        };
        Ok(Some(BlockItem::Stmt(st)))
    }

    /// The items of a block, up to its closing brace, which is left unread.
    #[verifier::loop_isolation(false)]
    fn items(&mut self) -> (r: Result<Vec<BlockItem>, ParseError>)
        requires
            old(self).pos <= old(self).tokens@.len(),
        ensures
            final(self).tokens == old(self).tokens,
            final(self).prog == old(self).prog,
            r is Ok ==> old(self).pos <= final(self).pos <= final(self).tokens@.len(),
            match p_items(old(self).toks(), old(self).ctx(), old(self).pos as int) {
                Ok((bs, c, q)) => r matches Ok(x) && block_items_view(x@) == bs && final(self).ctx() == c
                    && final(self).pos == q,
                Err((q, m)) => r matches Err(er) && er.pos == q && er.msg@ == m,
            },
        decreases old(self).tokens@.len() - old(self).pos, 3int,
    {
        let ghost t = self.toks();
        let ghost c0 = self.ctx();
        let ghost p0 = self.pos as int;
        let mut body: Vec<BlockItem> = Vec::new();
        assert(block_items_view(body@) =~= Seq::<BlockItemV>::empty());
        assert(p_items(t, c0, p0) == prepend(Seq::empty(), p_items(t, c0, p0)));
        loop
            invariant
                self.tokens == old(self).tokens,
                self.prog == old(self).prog,
                t == self.toks(),
                p0 <= self.pos <= self.tokens@.len(),
                p_items(t, c0, p0) == prepend(block_items_view(body@), p_items(t, self.ctx(), self.pos as int)),
            decreases self.tokens@.len() - self.pos,
        {
            let ghost bv = block_items_view(body@);
            match self.block_item() {
                Ok(Some(s)) => {
                    let ghost sv = s@;
                    let ghost prev = body@;
                    body.push(s);
                    proof {
                        lemma_block_items_view_last(body@);
                        assert(body@.drop_last() =~= prev);
                        assert(block_items_view(body@) =~= bv.push(sv));
                        lemma_prepend_step(bv, sv, p_items(t, self.ctx(), self.pos as int));
                    }
                },
                Ok(None) => {
                    assert(bv + Seq::<BlockItemV>::empty() =~= bv);
                    break;
                },
                Err(x) => {
                    return Err(x);
                },
            }
        }
        Ok(body)
    }

    /// A parameter `int name`; it goes into the table, under the innermost
    /// open scope.
    fn param(&mut self) -> (r: Result<Param, ParseError>)
        requires
            old(self).pos <= old(self).tokens@.len(),
        ensures
            final(self).tokens == old(self).tokens,
            final(self).prog == old(self).prog,
            r is Ok ==> old(self).pos < final(self).pos <= final(self).tokens@.len(),
            match p_param(old(self).toks(), old(self).ctx(), old(self).pos as int) {
                Ok((x, c, q)) => r matches Ok(y) && y@ == x && final(self).pos == q && final(self).ctx() == c,
                Err((q, m)) => r matches Err(er) && er.pos == q && er.msg@ == m,
            },
    {
        match self._type() {
            Ok(_) => {},
            Err(x) => {
                return Err(x);
            },
        }
        let name = match self.identifier() {
            Ok(n) => n,
            Err(x) => {
                return Err(x);
            },
        };
        self.symbols.put(self.env.clone(), name.clone(), Symbol::new(name.clone()));
        Ok(Param::new(self.env.clone(), name))
    }

    /// Parameters separated by commas.
    fn param_list(&mut self) -> (r: Result<Vec<Param>, ParseError>)
        requires
            old(self).pos <= old(self).tokens@.len(),
        ensures
            final(self).tokens == old(self).tokens,
            final(self).prog == old(self).prog,
            r is Ok ==> old(self).pos <= final(self).pos <= final(self).tokens@.len(),
            match p_param_list(old(self).toks(), old(self).ctx(), old(self).pos as int) {
                Ok((xs, c, q)) => r matches Ok(v) && params_view(v@) == xs && final(self).pos == q
                    && final(self).ctx() == c,
                Err((q, m)) => r matches Err(er) && er.pos == q && er.msg@ == m,
            },
        decreases old(self).tokens@.len() - old(self).pos,
    {
        let ghost t = self.toks();
        let ghost c = self.ctx();
        let ghost p = self.pos as int;
        let x = match self.param() {
            Ok(x) => x,
            Err(e) => {
                return Err(e);
            },
        };
        if self.pos >= self.tokens.len() {
            return Err(self.end_of_tokens());
        }
        if !self.is_at(self.pos, TokenType::Comma) {
            let v = vec![x];
            assert(params_view(v@) =~= seq![v@[0]@]);
            return Ok(v);
        }
        self.pos += 1;
        let ghost c1 = self.ctx();
        let ghost p2 = self.pos as int;
        let ghost xv = x@;
        let mut rest = match self.param_list() {
            Ok(v) => v,
            Err(e) => {
                assert(p_param_list(t, c, p) == p_param_list(t, c1, p2));
                return Err(e);
            },
        };
        let ghost rv = rest@;
        rest.insert(0, x);
        assert(params_view(rest@) =~= seq![xv] + params_view(rv));
        Ok(rest)
    }

    /// The parameters of a function, if `int` comes first.
    fn params(&mut self) -> (r: Result<Vec<Param>, ParseError>)
        requires
            old(self).pos <= old(self).tokens@.len(),
        ensures
            final(self).tokens == old(self).tokens,
            final(self).prog == old(self).prog,
            r is Ok ==> final(self).pos <= final(self).tokens@.len(),
            match p_params(old(self).toks(), old(self).ctx(), old(self).pos as int) {
                Ok((xs, c, q)) => r matches Ok(v) && params_view(v@) == xs && final(self).pos == q
                    && final(self).ctx() == c,
                Err((q, m)) => r matches Err(er) && er.pos == q && er.msg@ == m,
            },
    {
        if self.pos >= self.tokens.len() {
            return Err(self.end_of_tokens());
        }
        if self.is_at(self.pos, TokenType::Int) {
            return self.param_list();
        }
        let v: Vec<Param> = Vec::new();
        assert(params_view(v@) =~= Seq::<ParamV>::empty());
        Ok(v)
    }

    /// A function: `int name(params) { items }`, with its parameters and the
    /// variables it declares added to the table.
    fn func(&mut self) -> (r: Result<Func, ParseError>)
        requires
            old(self).pos <= old(self).tokens@.len(),
        ensures
            final(self).tokens == old(self).tokens,
            final(self).prog == old(self).prog,
            match p_func(old(self).toks(), old(self).ctx(), old(self).pos as int) {
                Ok((f, c, q)) => r matches Ok(x) && x@ == f && final(self).pos == q && final(self).ctx() == c,
                Err((q, m)) => r matches Err(er) && er.pos == q && er.msg@ == m,
            },
    {
        match self._type() {
            Ok(_) => {},
            Err(x) => {
                return Err(x);
            },
        }
        let ident = match self.identifier() {
            Ok(n) => n,
            Err(x) => {
                return Err(x);
            },
        };
        match self.expect(TokenType::LeftParen) {
            Ok(()) => {},
            Err(x) => {
                return Err(x);
            },
        }
        let params = match self.params() {
            Ok(v) => v,
            Err(x) => {
                return Err(x);
            },
        };
        match self.expect(TokenType::RightParen) {
            Ok(()) => {},
            Err(x) => {
                return Err(x);
            },
        }
        match self.expect(TokenType::LeftBrace) {
            Ok(()) => {},
            Err(x) => {
                return Err(x);
            },
        }
        let body = match self.items() {
            Ok(b) => b,
            Err(x) => {
                return Err(x);
            },
        };
        match self.expect(TokenType::RightBrace) {
            Ok(()) => {},
            Err(x) => {
                return Err(x);
            },
        }
        Ok(Func { name: ident, stmt: body, params })
    }

    /// Parses the program: one function.
    fn prog(&mut self) -> (r: Result<(), ParseError>)
        requires
            old(self).pos <= old(self).tokens@.len(),
        ensures
            final(self).tokens == old(self).tokens,
            match p_func(old(self).toks(), old(self).ctx(), old(self).pos as int) {
                Ok((f, c, q)) => r is Ok && final(self).parsed() == Some(ProgV { funcs: seq![f], global_vars: Seq::empty() })
                    && final(self).ctx() == c,
                Err((q, m)) => r matches Err(er) && er.pos == q && er.msg@ == m,
            },
    {
        let f = match self.func() {
            Ok(f) => f,
            Err(x) => {
                return Err(x);
            },
        };
        let funcs = vec![f];
        let global_vars: Vec<Decl> = Vec::new();
        self.prog = Some(Prog { funcs, global_vars });
        proof {
            let pv = self.prog.unwrap()@;
            assert(pv.funcs =~= seq![f@]);
            assert(pv.global_vars =~= Seq::<DeclV>::empty());
        }
        Ok(())
    }

    /// The scope that a use of `name` here refers to.
    fn scope_of_name(&self, name: &String) -> (r: Vec<u32>)
        ensures
            r@ == scope_of(self.ctx(), name@),
    {
        proof {
            reveal(scope_of);
        }
        let (found, sc) = self.symbols.extis(&self.env, name);
        if found {
            sc
        } else {
            self.env.clone()
        }
    }
}

/// `bs` before the items that `r` holds.
pub open spec fn prepend(bs: Seq<BlockItemV>, r: Result<(Seq<BlockItemV>, Ctx, int), PErr>) -> Result<
    (Seq<BlockItemV>, Ctx, int),
    PErr,
> {
    match r {
        Ok((xs, c, q)) => Ok((bs + xs, c, q)),
        Err(x) => Err(x),
    }
}

proof fn lemma_prepend_step(bs: Seq<BlockItemV>, b: BlockItemV, r: Result<(Seq<BlockItemV>, Ctx, int), PErr>)
    ensures
        prepend(bs, prepend(seq![b], r)) == prepend(bs.push(b), r),
{
    match r {
        Ok((xs, c, q)) => {
            assert(bs + (seq![b] + xs) =~= bs.push(b) + xs);
        },
        Err(x) => {},
    }
}

/// Parses `tokens` into a program of one function, with the table of the
/// variables that it declares; or says where and why it could not.
fn parse(tokens: &Vec<Token>) -> (r: Result<(Prog, SymTab), ParseError>)
    ensures
        match spec_parsing(tokens_view(tokens@)) {
            Ok((pv, m)) => r matches Ok((prog, table)) && prog@ == pv && table@ == m,
            Err((q, msg)) => r matches Err(e) && e.pos == q && e.msg@ == msg,
        },
{
    let mut parser = Parser::new(copy_tokens(tokens));
    match parser.prog() {
        Ok(()) => {},
        Err(x) => {
            return Err(x);
        },
    }
    if let Some(prog) = parser.prog {
        Ok((prog, parser.symbols))
    } else {
        Err(parser.bad_token("Error in parsing"))
    }
}

/// Whether `tokens` begin with a program: `Ok`, or where and why not.
pub fn check_syntax(tokens: &Vec<Token>) -> (r: Result<(), ParseError>)
    ensures
        match spec_parsing(tokens_view(tokens@)) {
            Ok(_) => r is Ok,
            Err((q, msg)) => r matches Err(e) && e.pos == q && e.msg@ == msg,
        },
{
    match parse(tokens) {
        Ok(_) => Ok(()),
        Err(e) => Err(e),
    }
}

/// Parses `tokens` into a program of one function, with the table of the
/// variables that it declares.
pub fn parsing(tokens: &Vec<Token>) -> (r: (Prog, SymTab))
    requires
        spec_parsing(tokens_view(tokens@)) is Ok,
    ensures
        spec_parsing(tokens_view(tokens@)) == Ok::<(ProgV, Map<(Seq<u32>, Seq<char>), SymbolV>), PErr>((r.0@, r.1@)),
{
    match parse(tokens) {
        Ok(pt) => pt,
        Err(_) => {
            proof {
                assert(false);
            }
            (Prog { funcs: Vec::new(), global_vars: Vec::new() }, SymTab::init())
        },
    }
}

/// The comparison node `e < a`, `e <= a`, `e > a` or `e >= a`.
fn rel_expr(gt: bool, or_equal: bool, e: Expr, a: Expr) -> (n: Expr)
    ensures
        n@ == rel_node(if gt { TokenTypeV::Gt } else { TokenTypeV::Lt }, or_equal, e@, a@),
{
    if gt {
        if or_equal {
            Expr::Get(Box::new(e), Box::new(a))
        } else {
            Expr::Gt(Box::new(e), Box::new(a))
        }
    } else {
        if or_equal {
            Expr::Let(Box::new(e), Box::new(a))
        } else {
            Expr::Lt(Box::new(e), Box::new(a))
        }
    }
}

/// The node `e / u`, `e % u` or `e * u`.
fn mul_expr(div: bool, md: bool, e: Expr, u: Unary) -> (n: Expr)
    ensures
        n@ == mul_node(if div { TokenTypeV::Div } else if md { TokenTypeV::Mod } else { TokenTypeV::Mul }, e@, u@),
{
    let ue = Expr::Unary(u);
    assert(ue@ == ExprV::Unary(u@));
    if div {
        Expr::Div(Box::new(e), Box::new(ue))
    } else if md {
        Expr::Mod(Box::new(e), Box::new(ue))
    } else {
        Expr::Mul(Box::new(e), Box::new(ue))
    }
}

/// The scope of the function body, as a vector.
fn scope_vec() -> (r: Vec<u32>)
    ensures
        r@ == func_scope(),
{
    let r = vec![1u32, 2u32];
    assert(r@ =~= func_scope());
    r
}

} // verus!
