//! What the binary operators of the source mean, and what the arithmetic
//! statements of the intermediate representation compute: the meaning of the
//! RISC-V code that `write_asm` writes for each of them.
use vstd::prelude::*;
use crate::ir::{IrStmtV, Str};
use crate::ast::ExprV;

verus! {

/// 1 for true, 0 for false.
pub open spec fn truth(b: bool) -> int {
    if b {
        1
    } else {
        0
    }
}

/// Division rounded toward zero, as `div` does; by zero it gives -1.
pub open spec fn div_t(a: int, b: int) -> int {
    if b == 0 {
        -1
    } else {
        let q = (if a < 0 { -a } else { a }) / (if b < 0 { -b } else { b });
        if (a < 0) != (b < 0) {
            -q
        } else {
            q
        }
    }
}

/// The remainder of `div_t`, as `rem` gives it; by zero it is the dividend.
pub open spec fn rem_t(a: int, b: int) -> int {
    if b == 0 {
        a
    } else {
        a - b * div_t(a, b)
    }
}

/// The value of the binary operator of `e` on the value `l` of its left
/// operand and `r` of its right one; comparisons and logic give 1 or 0.
pub open spec fn source_value(e: ExprV, l: int, r: int) -> int {
    match e {
        ExprV::Add(..) => l + r,
        ExprV::Sub(..) => l - r,
        ExprV::Mul(..) => l * r,
        ExprV::Div(..) => div_t(l, r),
        ExprV::Mod(..) => rem_t(l, r),
        ExprV::Lt(..) => truth(l < r),
        ExprV::Gt(..) => truth(l > r),
        ExprV::Let(..) => truth(l <= r),
        ExprV::Get(..) => truth(l >= r),
        ExprV::And(..) => truth(l != 0 && r != 0),
        ExprV::Or(..) => truth(l != 0 || r != 0),
        ExprV::Equals(..) => truth(l == r),
        ExprV::NotEquals(..) => truth(l != r),
        _ => 0,
    }
}

/// The register an arithmetic statement `Op(x, y, ..)` reads its right
/// operand from: `x`, the last operand of the instruction it is written as
/// (`op d ,y ,x`).
pub open spec fn ir_right(s: IrStmtV) -> Str {
    match s {
        IrStmtV::Add(x, _, _) | IrStmtV::Sub(x, _, _) | IrStmtV::Mul(x, _, _) | IrStmtV::Div(x, _, _)
        | IrStmtV::Mod(x, _, _) | IrStmtV::Or(x, _, _) | IrStmtV::And(x, _, _) | IrStmtV::Lt(x, _, _)
        | IrStmtV::Gt(x, _, _) => x,
        IrStmtV::Equal(x, _, _, _) | IrStmtV::NotEqual(x, _, _, _) => x,
        IrStmtV::Let(x, _, _, _, _, _) | IrStmtV::Get(x, _, _, _, _, _) => x,
        _ => Seq::empty(),
    }
}

/// The register an arithmetic statement `Op(x, y, ..)` reads its left
/// operand from: `y`.
pub open spec fn ir_left(s: IrStmtV) -> Str {
    match s {
        IrStmtV::Add(_, y, _) | IrStmtV::Sub(_, y, _) | IrStmtV::Mul(_, y, _) | IrStmtV::Div(_, y, _)
        | IrStmtV::Mod(_, y, _) | IrStmtV::Or(_, y, _) | IrStmtV::And(_, y, _) | IrStmtV::Lt(_, y, _)
        | IrStmtV::Gt(_, y, _) => y,
        IrStmtV::Equal(_, y, _, _) | IrStmtV::NotEqual(_, y, _, _) => y,
        IrStmtV::Let(_, y, _, _, _, _) | IrStmtV::Get(_, y, _, _, _, _) => y,
        _ => Seq::empty(),
    }
}

/// What an arithmetic statement leaves in its result register when its left
/// operand holds `l` and its right one `r`: `add`, `sub`, `mul`, `div`, `rem`,
/// `slt`, `sgt`; `or` then `snez`; `snez`, negate, `and`, `snez`; `sub` then
/// `seqz` or `snez`; and for `<=` and `>=` the equality or the strict
/// comparison.
pub open spec fn ir_result(s: IrStmtV, l: int, r: int) -> int {
    match s {
        IrStmtV::Add(..) => l + r,
        IrStmtV::Sub(..) => l - r,
        IrStmtV::Mul(..) => l * r,
        IrStmtV::Div(..) => div_t(l, r),
        IrStmtV::Mod(..) => rem_t(l, r),
        IrStmtV::Or(..) => truth(l != 0 || r != 0),
        IrStmtV::And(..) => truth(l != 0 && r != 0),
        IrStmtV::Lt(..) => truth(l < r),
        IrStmtV::Gt(..) => truth(l > r),
        IrStmtV::Equal(..) => truth(l == r),
        IrStmtV::NotEqual(..) => truth(l != r),
        IrStmtV::Let(..) => truth(l == r || l < r),
        IrStmtV::Get(..) => truth(l == r || l > r),
        _ => 0,
    }
}

/// What an arithmetic statement computes from the values `env` gives its
/// registers.
pub open spec fn ir_value(s: IrStmtV, env: Map<Str, int>) -> int {
    ir_result(s, env[ir_left(s)], env[ir_right(s)])
}

/// The instruction that computes a one-instruction arithmetic statement, as
/// `write_asm` writes it: `ir_result` gives its meaning.
pub open spec fn instruction(s: IrStmtV) -> Seq<char> {
    match s {
        IrStmtV::Add(..) => "  add "@,
        IrStmtV::Sub(..) => "  sub "@,
        IrStmtV::Mul(..) => "  mul "@,
        IrStmtV::Div(..) => "  div "@,
        IrStmtV::Mod(..) => "  mod "@,
        IrStmtV::Lt(..) => "  slt "@,
        IrStmtV::Gt(..) => "  sgt "@,
        _ => Seq::empty(),
    }
}

/// Whether `s` is computed by one instruction.
pub open spec fn one_instruction(s: IrStmtV) -> bool {
    s is Add || s is Sub || s is Mul || s is Div || s is Mod || s is Lt || s is Gt
}

/// The register that a one-instruction statement `Op(x, y, d)` writes: `d`.
pub open spec fn ir_dest(s: IrStmtV) -> Str {
    match s {
        IrStmtV::Add(_, _, d) | IrStmtV::Sub(_, _, d) | IrStmtV::Mul(_, _, d) | IrStmtV::Div(_, _, d)
        | IrStmtV::Mod(_, _, d) | IrStmtV::Lt(_, _, d) | IrStmtV::Gt(_, _, d) => d,
        _ => Seq::empty(),
    }
}

} // verus!
