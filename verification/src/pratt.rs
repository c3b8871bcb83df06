//! The operator-precedence parser: from a line of tokens to a tree.
use crate::ast::{view_exprs, view_op, ExprView, MathExpression, OpView, Operator};
use crate::lexer::{between_brackets, insert_multiple_between_paren, lexed, Lexer};
use crate::tree::{clone_tree, view_tree, view_trees, MathExpressionTree, Token, TokenView, TreeView};
use vstd::prelude::*;

verus! {

/// Why a line of tokens is not an expression.
#[derive(Debug, PartialEq, Eq, Clone, Copy, Structural)]
pub enum ExprError {
    /// The line ends where an operand has to stand.
    UnexpectedEnd,
    /// An operand stands where an operator has to stand.
    UnexpectedAtom,
    /// An opening bracket is not closed where its content ends.
    MissingRparen,
    /// An operator stands in front of an operand and cannot.
    NoPrefixRule,
    /// An operator without a variant of its own stands where an operator has to stand.
    UnhandledOperator,
    /// A minimum has fewer operands than its flattening reads, or an operator has none.
    MinShape,
}

// ------------------------------------------------------------------ binding powers

/// How strongly an operator in front of an operand binds it, if it can stand there.
pub open spec fn prefix_bp(o: OpView) -> Option<u8> {
    match o {
        OpView::Add | OpView::Subtract => Some(9u8),
        OpView::Exp | OpView::Cos | OpView::Sin | OpView::Tan => Some(21u8),
        OpView::Mean
        | OpView::SurfaceInt
        | OpView::Gradient { .. }
        | OpView::Derivative { .. }
        | OpView::Div
        | OpView::Laplacian
        | OpView::Abs
        | OpView::Sqrt
        | OpView::Min
        | OpView::Summation { .. }
        | OpView::Hat { .. }
        | OpView::Int { .. }
        | OpView::Logarithm(_) => Some(25u8),
        _ => None,
    }
}

/// How strongly an operator behind an operand binds it, if it can stand there.
pub open spec fn postfix_bp(o: OpView) -> Option<u8> {
    match o {
        OpView::Factorial => Some(11u8),
        _ => None,
    }
}

/// How strongly an operator between two operands binds the left one and the right one, if
/// it can stand there.
pub open spec fn infix_bp(o: OpView) -> Option<(u8, u8)> {
    match o {
        OpView::Equals => Some((1u8, 2u8)),
        OpView::Add => Some((3u8, 4u8)),
        OpView::Subtract => Some((5u8, 6u8)),
        OpView::Multiply => Some((7u8, 8u8)),
        OpView::Divide => Some((9u8, 10u8)),
        OpView::Compose => Some((14u8, 13u8)),
        OpView::Power => Some((15u8, 16u8)),
        OpView::Dot => Some((17u8, 18u8)),
        OpView::Cross => Some((17u8, 18u8)),
        OpView::Comma => Some((14u8, 13u8)),
        OpView::Min => Some((14u8, 13u8)),
        _ => None,
    }
}

/// Whether an operator can stand in front of an operand.
pub fn is_prefix_operator(op: &Operator) -> (r: bool)
    ensures
        r == (prefix_bp(op@) is Some),
{
    match op {
        Operator::Add
        | Operator::Subtract
        | Operator::Exp
        | Operator::Cos
        | Operator::Sin
        | Operator::Tan
        | Operator::Mean
        | Operator::SurfaceInt
        | Operator::Gradient(_)
        | Operator::Derivative(_)
        | Operator::Div
        | Operator::Laplacian
        | Operator::Abs
        | Operator::Sqrt
        | Operator::Min
        | Operator::Summation(_)
        | Operator::Hat(_)
        | Operator::Int(_)
        | Operator::Logarithm(_) => true,
        _ => false,
    }
}

/// The binding power of an operator that can stand in front of an operand.
pub fn prefix_binding_power(op: &Operator) -> (r: u8)
    requires
        prefix_bp(op@) is Some,
    ensures
        prefix_bp(op@) == Some(r),
{
    match op {
        Operator::Add | Operator::Subtract => 9,
        Operator::Exp | Operator::Cos | Operator::Sin | Operator::Tan => 21,
        Operator::Mean
        | Operator::SurfaceInt
        | Operator::Gradient(_)
        | Operator::Derivative(_)
        | Operator::Div
        | Operator::Laplacian
        | Operator::Abs
        | Operator::Sqrt
        | Operator::Min
        | Operator::Summation(_)
        | Operator::Hat(_)
        | Operator::Int(_)
        | Operator::Logarithm(_) => 25,
        _ => unreached(),
    }
}

/// The binding power of an operator behind an operand, if it can stand there.
pub fn postfix_binding_power(op: &Operator) -> (r: Option<u8>)
    ensures
        r == postfix_bp(op@),
{
    match op {
        Operator::Factorial => Some(11),
        _ => None,
    }
}

/// The binding powers of an operator between two operands, if it can stand there. An
/// operator without a variant of its own has no place in the table.
pub fn infix_binding_power(op: &Operator) -> (r: Option<(u8, u8)>)
    requires
        !(op@ is Other),
    ensures
        r == infix_bp(op@),
{
    match op {
        Operator::Equals => Some((1, 2)),
        Operator::Add => Some((3, 4)),
        Operator::Subtract => Some((5, 6)),
        Operator::Multiply => Some((7, 8)),
        Operator::Divide => Some((9, 10)),
        Operator::Compose => Some((14, 13)),
        Operator::Power => Some((15, 16)),
        Operator::Dot => Some((17, 18)),
        Operator::Cross => Some((17, 18)),
        Operator::Comma => Some((14, 13)),
        Operator::Min => Some((14, 13)),
        Operator::Other(_) => unreached(),
        _ => None,
    }
}

/// Whether an operator is one without a variant of its own.
pub fn is_other_operator(op: &Operator) -> (r: bool)
    ensures
        r == (op@ is Other),
{
    match op {
        Operator::Other(_) => true,
        _ => false,
    }
}

// ------------------------------------------------------------------ what an expression is

/// One expression read from the front of a line, and the tokens behind it: an operand (a
/// leaf, a bracketed expression, or a prefix operator with its operand), followed by every
/// postfix and infix operator that binds at least as strongly as `min_bp`.
pub open spec fn parse_bp(s: Seq<TokenView>, min_bp: u8) -> Result<(TreeView, Seq<TokenView>), ExprError>
    decreases s.len(), 1nat,
{
    if s.len() == 0 {
        Err(ExprError::UnexpectedEnd)
    } else {
        match s[0] {
            TokenView::Eof => Err(ExprError::UnexpectedEnd),
            TokenView::Atom(e) => parse_loop(TreeView::Atom(e), s.skip(1), min_bp),
            TokenView::Op(OpView::Lparen) => match parse_bp(s.skip(1), 0) {
                Err(e) => Err(e),
                Ok((inner, rest)) => if rest.len() == 0 || rest.len() >= s.len() {
                    Err(ExprError::MissingRparen)
                } else if rest[0] == TokenView::Op(OpView::Rparen) {
                    parse_loop(inner, rest.skip(1), min_bp)
                } else {
                    Err(ExprError::MissingRparen)
                },
            },
            TokenView::Op(op) => match prefix_bp(op) {
                None => Err(ExprError::NoPrefixRule),
                Some(r_bp) => match parse_bp(s.skip(1), r_bp) {
                    Err(e) => Err(e),
                    Ok((rhs, rest)) => if rest.len() >= s.len() {
                        Err(ExprError::UnexpectedEnd)
                    } else {
                        parse_loop(TreeView::Cons(op, seq![rhs]), rest, min_bp)
                    },
                },
            },
        }
    }
}

/// The expression that starts with `lhs`, continued by the operators at the front of a line.
pub open spec fn parse_loop(lhs: TreeView, s: Seq<TokenView>, min_bp: u8) -> Result<
    (TreeView, Seq<TokenView>),
    ExprError,
>
    decreases s.len(), 0nat,
{
    if s.len() == 0 {
        Ok((lhs, s))
    } else {
        match s[0] {
            TokenView::Eof => Ok((lhs, s)),
            TokenView::Atom(_) => Err(ExprError::UnexpectedAtom),
            TokenView::Op(op) => match postfix_bp(op) {
                Some(l_bp) => if l_bp < min_bp {
                    Ok((lhs, s))
                } else {
                    parse_loop(TreeView::Cons(op, seq![lhs]), s.skip(1), min_bp)
                },
                None => if op is Other {
                    Err(ExprError::UnhandledOperator)
                } else {
                    match infix_bp(op) {
                        None => Ok((lhs, s)),
                        Some((l_bp, r_bp)) => if l_bp < min_bp {
                            Ok((lhs, s))
                        } else {
                            match parse_bp(s.skip(1), r_bp) {
                                Err(e) => Err(e),
                                Ok((rhs, rest)) => if rest.len() >= s.len() {
                                    Err(ExprError::UnexpectedEnd)
                                } else {
                                    parse_loop(TreeView::Cons(op, seq![lhs, rhs]), rest, min_bp)
                                },
                            }
                        },
                    }
                },
            },
        }
    }
}

/// What is left of a line is never longer than the line, and shorter where an operand was read.
pub proof fn lemma_parse_shortens(s: Seq<TokenView>, min_bp: u8)
    ensures
        parse_bp(s, min_bp) is Ok ==> parse_bp(s, min_bp)->Ok_0.1.len() < s.len(),
    decreases s.len(), 1nat,
{
    if s.len() > 0 {
        match s[0] {
            TokenView::Eof => {},
            TokenView::Atom(e) => {
                lemma_loop_shortens(TreeView::Atom(e), s.skip(1), min_bp);
            },
            TokenView::Op(OpView::Lparen) => {
                lemma_parse_shortens(s.skip(1), 0);
                match parse_bp(s.skip(1), 0) {
                    Err(e) => {},
                    Ok((inner, rest)) => {
                        if rest.len() > 0 && rest.len() < s.len() {
                            lemma_loop_shortens(inner, rest.skip(1), min_bp);
                        }
                    },
                }
            },
            TokenView::Op(op) => {
                match prefix_bp(op) {
                    None => {},
                    Some(r_bp) => {
                        lemma_parse_shortens(s.skip(1), r_bp);
                        match parse_bp(s.skip(1), r_bp) {
                            Err(e) => {},
                            Ok((rhs, rest)) => {
                                if rest.len() < s.len() {
                                    lemma_loop_shortens(TreeView::Cons(op, seq![rhs]), rest, min_bp);
                                }
                            },
                        }
                    },
                }
            },
        }
    }
}

/// What is left of a line behind its operators is never longer than the line.
pub proof fn lemma_loop_shortens(lhs: TreeView, s: Seq<TokenView>, min_bp: u8)
    ensures
        parse_loop(lhs, s, min_bp) is Ok ==> parse_loop(lhs, s, min_bp)->Ok_0.1.len() <= s.len(),
    decreases s.len(), 0nat,
{
    if s.len() > 0 {
        match s[0] {
            TokenView::Eof => {},
            TokenView::Atom(_) => {},
            TokenView::Op(op) => {
                match postfix_bp(op) {
                    Some(l_bp) => {
                        if l_bp >= min_bp {
                            lemma_loop_shortens(TreeView::Cons(op, seq![lhs]), s.skip(1), min_bp);
                        }
                    },
                    None => {
                        if !(op is Other) {
                            match infix_bp(op) {
                                None => {},
                                Some((l_bp, r_bp)) => {
                                    if l_bp >= min_bp {
                                        lemma_parse_shortens(s.skip(1), r_bp);
                                        match parse_bp(s.skip(1), r_bp) {
                                            Err(e) => {},
                                            Ok((rhs, rest)) => {
                                                if rest.len() < s.len() {
                                                    lemma_loop_shortens(
                                                        TreeView::Cons(op, seq![lhs, rhs]),
                                                        rest,
                                                        min_bp,
                                                    );
                                                }
                                            },
                                        }
                                    }
                                },
                            }
                        }
                    },
                }
            },
        }
    }
}

// ------------------------------------------------------------------ reading an expression

fn one(a: MathExpressionTree) -> (r: Vec<MathExpressionTree>)
    ensures
        view_trees(r@) == seq![a@],
{
    let mut r: Vec<MathExpressionTree> = Vec::new();
    r.push(a);
    assert(view_trees(r@) =~= seq![a@]);
    r
}

fn two(a: MathExpressionTree, b: MathExpressionTree) -> (r: Vec<MathExpressionTree>)
    ensures
        view_trees(r@) == seq![a@, b@],
{
    let mut r: Vec<MathExpressionTree> = Vec::new();
    r.push(a);
    r.push(b);
    assert(view_trees(r@) =~= seq![a@, b@]);
    r
}

fn is_lparen(op: &Operator) -> (r: bool)
    ensures
        r == (op@ is Lparen),
{
    match op {
        Operator::Lparen => true,
        _ => false,
    }
}

fn is_rparen_token(t: &Token) -> (r: bool)
    ensures
        r == (t@ == TokenView::Op(OpView::Rparen)),
{
    match t {
        Token::Op(o) => match o {
            Operator::Rparen => true,
            _ => false,
        },
        _ => false,
    }
}

/// Reads one expression from the front of the lexer's line: an operand, followed by every
/// postfix and infix operator that binds at least as strongly as `min_bp`; or says why the
/// line does not start with an expression.
pub fn try_expr_bp(lexer: &mut Lexer, min_bp: u8) -> (r: Result<MathExpressionTree, ExprError>)
    ensures
        match parse_bp(old(lexer)@, min_bp) {
            Ok((t, rest)) => r is Ok && r->Ok_0@ == t && final(lexer)@ == rest,
            Err(e) => r is Err && r->Err_0 == e,
        },
    decreases old(lexer)@.len(),
{
    let ghost s = lexer@;
    let ghost goal = parse_bp(s, min_bp);
    let tok = lexer.next();
    let mut lhs = match tok {
        Token::Eof => {
            return Err(ExprError::UnexpectedEnd);
        },
        Token::Atom(it) => MathExpressionTree::Atom(it),
        Token::Op(op) => {
            if is_lparen(&op) {
                proof {
                    lemma_parse_shortens(s.skip(1), 0);
                }
                let inner = match try_expr_bp(lexer, 0) {
                    Ok(t) => t,
                    Err(e) => {
                        return Err(e);
                    },
                };
                let close = lexer.next();
                if !is_rparen_token(&close) {
                    return Err(ExprError::MissingRparen);
                }
                inner
            } else {
                if !is_prefix_operator(&op) {
                    return Err(ExprError::NoPrefixRule);
                }
                let r_bp = prefix_binding_power(&op);
                proof {
                    lemma_parse_shortens(s.skip(1), r_bp);
                }
                let rhs = match try_expr_bp(lexer, r_bp) {
                    Ok(t) => t,
                    Err(e) => {
                        return Err(e);
                    },
                };
                MathExpressionTree::Cons(op, one(rhs))
            }
        },
    };
    loop
        invariant
            goal == parse_bp(s, min_bp),
            goal == parse_loop(lhs@, lexer@, min_bp),
            lexer@.len() < s.len(),
            s == old(lexer)@,
        decreases lexer@.len(),
    {
        let ghost line = lexer@;
        let op = match lexer.peek() {
            Token::Eof => {
                return Ok(lhs);
            },
            Token::Atom(_) => {
                return Err(ExprError::UnexpectedAtom);
            },
            Token::Op(op) => op,
        };
        match postfix_binding_power(&op) {
            Some(l_bp) => {
                if l_bp < min_bp {
                    return Ok(lhs);
                }
                let _ = lexer.next();
                lhs = MathExpressionTree::Cons(op, one(lhs));
            },
            None => {
                if is_other_operator(&op) {
                    return Err(ExprError::UnhandledOperator);
                }
                match infix_binding_power(&op) {
                    None => {
                        return Ok(lhs);
                    },
                    Some((l_bp, r_bp)) => {
                        if l_bp < min_bp {
                            return Ok(lhs);
                        }
                        let _ = lexer.next();
                        proof {
                            lemma_parse_shortens(line.skip(1), r_bp);
                        }
                        let rhs = match try_expr_bp(lexer, r_bp) {
                            Ok(t) => t,
                            Err(e) => {
                                return Err(e);
                            },
                        };
                        lhs = MathExpressionTree::Cons(op, two(lhs, rhs));
                    },
                }
            },
        }
    }
}

/// Reads one expression from the front of the lexer's line, which starts with one: an
/// operand, followed by every postfix and infix operator that binds at least as strongly as
/// `min_bp`.
pub fn expr_bp(lexer: &mut Lexer, min_bp: u8) -> (r: MathExpressionTree)
    requires
        parse_bp(old(lexer)@, min_bp) is Ok,
    ensures
        parse_bp(old(lexer)@, min_bp) == Ok::<(TreeView, Seq<TokenView>), ExprError>((r@, final(lexer)@)),
{
    match try_expr_bp(lexer, min_bp) {
        Ok(t) => t,
        Err(_) => unreached(),
    }
}

// ------------------------------------------------------------------ minima

/// The operands of a minimum, or the tree itself where it is none.
pub open spec fn min_operands(t: TreeView) -> Seq<TreeView> {
    match t {
        TreeView::Cons(o, v) => if o is Min {
            v
        } else {
            seq![t]
        },
        TreeView::Atom(_) => seq![t],
    }
}

/// The first `n` trees of a list, each with its nested minima drawn together; nothing where
/// one of them has no such form.
pub open spec fn min_flat_all(v: Seq<TreeView>, n: nat) -> Option<Seq<TreeView>>
    decreases v, n,
{
    if n == 0 || n > v.len() {
        Some(Seq::empty())
    } else {
        match (min_flat_all(v, (n - 1) as nat), min_flat(v[n - 1])) {
            (Some(a), Some(b)) => Some(a.push(b)),
            _ => None,
        }
    }
}

/// A tree with its nested minima drawn together.
///
/// Under a minimum, the operands of a minimum in second place come to the end, the second
/// of them with its own operands in its place where it is a minimum again; behind them come
/// the operands of a minimum in first place, drawn together in their turn. An operand in
/// either place that is another operator comes to the end as it is. Under any other
/// operator every operand is flattened where it stands.
///
/// Nothing where a minimum that is flattened has fewer than two operands, a minimum in
/// first place has none, or another operator has none.
pub open spec fn min_flat(t: TreeView) -> Option<TreeView>
    decreases t, 0nat,
{
    match t {
        TreeView::Atom(_) => Some(t),
        TreeView::Cons(op, y) => if op is Min {
            if y.len() < 2 {
                None
            } else {
                let moved: Option<Seq<TreeView>> = match y[1] {
                    TreeView::Cons(o1, y1) => if o1 is Min {
                        if y1.len() < 2 {
                            None
                        } else {
                            match (min_flat(y1[0]), min_flat(y1[1])) {
                                (Some(a), Some(b)) => Some(y.remove(1).push(a) + min_operands(b)),
                                _ => None,
                            }
                        }
                    } else {
                        Some(y.remove(1).push(y[1]))
                    },
                    TreeView::Atom(_) => Some(y),
                };
                match moved {
                    None => None,
                    Some(y2) => match y[0] {
                        TreeView::Cons(o0, y0) => if o0 is Min {
                            if y0.len() < 1 {
                                None
                            } else if y0.len() == 1 {
                                match min_flat(y0[0]) {
                                    Some(a) => Some(TreeView::Cons(op, y2.remove(0).push(a))),
                                    None => None,
                                }
                            } else {
                                match min_flat(y[0]) {
                                    Some(f) => Some(TreeView::Cons(op, y2.remove(0) + min_operands(f))),
                                    None => None,
                                }
                            }
                        } else {
                            Some(TreeView::Cons(op, y2.remove(0).push(y[0])))
                        },
                        TreeView::Atom(_) => Some(TreeView::Cons(op, y2)),
                    },
                }
            }
        } else {
            if y.len() == 0 {
                None
            } else {
                match min_flat_all(y, y.len()) {
                    Some(f) => Some(TreeView::Cons(op, f)),
                    None => None,
                }
            }
        },
    }
}

/// The trees of a list from the `from`-th on, but for the `skip`-th.
fn copy_without(v: &Vec<MathExpressionTree>, from: usize, skip: usize) -> (r: Vec<MathExpressionTree>)
    requires
        from <= v@.len(),
    ensures
        from <= skip < v@.len() ==> view_trees(r@) == view_trees(v@).skip(from as int).remove(skip - from),
        !(from <= skip < v@.len()) ==> view_trees(r@) == view_trees(v@).skip(from as int),
{
    let mut r: Vec<MathExpressionTree> = Vec::new();
    let mut i: usize = from;
    while i < v.len()
        invariant
            from <= i <= v.len(),
            from <= skip < i ==> r@.len() == i - from - 1,
            !(from <= skip < i) ==> r@.len() == i - from,
            forall|j: int|
                0 <= j < r@.len() ==> view_tree(#[trigger] r@[j]) == view_tree(
                    v@[if from + j < skip {
                        from + j
                    } else if from <= skip {
                        from + j + 1
                    } else {
                        from + j
                    }],
                ),
        decreases v.len() - i,
    {
        if i != skip {
            let c = clone_tree(&v[i]);
            r.push(c);
        }
        i += 1;
    }
    proof {
        if from <= skip < v@.len() {
            assert(view_trees(r@) =~= view_trees(v@).skip(from as int).remove(skip - from));
        } else {
            assert(view_trees(r@) =~= view_trees(v@).skip(from as int));
        }
    }
    r
}

fn push_tree(v: &mut Vec<MathExpressionTree>, t: MathExpressionTree)
    ensures
        view_trees(final(v)@) == view_trees(old(v)@).push(t@),
        final(v)@.len() == old(v)@.len() + 1,
{
    assert(view_trees(v@.push(t)) =~= view_trees(v@).push(t@));
    v.push(t);
}

/// Adds the operands of a minimum, or the tree itself where it is none, to a list.
fn append_operands(v: &mut Vec<MathExpressionTree>, t: MathExpressionTree)
    ensures
        view_trees(final(v)@) == view_trees(old(v)@) + min_operands(t@),
{
    match t {
        MathExpressionTree::Cons(o, ys) => {
            if is_min(&o) {
                let mut ys = ys;
                assert(view_trees(v@ + ys@) =~= view_trees(v@) + view_trees(ys@));
                v.append(&mut ys);
            } else {
                let whole = MathExpressionTree::Cons(o, ys);
                assert(view_trees(v@.push(whole)) =~= view_trees(v@) + seq![whole@]);
                v.push(whole);
            }
        },
        MathExpressionTree::Atom(e) => {
            let whole = MathExpressionTree::Atom(e);
            assert(view_trees(v@.push(whole)) =~= view_trees(v@) + seq![whole@]);
            v.push(whole);
        },
    }
}

fn is_min(op: &Operator) -> (r: bool)
    ensures
        r == (op@ is Min),
{
    match op {
        Operator::Min => true,
        _ => false,
    }
}

fn min_flat_of(t: &MathExpressionTree) -> (r: Result<MathExpressionTree, ExprError>)
    ensures
        match min_flat(t@) {
            Some(f) => r is Ok && r->Ok_0@ == f,
            None => r is Err && r->Err_0 == ExprError::MinShape,
        },
    decreases t,
{
    match t {
        MathExpressionTree::Atom(_) => Ok(clone_tree(t)),
        MathExpressionTree::Cons(op, y) => {
            let ghost ys = view_trees(y@);
            assert(ys.len() == y@.len());
            assert(t@ == TreeView::Cons(op@, ys));
            if is_min(op) {
                if y.len() < 2 {
                    return Err(ExprError::MinShape);
                }
                assert(ys[1] == y@[1]@ && ys[0] == y@[0]@);
                assert(ys.skip(0) =~= ys);
                let mut y2: Vec<MathExpressionTree> = match &y[1] {
                    MathExpressionTree::Cons(o1, y1) => {
                        assert(view_trees(y1@).len() == y1@.len());
                        if is_min(o1) {
                            if y1.len() < 2 {
                                return Err(ExprError::MinShape);
                            }
                            assert(view_trees(y1@)[0] == y1@[0]@ && view_trees(y1@)[1] == y1@[1]@);
                            let a = min_flat_of(&y1[0]);
                            let b = min_flat_of(&y1[1]);
                            match (a, b) {
                                (Ok(a), Ok(b)) => {
                                    let mut m = copy_without(y, 0, 1);
                                    push_tree(&mut m, a);
                                    append_operands(&mut m, b);
                                    m
                                },
                                _ => {
                                    return Err(ExprError::MinShape);
                                },
                            }
                        } else {
                            let mut m = copy_without(y, 0, 1);
                            push_tree(&mut m, clone_tree(&y[1]));
                            m
                        }
                    },
                    MathExpressionTree::Atom(_) => copy_without(y, 0, y.len()),
                };
                let ghost moved = view_trees(y2@);
                assert(moved.len() == y2@.len());
                assert(moved.len() >= 2);
                match &y[0] {
                    MathExpressionTree::Cons(o0, y0) => {
                        assert(view_trees(y0@).len() == y0@.len());
                        if is_min(o0) {
                            if y0.len() < 1 {
                                return Err(ExprError::MinShape);
                            }
                            assert(view_trees(y0@)[0] == y0@[0]@);
                            if y0.len() == 1 {
                                match min_flat_of(&y0[0]) {
                                    Ok(a) => {
                                        let mut m = copy_without(&y2, 0, 0);
                                        push_tree(&mut m, a);
                                        assert(moved.skip(0) =~= moved);
                                        Ok(MathExpressionTree::Cons(op.clone(), m))
                                    },
                                    Err(e) => Err(ExprError::MinShape),
                                }
                            } else {
                                match min_flat_of(&y[0]) {
                                    Ok(f) => {
                                        let mut m = copy_without(&y2, 0, 0);
                                        append_operands(&mut m, f);
                                        assert(moved.skip(0) =~= moved);
                                        Ok(MathExpressionTree::Cons(op.clone(), m))
                                    },
                                    Err(e) => Err(ExprError::MinShape),
                                }
                            }
                        } else {
                            let mut m = copy_without(&y2, 0, 0);
                            push_tree(&mut m, clone_tree(&y[0]));
                            assert(moved.skip(0) =~= moved);
                            Ok(MathExpressionTree::Cons(op.clone(), m))
                        }
                    },
                    MathExpressionTree::Atom(_) => Ok(MathExpressionTree::Cons(op.clone(), y2)),
                }
            } else {
                if y.len() == 0 {
                    return Err(ExprError::MinShape);
                }
                match min_flat_each(y) {
                    Ok(m) => Ok(MathExpressionTree::Cons(op.clone(), m)),
                    Err(e) => Err(e),
                }
            }
        },
    }
}

/// Draws the nested minima of every tree of a list together.
fn min_flat_each(y: &Vec<MathExpressionTree>) -> (r: Result<Vec<MathExpressionTree>, ExprError>)
    ensures
        match min_flat_all(view_trees(y@), y@.len()) {
            Some(f) => r is Ok && view_trees(r->Ok_0@) == f,
            None => r is Err && r->Err_0 == ExprError::MinShape,
        },
    decreases y,
{
    let ghost ys = view_trees(y@);
    let mut m: Vec<MathExpressionTree> = Vec::new();
    assert(view_trees(m@) =~= Seq::<TreeView>::empty());
    let mut ok = true;
    let mut i: usize = 0;
    while i < y.len()
        invariant
            i <= y.len(),
            ys == view_trees(y@),
            ys.len() == y@.len(),
            ok ==> min_flat_all(ys, i as nat) == Some(view_trees(m@)),
            !ok ==> min_flat_all(ys, i as nat) is None,
        decreases y.len() - i,
    {
        if ok {
            assert(ys[i as int] == y@[i as int]@);
            match min_flat_of(&y[i]) {
                Ok(f) => {
                    push_tree(&mut m, f);
                },
                Err(_) => {
                    ok = false;
                },
            }
        }
        i += 1;
    }
    if ok {
        Ok(m)
    } else {
        Err(ExprError::MinShape)
    }
}

/// Draws the nested minima of a tree together, or says that the tree has no such form.
pub fn try_flatten_min_op(expr: MathExpressionTree) -> (r: Result<MathExpressionTree, ExprError>)
    ensures
        match min_flat(expr@) {
            Some(f) => r is Ok && r->Ok_0@ == f,
            None => r is Err && r->Err_0 == ExprError::MinShape,
        },
{
    min_flat_of(&expr)
}

/// Draws the nested minima of a tree together.
pub fn flatten_min_op(expr: MathExpressionTree) -> (r: MathExpressionTree)
    requires
        min_flat(expr@) is Some,
    ensures
        min_flat(expr@) == Some(r@),
{
    match min_flat_of(&expr) {
        Ok(t) => t,
        Err(_) => unreached(),
    }
}

// ------------------------------------------------------------------ a document

/// The expressions of a line from a given place on, added to those that were read before:
/// each starts where the one before it ended.
pub open spec fn following(rest: Seq<TokenView>, acc: Seq<TreeView>) -> Result<Seq<TreeView>, ExprError>
    decreases rest.len(),
{
    if rest.len() == 0 || rest[0] is Eof {
        Ok(acc)
    } else {
        match parse_bp(rest, 0) {
            Err(e) => Err(e),
            Ok((t, rest2)) => if rest2.len() >= rest.len() {
                Err(ExprError::UnexpectedEnd)
            } else {
                following(rest2, acc.push(t))
            },
        }
    }
}

/// The line of tokens that a document is read from.
pub open spec fn line_of(input: Seq<ExprView>) -> Seq<TokenView> {
    between_brackets(lexed(input), lexed(input).len())
}

/// One tree of the expressions of a line: the expression itself where there is one, the
/// product of all of them, in their order, where there are more.
pub open spec fn product(all: Seq<TreeView>) -> TreeView {
    if all.len() == 1 {
        all[0]
    } else {
        TreeView::Cons(OpView::Multiply, all)
    }
}

/// The expressions that stand in the line of a document, one after the other.
pub open spec fn expressions_of(input: Seq<ExprView>) -> Result<Seq<TreeView>, ExprError> {
    match parse_bp(line_of(input), 0) {
        Err(e) => Err(e),
        Ok((first, rest)) => following(rest, seq![first]),
    }
}

/// The tree of a document: its expression or, where several stand side by side with no
/// operator between them, the product of all of them; the minima drawn together.
pub open spec fn tree_of(input: Seq<ExprView>) -> Result<TreeView, ExprError> {
    match expressions_of(input) {
        Err(e) => Err(e),
        Ok(all) => match min_flat(product(all)) {
            None => Err(ExprError::MinShape),
            Some(t) => Ok(t),
        },
    }
}

/// Builds the tree of a document from its layout nodes, or says why the nodes are no
/// expression.
pub fn try_expr(input: Vec<MathExpression>) -> (r: Result<MathExpressionTree, ExprError>)
    ensures
        match tree_of(view_exprs(input@)) {
            Ok(t) => r is Ok && r->Ok_0@ == t,
            Err(e) => r is Err && r->Err_0 == e,
        },
{
    let ghost doc = view_exprs(input@);
    let mut lexer = Lexer::new(input);
    insert_multiple_between_paren(&mut lexer);
    let first = match try_expr_bp(&mut lexer, 0) {
        Ok(t) => t,
        Err(e) => {
            return Err(e);
        },
    };
    let mut all = one(first);
    loop
        invariant
            doc == view_exprs(input@),
            expressions_of(doc) == following(lexer@, view_trees(all@)),
            view_trees(all@).len() == all@.len(),
            all@.len() >= 1,
        decreases lexer@.len(),
    {
        let ghost line = lexer@;
        match lexer.peek() {
            Token::Eof => {
                let whole = if all.len() == 1 {
                    assert(view_trees(all@)[0] == all@[0]@);
                    match all.pop() {
                        Some(t) => t,
                        None => unreached(),
                    }
                } else {
                    assert(view_op(Operator::Multiply) == OpView::Multiply);
                    MathExpressionTree::Cons(Operator::Multiply, all)
                };
                return try_flatten_min_op(whole);
            },
            _ => {},
        }
        proof {
            lemma_parse_shortens(line, 0);
        }
        match try_expr_bp(&mut lexer, 0) {
            Ok(t) => {
                push_tree(&mut all, t);
            },
            Err(e) => {
                return Err(e);
            },
        }
    }
}

/// Builds the tree of a document from its layout nodes, which are an expression.
pub fn expr(input: Vec<MathExpression>) -> (r: MathExpressionTree)
    requires
        tree_of(view_exprs(input@)) is Ok,
    ensures
        tree_of(view_exprs(input@)) == Ok::<TreeView, ExprError>(r@),
{
    match try_expr(input) {
        Ok(t) => t,
        Err(_) => unreached(),
    }
}

} // verus!
