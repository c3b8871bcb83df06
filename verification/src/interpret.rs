//! From what the markup shows to what it means: names and the variables they are functions
//! of, derivatives, gradients, sums, integrals and the like, found among the nodes that the
//! layout parser gives.
use crate::ast::{
    clone_expr, view_cis, view_expr, view_exprs, view_op, Ci, CiView, DerivativeNotation, ExprView, LogView,
    MathExpression, OpView, Operator, VectorNotation,
};
use crate::nodes::{
    ci, ci_node, derivative_of, differential, exp_math, gradient, hat, integral, integral_of, laplacian_comp,
    logarithm, mo, other, plain, row, summation, summation_math,
};
use crate::text::is_space;
use vstd::prelude::*;

verus! {

// ------------------------------------------------------------------ texts

/// How many of the first `n` characters of a text, counted back from the `n`-th, are white space.
pub open spec fn space_run_back(s: Seq<char>, n: nat) -> nat
    decreases n,
{
    if 0 < n <= s.len() && is_space(s[n - 1]) {
        1 + space_run_back(s, (n - 1) as nat)
    } else {
        0
    }
}

/// How many characters at the front of a text are white space.
pub open spec fn space_run_front(s: Seq<char>, i: nat) -> nat
    decreases s.len() - i,
{
    if i < s.len() && is_space(s[i as int]) {
        1 + space_run_front(s, i + 1)
    } else {
        0
    }
}

/// A text without the white space at its ends.
pub open spec fn trimmed(s: Seq<char>) -> Seq<char> {
    let a = space_run_front(s, 0);
    let b = space_run_back(s, s.len());
    if a + b >= s.len() {
        Seq::empty()
    } else {
        s.subrange(a as int, s.len() - b)
    }
}

/// Whether a node is the identifier with the given text.
pub open spec fn is_mi(e: ExprView, t: Seq<char>) -> bool {
    e is Mi && trimmed(e->Mi_0) == t
}

/// Whether a node is the operator token with the given text.
pub open spec fn is_sign(e: ExprView, t: Seq<char>) -> bool {
    match e {
        ExprView::Mo(OpView::Other(s)) => trimmed(s) == t,
        _ => false,
    }
}

/// Whether a node is the gradient sign, as an identifier or as an operator token.
pub open spec fn is_nabla(e: ExprView) -> bool {
    is_mi(e, "\u{2207}"@) || is_sign(e, "\u{2207}"@)
}

/// Whether a node is an opening bracket, round or square.
pub open spec fn is_open(e: ExprView) -> bool {
    is_sign(e, "("@) || is_sign(e, "["@)
}

/// Whether a node is a closing bracket, round or square.
pub open spec fn is_close(e: ExprView) -> bool {
    is_sign(e, ")"@) || is_sign(e, "]"@)
}

/// The signs that say nothing: function application, invisible times, the full stop.
pub open spec fn is_skipped(e: ExprView) -> bool {
    is_sign(e, "\u{2061}"@) || is_sign(e, "."@) || is_sign(e, "\u{2062}"@)
}

/// The identifiers that are no names of variables.
pub open spec fn is_keyword(t: Seq<char>) -> bool {
    t == "\u{2207}"@ || t == "min"@ || t == "exp"@ || t == "log"@ || t == "ln"@ || t == "\u{394}"@
}

/// Whether a node is the number two.
pub open spec fn is_two(e: ExprView) -> bool {
    e is Mn && trimmed(e->Mn_0) == "2"@
}

/// The operator that an operator token stands for.
pub open spec fn sign_op(t: Seq<char>) -> OpView {
    if t == "+"@ {
        OpView::Add
    } else if t == "-"@ || t == "\u{2212}"@ {
        OpView::Subtract
    } else if t == "="@ {
        OpView::Equals
    } else if t == "("@ || t == "["@ {
        OpView::Lparen
    } else if t == ")"@ || t == "]"@ {
        OpView::Rparen
    } else if t == "*"@ || t == "\u{2217}"@ {
        OpView::Multiply
    } else if t == "/"@ || t == "\u{2215}"@ {
        OpView::Divide
    } else if t == "\u{d7}"@ {
        OpView::Cross
    } else if t == "\u{22c5}"@ {
        OpView::Dot
    } else if t == ","@ {
        OpView::Comma
    } else if t == "!"@ {
        OpView::Factorial
    } else if t == "\u{2218}"@ {
        OpView::Compose
    } else if t == "\u{af}"@ {
        OpView::Mean
    } else if t == "\u{2207}"@ {
        OpView::Gradient { subscript: None }
    } else {
        OpView::Other(t)
    }
}

/// The name with the given text, a function of nothing.
pub open spec fn plain_name(t: Seq<char>) -> CiView {
    CiView { content: Box::new(ExprView::Mi(t)), func_of: None, notation: None }
}

/// The name with the given content and the given arguments.
pub open spec fn named(content: ExprView, func_of: Option<Seq<CiView>>) -> CiView {
    CiView { content: Box::new(content), func_of, notation: None }
}

/// What an identifier on its own stands for.
pub open spec fn word_node(t: Seq<char>) -> ExprView {
    if t == "\u{2207}"@ {
        ExprView::Ci(named(ExprView::Mo(OpView::Gradient { subscript: None }), None))
    } else if t == "min"@ {
        ExprView::Mo(OpView::Min)
    } else if t == "exp"@ {
        ExprView::Mo(OpView::Exp)
    } else if t == "log"@ {
        ExprView::Mo(OpView::Logarithm(LogView::Log))
    } else if t == "ln"@ {
        ExprView::Mo(OpView::Logarithm(LogView::Ln))
    } else {
        ExprView::Ci(plain_name(t))
    }
}

// ------------------------------------------------------------------ brackets

/// The place of the bracket that closes the one open at `depth`, from `j` on.
pub open spec fn closing(nodes: Seq<ExprView>, j: int, depth: int) -> Option<int>
    decreases nodes.len() - j,
{
    if !(0 <= j < nodes.len()) {
        None
    } else if is_open(nodes[j]) {
        closing(nodes, j + 1, depth + 1)
    } else if is_close(nodes[j]) {
        if depth == 1 {
            Some(j)
        } else {
            closing(nodes, j + 1, depth - 1)
        }
    } else {
        closing(nodes, j + 1, depth)
    }
}

/// Whether a node closes an absolute value: a bar, or a bar that carries a superscript.
pub open spec fn is_bar_end(e: ExprView) -> bool {
    is_sign(e, "|"@) || (e is Msup && is_sign(*e->Msup_0, "|"@))
}

/// The place of the first node from `j` on that closes an absolute value.
pub open spec fn bar_end(nodes: Seq<ExprView>, j: int) -> Option<int>
    decreases nodes.len() - j,
{
    if !(0 <= j < nodes.len()) {
        None
    } else if is_bar_end(nodes[j]) {
        Some(j)
    } else {
        bar_end(nodes, j + 1)
    }
}

/// The place of the first node from `j` on that says something.
pub open spec fn after_skipped(nodes: Seq<ExprView>, j: int) -> int
    decreases nodes.len() - j,
{
    if 0 <= j < nodes.len() && is_skipped(nodes[j]) {
        after_skipped(nodes, j + 1)
    } else {
        j
    }
}

// ------------------------------------------------------------------ names

/// Whether a node is the name of a variable: an identifier, with or without scripts.
pub open spec fn is_name(e: ExprView) -> bool
    decreases e,
{
    match e {
        ExprView::Mrow(v) => v.len() == 1 && is_name(v[0]),
        ExprView::Mi(s) => !is_keyword(trimmed(s)),
        ExprView::Msub(b, _) => !(is_nabla(*b) || is_mi(*b, "\u{2202}"@) || is_mi(*b, "log"@)),
        ExprView::Msubsup(b, _, _) => !(is_sign(*b, "\u{222b}"@) || *b is Mtext),
        ExprView::Msup(b, x) => is_sign(*x, "\u{2193}"@) && *b is Mi,
        _ => false,
    }
}

/// The sign of a derivative: `d`, the round `d`, or a capital `D`.
pub open spec fn notation_of(t: Seq<char>) -> Option<DerivativeNotation> {
    if t == "d"@ {
        Some(DerivativeNotation::LeibnizTotal)
    } else if t == "\u{2202}"@ {
        Some(DerivativeNotation::LeibnizPartialStandard)
    } else if t == "D"@ {
        Some(DerivativeNotation::DNotation)
    } else {
        None
    }
}

/// The sign and the order that a numerator opens with: `d`, or `d` squared.
pub open spec fn derivative_head(e: ExprView) -> Option<(Seq<char>, u8)> {
    match e {
        ExprView::Mi(s) => if notation_of(trimmed(s)) is Some {
            Some((trimmed(s), 1u8))
        } else {
            None
        },
        ExprView::Msup(b, x) => if *b is Mi && notation_of(trimmed(b->Mi_0)) is Some && is_two(*x) {
            Some((trimmed(b->Mi_0), 2u8))
        } else {
            None
        },
        _ => None,
    }
}

/// The sign, the order and the variable of a denominator `d t` or `d t` squared.
pub open spec fn derivative_below(e: ExprView) -> Option<(Seq<char>, u8, Seq<char>)> {
    match e {
        ExprView::Mrow(v) => if v.len() == 2 && v[0] is Mi && notation_of(trimmed(v[0]->Mi_0)) is Some {
            match v[1] {
                ExprView::Mi(t) => Some((trimmed(v[0]->Mi_0), 1u8, trimmed(t))),
                ExprView::Msup(b, x) => if *b is Mi && is_two(*x) {
                    Some((trimmed(v[0]->Mi_0), 2u8, trimmed(b->Mi_0)))
                } else {
                    None
                },
                _ => None,
            }
        } else {
            None
        },
        _ => None,
    }
}

/// The operator of the derivative that a denominator tells of.
pub open spec fn derivative_op(below: (Seq<char>, u8, Seq<char>)) -> OpView {
    OpView::Derivative {
        order: below.1,
        var_index: 1u8,
        bound_var: plain_name(below.2),
        notation: notation_of(below.0)->0,
    }
}

// ------------------------------------------------------------------ the meaning of nodes

/// The content of a name.
pub open spec fn name_content(e: ExprView) -> ExprView
    decreases e, 0nat,
{
    match e {
        ExprView::Mrow(v) => if v.len() == 1 {
            name_content(v[0])
        } else {
            e
        },
        ExprView::Mi(s) => ExprView::Mi(trimmed(s)),
        ExprView::Msub(b, x) => ExprView::Msub(Box::new(node(*b)), Box::new(node(*x))),
        ExprView::Msubsup(b, x, y) => ExprView::Msubsup(
            Box::new(node(*b)),
            Box::new(node(*x)),
            Box::new(node(*y)),
        ),
        ExprView::Msup(b, x) => if *b is Mi {
            ExprView::Mi(trimmed(b->Mi_0) + "^\\downarrow"@)
        } else {
            e
        },
        _ => e,
    }
}

/// The name under a dot, where a node is a name with a dot above it.
pub open spec fn dotted_name(e: ExprView) -> Option<ExprView>
    decreases e, 0nat,
{
    match e {
        ExprView::Mrow(v) => if v.len() == 1 {
            dotted_name(v[0])
        } else {
            None
        },
        ExprView::Mover(f, d) => if is_sign(*d, "\u{2d9}"@) && is_name(*f) {
            Some(name_content(*f))
        } else {
            None
        },
        _ => None,
    }
}

/// The names between `i` and `j`, with commas between them; nothing if anything else
/// stands there.
pub open spec fn arg_list(nodes: Seq<ExprView>, i: int, j: int) -> Option<Seq<CiView>>
    decreases nodes, j - i,
{
    if !(0 <= i < j <= nodes.len()) {
        None
    } else {
        let item = if is_name(nodes[i]) {
            Some(named(name_content(nodes[i]), None))
        } else if is_sign(nodes[i], "\u{2026}"@) {
            Some(named(ExprView::Mo(OpView::Other("\u{2026}"@)), None))
        } else {
            None
        };
        match item {
            None => None,
            Some(c) => if i + 1 == j {
                Some(seq![c])
            } else if !is_sign(nodes[i + 1], ","@) {
                None
            } else {
                match arg_list(nodes, i + 2, j) {
                    Some(rest) => Some(seq![c] + rest),
                    None => None,
                }
            },
        }
    }
}

/// The list of arguments that starts at `i`, and the place behind it: names in brackets, the
/// brackets among the nodes or in a row of their own.
pub open spec fn args_after(nodes: Seq<ExprView>, i: int) -> Option<(Seq<CiView>, int)>
    decreases nodes, nodes.len() + 1,
{
    if !(0 <= i < nodes.len()) {
        None
    } else if is_open(nodes[i]) {
        match closing(nodes, i, 0) {
            Some(j) => if i < j < nodes.len() {
                match arg_list(nodes, i + 1, j) {
                    Some(a) => Some((a, j + 1)),
                    None => None,
                }
            } else {
                None
            },
            None => None,
        }
    } else {
        match nodes[i] {
            ExprView::Mrow(w) => if w.len() >= 2 && is_open(w[0]) && closing(w, 0, 0) == Some(w.len() - 1) {
                match arg_list(w, 1, w.len() - 1) {
                    Some(a) => Some((a, i + 1)),
                    None => None,
                }
            } else {
                None
            },
            _ => None,
        }
    }
}

/// The derivative that a fraction is, if it is one: its operator and, where the numerator
/// names it, the function that is derived.
pub open spec fn derivative(e: ExprView) -> Option<(OpView, Option<CiView>)>
    decreases e, 0nat,
{
    match e {
        ExprView::Mfrac(num, den) => match derivative_below(*den) {
            None => None,
            Some(below) => {
                let op = derivative_op(below);
                if derivative_head(*num) is Some {
                    if derivative_head(*num) == Some((below.0, below.1)) {
                        Some((op, None))
                    } else {
                        None
                    }
                } else {
                    match *num {
                        ExprView::Mrow(w) => if w.len() >= 2 && derivative_head(w[0]) == Some((below.0, below.1))
                            && is_name(w[1]) {
                            if w.len() == 2 {
                                Some(
                                    (
                                        op,
                                        Some(named(name_content(w[1]), Some(seq![plain_name(Seq::empty())]))),
                                    ),
                                )
                            } else {
                                match args_after(w, 2) {
                                    Some((a, next)) => if next == w.len() {
                                        Some((op, Some(named(name_content(w[1]), Some(a)))))
                                    } else {
                                        None
                                    },
                                    None => None,
                                }
                            }
                        } else {
                            None
                        },
                        _ => None,
                    }
                }
            },
        },
        _ => None,
    }
}

/// What one node of the layout means.
pub open spec fn node(e: ExprView) -> ExprView
    decreases e, 1nat,
{
    match e {
        ExprView::Mi(s) => word_node(trimmed(s)),
        ExprView::Mo(OpView::Other(s)) => ExprView::Mo(sign_op(trimmed(s))),
        ExprView::Mn(s) => ExprView::Mn(trimmed(s)),
        ExprView::Mtext(s) => ExprView::Mtext(trimmed(s)),
        ExprView::Mrow(v) => ExprView::Mrow(interpret_from(v, 0)),
        ExprView::Msqrt(a) => ExprView::Msqrt(Box::new(node(*a))),
        ExprView::Mfrac(a, b) => match derivative(e) {
            Some((op, Some(f))) => ExprView::Differential {
                diff: Box::new(ExprView::Mo(op)),
                func: Box::new(ExprView::Ci(f)),
            },
            Some((op, None)) => ExprView::Mo(op),
            None => ExprView::Mfrac(Box::new(node(*a)), Box::new(node(*b))),
        },
        ExprView::Msup(b, x) => if is_nabla(*b) && is_two(*x) {
            ExprView::Mo(OpView::Laplacian)
        } else if is_name(e) {
            ExprView::Ci(named(name_content(e), None))
        } else {
            ExprView::Msup(Box::new(node(*b)), Box::new(node(*x)))
        },
        ExprView::Msub(b, x) => if is_nabla(*b) {
            ExprView::Mo(OpView::Gradient { subscript: Some(Box::new(node(*x))) })
        } else if is_mi(*b, "\u{2202}"@) {
            ExprView::Mo(
                OpView::Derivative {
                    order: 1u8,
                    var_index: 1u8,
                    bound_var: named(
                        if *x is Mi {
                            ExprView::Mi(trimmed(x->Mi_0))
                        } else {
                            node(*x)
                        },
                        None,
                    ),
                    notation: DerivativeNotation::LeibnizPartialCompact,
                },
            )
        } else if is_mi(*b, "log"@) {
            ExprView::Mo(OpView::Logarithm(LogView::LogBase(Box::new(node(*x)))))
        } else {
            ExprView::Ci(named(name_content(e), None))
        },
        ExprView::Msubsup(b, x, y) => if is_name(e) {
            ExprView::Ci(named(name_content(e), None))
        } else {
            ExprView::Msubsup(Box::new(node(*b)), Box::new(node(*x)), Box::new(node(*y)))
        },
        ExprView::Munder(a, b) => ExprView::Munder(Box::new(node(*a)), Box::new(node(*b))),
        ExprView::Munderover(a, b, c) => ExprView::Munderover(
            Box::new(node(*a)),
            Box::new(node(*b)),
            Box::new(node(*c)),
        ),
        ExprView::Mover(a, b) => if is_sign(*b, "\u{af}"@) {
            ExprView::Mover(Box::new(node(*a)), Box::new(ExprView::Mo(OpView::Mean)))
        } else if is_sign(*b, "^"@) {
            ExprView::Ci(named(ExprView::Mo(OpView::Hat { comp: Box::new(node(*a)) }), None))
        } else if is_sign(*b, "\u{2192}"@) && is_name(*a) {
            ExprView::Ci(
                CiView {
                    content: Box::new(name_content(*a)),
                    func_of: None,
                    notation: Some(VectorNotation::Arrow),
                },
            )
        } else {
            ExprView::Mover(Box::new(node(*a)), Box::new(node(*b)))
        },
        _ => e,
    }
}

/// The items of a minimum between `p` and `c`, each behind the operator of the minimum;
/// nothing if they are not parted by commas.
pub open spec fn min_items(nodes: Seq<ExprView>, p: int, c: int) -> Option<Seq<ExprView>>
    decreases nodes, c - p,
{
    if !(0 <= p < c <= nodes.len()) {
        None
    } else {
        let item = seq![ExprView::Mo(OpView::Min)] + seq![node(nodes[p])];
        if p + 1 == c {
            Some(item)
        } else if !is_sign(nodes[p + 1], ","@) {
            None
        } else {
            match min_items(nodes, p + 2, c) {
                Some(rest) => Some(item + rest),
                None => None,
            }
        }
    }
}

/// What an operator in front applies to, and the place behind it: a bracketed group, a name
/// with its arguments, a row, or a node with something above it.
pub open spec fn operand_after(nodes: Seq<ExprView>, i: int) -> Option<(ExprView, int)>
    decreases nodes, nodes.len() + 2,
{
    if !(0 <= i < nodes.len()) {
        None
    } else if is_open(nodes[i]) {
        match closing(nodes, i, 0) {
            Some(j) => if i < j < nodes.len() {
                Some((ExprView::Mrow(interpret_from(nodes.take(j), i + 1)), j + 1))
            } else {
                None
            },
            None => None,
        }
    } else if is_name(nodes[i]) {
        match args_after(nodes, i + 1) {
            Some((a, next)) => Some((ExprView::Ci(named(name_content(nodes[i]), Some(a))), next)),
            None => Some((ExprView::Ci(named(name_content(nodes[i]), None)), i + 1)),
        }
    } else if nodes[i] is Mrow || nodes[i] is Mover {
        Some((node(nodes[i]), i + 1))
    } else {
        None
    }
}

/// A name at `i` with the arguments behind it, and the place behind those.
pub open spec fn name_at(nodes: Seq<ExprView>, i: int) -> (CiView, int)
    decreases nodes, nodes.len() + 2,
{
    if !(0 <= i < nodes.len()) {
        (plain_name(Seq::empty()), i + 1)
    } else {
        match args_after(nodes, i + 1) {
            Some((a, next)) => (named(name_content(nodes[i]), Some(a)), next),
            None => (named(name_content(nodes[i]), None), i + 1),
        }
    }
}

/// One node in the place of many: the node itself where there is one, a row otherwise.
pub open spec fn as_one(v: Seq<ExprView>) -> ExprView {
    if v.len() == 1 {
        v[0]
    } else {
        ExprView::Mrow(v)
    }
}

/// What the nodes from `i` on mean, read from left to right.
pub open spec fn interpret_from(nodes: Seq<ExprView>, i: int) -> Seq<ExprView>
    decreases nodes, 2 * nodes.len() + 3 - i,
{
    if !(0 <= i < nodes.len()) {
        Seq::empty()
    } else {
        let e = nodes[i];
        let len = nodes.len() as int;
        if is_skipped(e) {
            interpret_from(nodes, i + 1)
        } else if is_sign(e, "|"@) && bar_end(nodes, i + 1) is Some && i < bar_end(nodes, i + 1)->0 < len {
            let j = bar_end(nodes, i + 1)->0;
            let inner = ExprView::Mrow(interpret_from(nodes.take(j), i + 1));
            let whole = match nodes[j] {
                ExprView::Msup(_, x) => ExprView::AbsoluteSup(Box::new(inner), Box::new(node(*x))),
                _ => ExprView::Absolute(Box::new(ExprView::Mo(OpView::Other("|"@))), Box::new(inner)),
            };
            seq![whole] + interpret_from(nodes, j + 1)
        } else if is_mi(e, "min"@) {
            let j = after_skipped(nodes, i + 1);
            let c = closing(nodes, j, 0);
            if i < j < len && is_open(nodes[j]) && c is Some && j < c->0 < len && min_items(nodes, j + 1, c->0)
                is Some {
                seq![
                    ExprView::Minimize(Box::new(ExprView::Mo(OpView::Min)), min_items(nodes, j + 1, c->0)->0),
                ] + interpret_from(nodes, c->0 + 1)
            } else {
                seq![ExprView::Mo(OpView::Min)] + interpret_from(nodes, i + 1)
            }
        } else if is_mi(e, "exp"@) {
            let j = after_skipped(nodes, i + 1);
            let c = closing(nodes, j, 0);
            if i < j < len && is_open(nodes[j]) && c is Some && j < c->0 < len {
                seq![
                    ExprView::ExpMath {
                        op: Box::new(ExprView::Mo(OpView::Exp)),
                        func: Box::new(ExprView::Mrow(interpret_from(nodes.take(c->0), j + 1))),
                    },
                ] + interpret_from(nodes, c->0 + 1)
            } else {
                seq![ExprView::Mo(OpView::Exp)] + interpret_from(nodes, i + 1)
            }
        } else if is_mi(e, "log"@) || is_mi(e, "ln"@) {
            seq![node(e)] + interpret_from(nodes, i + 1)
        } else if is_nabla(e) && i + 1 < len && is_sign(nodes[i + 1], "\u{22c5}"@) {
            seq![ExprView::Mo(OpView::Div)] + interpret_from(nodes, i + 2)
        } else if is_nabla(e) {
            let g = ExprView::Mo(OpView::Gradient { subscript: None });
            match operand_after(nodes, i + 1) {
                Some((x, next)) => if i < next <= len {
                    seq![ExprView::Differential { diff: Box::new(g), func: Box::new(x) }] + interpret_from(
                        nodes,
                        next,
                    )
                } else {
                    Seq::empty()
                },
                None => seq![ExprView::Ci(named(g, None))] + interpret_from(nodes, i + 1),
            }
        } else if e is Msub && is_nabla(*e->Msub_0) {
            let g = node(e);
            match operand_after(nodes, i + 1) {
                Some((x, next)) => if i < next <= len {
                    seq![ExprView::Differential { diff: Box::new(g), func: Box::new(x) }] + interpret_from(
                        nodes,
                        next,
                    )
                } else {
                    Seq::empty()
                },
                None => seq![g] + interpret_from(nodes, i + 1),
            }
        } else if e is Msup && is_nabla(*e->Msup_0) && is_two(*e->Msup_1) {
            if i + 1 < len && is_name(nodes[i + 1]) && i < name_at(nodes, i + 1).1 <= len {
                seq![
                    ExprView::LaplacianComp {
                        op: Box::new(ExprView::Mo(OpView::Laplacian)),
                        name: name_at(nodes, i + 1).0,
                    },
                ] + interpret_from(nodes, name_at(nodes, i + 1).1)
            } else {
                seq![ExprView::Mo(OpView::Laplacian)] + interpret_from(nodes, i + 1)
            }
        } else if e is Mfrac && derivative(e) is Some && derivative(e).unwrap().1 is None && i + 1 < len && is_open(
            nodes[i + 1],
        ) && closing(nodes, i + 1, 0) is Some && i + 1 < closing(nodes, i + 1, 0)->0 < len {
            let j = closing(nodes, i + 1, 0)->0;
            seq![
                ExprView::Differential {
                    diff: Box::new(ExprView::Mo(derivative(e).unwrap().0)),
                    func: Box::new(ExprView::Mrow(interpret_from(nodes.take(j), i + 2))),
                },
            ] + interpret_from(nodes, j + 1)
        } else if dotted_name(e) is Some && args_after(nodes, i + 1) is Some && args_after(nodes, i + 1).unwrap().0.len()
            == 1 && i < args_after(nodes, i + 1).unwrap().1 <= len {
            let a = args_after(nodes, i + 1).unwrap().0;
            seq![
                ExprView::Differential {
                    diff: Box::new(
                        ExprView::Mo(
                            OpView::Derivative {
                                order: 1u8,
                                var_index: 1u8,
                                bound_var: a[0],
                                notation: DerivativeNotation::Newton,
                            },
                        ),
                    ),
                    func: Box::new(ExprView::Ci(named(dotted_name(e)->0, Some(a)))),
                },
            ] + interpret_from(nodes, args_after(nodes, i + 1).unwrap().1)
        } else if e is Munderover && is_sign(*e->Munderover_0, "\u{2211}"@) {
            let op = ExprView::Mo(
                OpView::Summation {
                    lower: Some(Box::new(node(*e->Munderover_1))),
                    upper: Some(Box::new(node(*e->Munderover_2))),
                },
            );
            if i + 1 < len {
                seq![
                    ExprView::SummationMath {
                        op: Box::new(op),
                        func: Box::new(as_one(interpret_from(nodes, i + 1))),
                    },
                ]
            } else {
                seq![op]
            }
        } else if e is Munder && is_sign(*e->Munder_0, "\u{2211}"@) {
            let op = ExprView::Mo(OpView::Summation { lower: Some(Box::new(node(*e->Munder_1))), upper: None });
            if i + 1 < len {
                seq![
                    ExprView::SummationMath {
                        op: Box::new(op),
                        func: Box::new(as_one(interpret_from(nodes, i + 1))),
                    },
                ]
            } else {
                seq![op]
            }
        } else if e is Msubsup && is_sign(*e->Msubsup_0, "\u{222b}"@) && len - i >= 4 && is_mi(
            nodes[len - 2],
            "d"@,
        ) && nodes[len - 1] is Mi {
            let var = ExprView::Ci(plain_name(trimmed(nodes[len - 1]->Mi_0)));
            let op = ExprView::Mo(
                OpView::Int {
                    lower: Some(Box::new(node(*e->Msubsup_1))),
                    upper: Some(Box::new(node(*e->Msubsup_2))),
                    variable: Box::new(var),
                },
            );
            seq![
                ExprView::Integral {
                    op: Box::new(op),
                    integrand: Box::new(ExprView::Mrow(interpret_from(nodes.take(len - 2), i + 1))),
                    variable: Box::new(var),
                },
            ]
        } else if (e is Msub && *e->Msub_0 is Mtext && trimmed(e->Msub_0->Mtext_0) == "\u{222f}"@) || (e
            is Msubsup && *e->Msubsup_0 is Mtext && trimmed(e->Msubsup_0->Mtext_0) == "\u{222f}"@) {
            seq![ExprView::SurfaceIntegral(Box::new(ExprView::Mrow(interpret_from(nodes, i + 1))))]
        } else if (is_mi(e, "\u{394}"@) || is_mi(e, "d"@)) && i + 1 < len && nodes[i + 1] is Mi && !is_keyword(
            trimmed(nodes[i + 1]->Mi_0),
        ) {
            seq![ExprView::Ci(plain_name(trimmed(e->Mi_0) + trimmed(nodes[i + 1]->Mi_0)))] + interpret_from(
                nodes,
                i + 2,
            )
        } else if is_mi(e, "\u{394}"@) && i + 1 < len && nodes[i + 1] is Msub && *nodes[i + 1]->Msub_0 is Mi {
            let m = nodes[i + 1];
            seq![
                ExprView::Ci(
                    named(
                        ExprView::Msub(
                            Box::new(ExprView::Ci(plain_name("\u{394}"@ + trimmed(m->Msub_0->Mi_0)))),
                            Box::new(node(*m->Msub_1)),
                        ),
                        None,
                    ),
                ),
            ] + interpret_from(nodes, i + 2)
        } else if is_name(e) {
            if i < name_at(nodes, i).1 <= len {
                seq![ExprView::Ci(name_at(nodes, i).0)] + interpret_from(nodes, name_at(nodes, i).1)
            } else {
                Seq::empty()
            }
        } else {
            seq![node(e)] + interpret_from(nodes, i + 1)
        }
    }
}

/// What the nodes of a document mean.
pub open spec fn interpreted(nodes: Seq<ExprView>) -> Seq<ExprView> {
    interpret_from(nodes, 0)
}

// ------------------------------------------------------------------ reading texts

fn is_space_char(c: char) -> (r: bool)
    ensures
        r == is_space(c),
{
    let n = c as u32;
    (0x9 <= n && n <= 0xd) || n == 0x20 || n == 0x85 || n == 0xa0 || n == 0x1680 || (0x2000 <= n && n <= 0x200a)
        || n == 0x2028 || n == 0x2029 || n == 0x202f || n == 0x205f || n == 0x3000
}

/// The text without the white space at its ends.
pub fn trim(s: &str) -> (r: String)
    ensures
        r@ == trimmed(s@),
{
    let n = s.unicode_len();
    let mut a: usize = 0;
    while a < n && is_space_char(s.get_char(a))
        invariant
            a <= n,
            n == s@.len(),
            a + space_run_front(s@, a as nat) == space_run_front(s@, 0),
        decreases n - a,
    {
        a += 1;
    }
    let mut b: usize = 0;
    while b < n && is_space_char(s.get_char(n - 1 - b))
        invariant
            b <= n,
            n == s@.len(),
            b + space_run_back(s@, (n - b) as nat) == space_run_back(s@, n as nat),
        decreases n - b,
    {
        b += 1;
    }
    if b >= n - a {
        String::new()
    } else {
        String::from_str(s.substring_char(a, n - b))
    }
}

fn same(t: &String, lit: &str) -> (r: bool)
    ensures
        r == (t@ == lit@),
{
    let l = String::from_str(lit);
    *t == l
}

fn mi_is(e: &MathExpression, t: &str) -> (r: bool)
    ensures
        r == is_mi(e@, t@),
{
    match e {
        MathExpression::Mi(s) => same(&trim(s.as_str()), t),
        _ => false,
    }
}

fn sign_is(e: &MathExpression, t: &str) -> (r: bool)
    ensures
        r == is_sign(e@, t@),
{
    match e {
        MathExpression::Mo(o) => match o {
            Operator::Other(s) => {
                assert(view_op(*o) == OpView::Other(s@));
                same(&trim(s.as_str()), t)
            },
            _ => {
                assert(!(view_op(*o) is Other));
                false
            },
        },
        _ => false,
    }
}

fn nabla(e: &MathExpression) -> (r: bool)
    ensures
        r == is_nabla(e@),
{
    mi_is(e, "\u{2207}") || sign_is(e, "\u{2207}")
}

fn opens(e: &MathExpression) -> (r: bool)
    ensures
        r == is_open(e@),
{
    sign_is(e, "(") || sign_is(e, "[")
}

fn closes(e: &MathExpression) -> (r: bool)
    ensures
        r == is_close(e@),
{
    sign_is(e, ")") || sign_is(e, "]")
}

fn skipped(e: &MathExpression) -> (r: bool)
    ensures
        r == is_skipped(e@),
{
    sign_is(e, "\u{2061}") || sign_is(e, ".") || sign_is(e, "\u{2062}")
}

fn keyword(t: &String) -> (r: bool)
    ensures
        r == is_keyword(t@),
{
    same(t, "\u{2207}") || same(t, "min") || same(t, "exp") || same(t, "log") || same(t, "ln") || same(
        t,
        "\u{394}",
    )
}

fn two(e: &MathExpression) -> (r: bool)
    ensures
        r == is_two(e@),
{
    match e {
        MathExpression::Mn(s) => same(&trim(s.as_str()), "2"),
        _ => false,
    }
}

fn op_of_sign(t: String) -> (r: Operator)
    ensures
        r@ == sign_op(t@),
{
    if same(&t, "+") {
        Operator::Add
    } else if same(&t, "-") || same(&t, "\u{2212}") {
        Operator::Subtract
    } else if same(&t, "=") {
        Operator::Equals
    } else if same(&t, "(") || same(&t, "[") {
        Operator::Lparen
    } else if same(&t, ")") || same(&t, "]") {
        Operator::Rparen
    } else if same(&t, "*") || same(&t, "\u{2217}") {
        Operator::Multiply
    } else if same(&t, "/") || same(&t, "\u{2215}") {
        Operator::Divide
    } else if same(&t, "\u{d7}") {
        Operator::Cross
    } else if same(&t, "\u{22c5}") {
        Operator::Dot
    } else if same(&t, ",") {
        Operator::Comma
    } else if same(&t, "!") {
        Operator::Factorial
    } else if same(&t, "\u{2218}") {
        Operator::Compose
    } else if same(&t, "\u{af}") {
        Operator::Mean
    } else if same(&t, "\u{2207}") {
        gradient(None)
    } else {
        other(t)
    }
}

fn name_of(t: String) -> (r: Ci)
    ensures
        r@ == plain_name(t@),
{
    ci(MathExpression::Mi(t), None, None)
}

fn node_of_word(t: String) -> (r: MathExpression)
    ensures
        r@ == word_node(t@),
{
    if same(&t, "\u{2207}") {
        ci_node(ci(mo(gradient(None)), None, None))
    } else if same(&t, "min") {
        plain(Operator::Min)
    } else if same(&t, "exp") {
        plain(Operator::Exp)
    } else if same(&t, "log") {
        mo(logarithm(None, false))
    } else if same(&t, "ln") {
        mo(logarithm(None, true))
    } else {
        ci_node(name_of(t))
    }
}

// ------------------------------------------------------------------ reading rows

/// The nodes of a row up to, not including, the `hi`-th.
pub open spec fn lay(v: Seq<MathExpression>, hi: int) -> Seq<ExprView> {
    view_exprs(v).take(hi)
}

proof fn lemma_lay(v: Seq<MathExpression>, hi: int)
    requires
        0 <= hi <= v.len(),
    ensures
        lay(v, hi).len() == hi,
        forall|k: int| 0 <= k < hi ==> #[trigger] lay(v, hi)[k] == view_expr(v[k]),
        forall|j: int| 0 <= j <= hi ==> #[trigger] lay(v, hi).take(j) == lay(v, j),
        lay(v, v.len() as int) == view_exprs(v),
{
    assert forall|j: int| 0 <= j <= hi implies #[trigger] lay(v, hi).take(j) == lay(v, j) by {
        assert(lay(v, hi).take(j) =~= lay(v, j));
    }
    assert(lay(v, v.len() as int) =~= view_exprs(v));
}

fn closing_at(v: &Vec<MathExpression>, hi: usize, i: usize) -> (r: Option<usize>)
    requires
        i < hi <= v@.len(),
        is_open(lay(v@, hi as int)[i as int]),
    ensures
        r is Some ==> closing(lay(v@, hi as int), i as int, 0) == Some(r->0 as int) && i < r->0 < hi,
        r is None ==> closing(lay(v@, hi as int), i as int, 0) is None,
{
    proof {
        lemma_lay(v@, hi as int);
    }
    let ghost nodes = lay(v@, hi as int);
    let mut j: usize = i + 1;
    let mut depth: usize = 1;
    while j < hi
        invariant
            i < j <= hi <= v@.len(),
            1 <= depth <= j - i,
            nodes == lay(v@, hi as int),
            nodes.len() == hi,
            forall|k: int| 0 <= k < hi ==> #[trigger] nodes[k] == view_expr(v@[k]),
            closing(nodes, i as int, 0) == closing(nodes, j as int, depth as int),
        decreases hi - j,
    {
        if opens(&v[j]) {
            depth += 1;
        } else if closes(&v[j]) {
            if depth == 1 {
                return Some(j);
            }
            depth -= 1;
        }
        j += 1;
    }
    None
}

fn bar_end_at(v: &Vec<MathExpression>, hi: usize, from: usize) -> (r: Option<usize>)
    requires
        from <= hi <= v@.len(),
    ensures
        r is Some ==> bar_end(lay(v@, hi as int), from as int) == Some(r->0 as int) && from <= r->0 < hi,
        r is None ==> bar_end(lay(v@, hi as int), from as int) is None,
{
    proof {
        lemma_lay(v@, hi as int);
    }
    let ghost nodes = lay(v@, hi as int);
    let mut j: usize = from;
    while j < hi
        invariant
            from <= j <= hi <= v@.len(),
            nodes == lay(v@, hi as int),
            nodes.len() == hi,
            forall|k: int| 0 <= k < hi ==> #[trigger] nodes[k] == view_expr(v@[k]),
            bar_end(nodes, from as int) == bar_end(nodes, j as int),
        decreases hi - j,
    {
        let found = match &v[j] {
            MathExpression::Msup(b, _) => sign_is(b, "|"),
            e => sign_is(e, "|"),
        };
        if found {
            return Some(j);
        }
        j += 1;
    }
    None
}

fn after_skipped_at(v: &Vec<MathExpression>, hi: usize, from: usize) -> (r: usize)
    requires
        from <= hi <= v@.len(),
    ensures
        r == after_skipped(lay(v@, hi as int), from as int),
        from <= r <= hi,
{
    proof {
        lemma_lay(v@, hi as int);
    }
    let ghost nodes = lay(v@, hi as int);
    let mut j: usize = from;
    while j < hi && skipped(&v[j])
        invariant
            from <= j <= hi <= v@.len(),
            nodes == lay(v@, hi as int),
            nodes.len() == hi,
            forall|k: int| 0 <= k < hi ==> #[trigger] nodes[k] == view_expr(v@[k]),
            after_skipped(nodes, from as int) == after_skipped(nodes, j as int),
        decreases hi - j,
    {
        j += 1;
    }
    j
}

fn is_identifier(e: &MathExpression) -> (r: bool)
    ensures
        r == (e@ is Mi),
{
    match e {
        MathExpression::Mi(_) => true,
        _ => false,
    }
}

fn is_text(e: &MathExpression) -> (r: bool)
    ensures
        r == (e@ is Mtext),
{
    match e {
        MathExpression::Mtext(_) => true,
        _ => false,
    }
}

/// The text of an identifier, without the white space at its ends.
fn word_of(e: &MathExpression) -> (r: Option<String>)
    ensures
        r is Some <==> e@ is Mi,
        r is Some ==> r->0@ == trimmed(e@->Mi_0),
{
    match e {
        MathExpression::Mi(s) => Some(trim(s.as_str())),
        _ => None,
    }
}

fn name(e: &MathExpression) -> (r: bool)
    ensures
        r == is_name(e@),
    decreases e,
{
    match e {
        MathExpression::Mrow(v) => {
            assert(view_exprs(v@).len() == v@.len());
            if v.len() == 1 {
                assert(view_exprs(v@)[0] == view_expr(v@[0]));
                name(&v[0])
            } else {
                false
            }
        },
        MathExpression::Mi(s) => !keyword(&trim(s.as_str())),
        MathExpression::Msub(b, _) => !(nabla(b) || mi_is(b, "\u{2202}") || mi_is(b, "log")),
        MathExpression::Msubsup(b, _, _) => !(sign_is(b, "\u{222b}") || is_text(b)),
        MathExpression::Msup(b, x) => sign_is(x, "\u{2193}") && is_identifier(b),
        _ => false,
    }
}

fn notation_for(t: &String) -> (r: Option<DerivativeNotation>)
    ensures
        r == notation_of(t@),
{
    if same(t, "d") {
        Some(DerivativeNotation::LeibnizTotal)
    } else if same(t, "\u{2202}") {
        Some(DerivativeNotation::LeibnizPartialStandard)
    } else if same(t, "D") {
        Some(DerivativeNotation::DNotation)
    } else {
        None
    }
}

fn head_of(e: &MathExpression) -> (r: Option<(String, u8)>)
    ensures
        r is Some <==> derivative_head(e@) is Some,
        r is Some ==> derivative_head(e@) == Some((r.unwrap().0@, r.unwrap().1)),
{
    match e {
        MathExpression::Mi(s) => {
            let t = trim(s.as_str());
            if notation_for(&t).is_some() {
                Some((t, 1))
            } else {
                None
            }
        },
        MathExpression::Msup(b, x) => match word_of(b) {
            Some(t) => {
                if notation_for(&t).is_some() && two(x) {
                    Some((t, 2))
                } else {
                    None
                }
            },
            None => None,
        },
        _ => None,
    }
}

fn below_of(e: &MathExpression) -> (r: Option<(String, u8, String)>)
    ensures
        r is Some <==> derivative_below(e@) is Some,
        r is Some ==> derivative_below(e@) == Some((r.unwrap().0@, r.unwrap().1, r.unwrap().2@)),
{
    match e {
        MathExpression::Mrow(v) => {
            assert(view_exprs(v@).len() == v@.len());
            if v.len() != 2 {
                return None;
            }
            assert(view_exprs(v@)[0] == view_expr(v@[0]));
            assert(view_exprs(v@)[1] == view_expr(v@[1]));
            let sign = match word_of(&v[0]) {
                Some(t) => t,
                None => {
                    return None;
                },
            };
            if notation_for(&sign).is_none() {
                return None;
            }
            match &v[1] {
                MathExpression::Mi(t) => Some((sign, 1, trim(t.as_str()))),
                MathExpression::Msup(b, x) => match word_of(b) {
                    Some(t) => {
                        if two(x) {
                            Some((sign, 2, t))
                        } else {
                            None
                        }
                    },
                    None => None,
                },
                _ => None,
            }
        },
        _ => None,
    }
}

// ------------------------------------------------------------------ lists

fn single_ci(c: Ci) -> (r: Vec<Ci>)
    ensures
        view_cis(r@) == seq![c@],
{
    let mut r: Vec<Ci> = Vec::new();
    r.push(c);
    assert(view_cis(r@) =~= seq![c@]);
    r
}

fn prepend_ci(c: Ci, rest: Vec<Ci>) -> (r: Vec<Ci>)
    ensures
        view_cis(r@) == seq![c@] + view_cis(rest@),
{
    let mut tail = rest;
    let mut r: Vec<Ci> = Vec::new();
    r.push(c);
    r.append(&mut tail);
    assert(view_cis(r@) =~= seq![c@] + view_cis(rest@));
    r
}

fn single(e: MathExpression) -> (r: Vec<MathExpression>)
    ensures
        view_exprs(r@) == seq![e@],
{
    let mut r: Vec<MathExpression> = Vec::new();
    r.push(e);
    assert(view_exprs(r@) =~= seq![e@]);
    r
}

fn prepend(e: MathExpression, rest: Vec<MathExpression>) -> (r: Vec<MathExpression>)
    ensures
        view_exprs(r@) == seq![e@] + view_exprs(rest@),
{
    let mut tail = rest;
    let mut r: Vec<MathExpression> = Vec::new();
    r.push(e);
    r.append(&mut tail);
    assert(view_exprs(r@) =~= seq![e@] + view_exprs(rest@));
    r
}

fn pair(a: MathExpression, b: MathExpression) -> (r: Vec<MathExpression>)
    ensures
        view_exprs(r@) == seq![a@] + seq![b@],
{
    let mut r: Vec<MathExpression> = Vec::new();
    r.push(a);
    r.push(b);
    assert(view_exprs(r@) =~= seq![a@] + seq![b@]);
    r
}

fn pair_then(a: MathExpression, b: MathExpression, rest: Vec<MathExpression>) -> (r: Vec<MathExpression>)
    ensures
        view_exprs(r@) == seq![a@] + seq![b@] + view_exprs(rest@),
{
    let mut tail = rest;
    let mut r: Vec<MathExpression> = Vec::new();
    r.push(a);
    r.push(b);
    r.append(&mut tail);
    assert(view_exprs(r@) =~= seq![a@] + seq![b@] + view_exprs(rest@));
    r
}

fn empty() -> (r: Vec<MathExpression>)
    ensures
        view_exprs(r@) == Seq::<ExprView>::empty(),
{
    let r: Vec<MathExpression> = Vec::new();
    assert(view_exprs(r@) =~= Seq::<ExprView>::empty());
    r
}

/// One node in the place of many.
fn one_of(v: Vec<MathExpression>) -> (r: MathExpression)
    ensures
        r@ == as_one(view_exprs(v@)),
{
    let mut v = v;
    assert(view_exprs(v@).len() == v@.len());
    if v.len() == 1 {
        assert(view_exprs(v@)[0] == view_expr(v@[0]));
        match v.pop() {
            Some(e) => e,
            None => row(v),
        }
    } else {
        row(v)
    }
}

/// The nodes of a row, where a node is one.
fn row_items(e: &MathExpression) -> (r: Option<&Vec<MathExpression>>)
    ensures
        r is Some <==> e@ is Mrow,
        r is Some ==> e@->Mrow_0 == view_exprs(r->0@) && *e == MathExpression::Mrow(*r->0),
{
    match e {
        MathExpression::Mrow(v) => Some(v),
        _ => None,
    }
}

// ------------------------------------------------------------------ reading nodes

fn content_of(e: &MathExpression) -> (r: MathExpression)
    ensures
        r@ == name_content(e@),
    decreases e, 0nat, 0nat,
{
    match e {
        MathExpression::Mrow(v) => {
            assert(view_exprs(v@).len() == v@.len());
            if v.len() == 1 {
                assert(view_exprs(v@)[0] == view_expr(v@[0]));
                content_of(&v[0])
            } else {
                clone_expr(e)
            }
        },
        MathExpression::Mi(s) => MathExpression::Mi(trim(s.as_str())),
        MathExpression::Msub(b, x) => MathExpression::Msub(Box::new(meaning(b)), Box::new(meaning(x))),
        MathExpression::Msubsup(b, x, y) => MathExpression::Msubsup(
            Box::new(meaning(b)),
            Box::new(meaning(x)),
            Box::new(meaning(y)),
        ),
        MathExpression::Msup(b, _) => match word_of(b) {
            Some(t) => {
                let mut t = t;
                t.append("^\\downarrow");
                MathExpression::Mi(t)
            },
            None => clone_expr(e),
        },
        _ => clone_expr(e),
    }
}

fn dotted(e: &MathExpression) -> (r: Option<MathExpression>)
    ensures
        r is Some <==> dotted_name(e@) is Some,
        r is Some ==> r->0@ == dotted_name(e@)->0,
    decreases e, 0nat, 0nat,
{
    match e {
        MathExpression::Mrow(v) => {
            assert(view_exprs(v@).len() == v@.len());
            if v.len() == 1 {
                assert(view_exprs(v@)[0] == view_expr(v@[0]));
                dotted(&v[0])
            } else {
                None
            }
        },
        MathExpression::Mover(f, d) => {
            if sign_is(d, "\u{2d9}") && name(f) {
                Some(content_of(f))
            } else {
                None
            }
        },
        _ => None,
    }
}

fn args_between(v: &Vec<MathExpression>, hi: usize, i: usize, j: usize) -> (r: Option<Vec<Ci>>)
    requires
        j <= hi <= v@.len(),
    ensures
        r is Some <==> arg_list(lay(v@, hi as int), i as int, j as int) is Some,
        r is Some ==> view_cis(r->0@) == arg_list(lay(v@, hi as int), i as int, j as int)->0,
    decreases v, hi, j - i,
{
    proof {
        lemma_lay(v@, hi as int);
    }
    if i >= j {
        return None;
    }
    let c = if name(&v[i]) {
        ci(content_of(&v[i]), None, None)
    } else if sign_is(&v[i], "\u{2026}") {
        ci(mo(other(String::from_str("\u{2026}"))), None, None)
    } else {
        return None;
    };
    if i + 1 == j {
        Some(single_ci(c))
    } else if !sign_is(&v[i + 1], ",") {
        None
    } else {
        match args_between(v, hi, i + 2, j) {
            Some(rest) => Some(prepend_ci(c, rest)),
            None => None,
        }
    }
}

fn args_from(v: &Vec<MathExpression>, hi: usize, i: usize) -> (r: Option<(Vec<Ci>, usize)>)
    requires
        hi <= v@.len(),
    ensures
        r is Some <==> args_after(lay(v@, hi as int), i as int) is Some,
        r is Some ==> view_cis(r.unwrap().0@) == args_after(lay(v@, hi as int), i as int).unwrap().0
            && r.unwrap().1 == args_after(lay(v@, hi as int), i as int).unwrap().1 && i < r.unwrap().1 <= hi,
    decreases v, hi, hi + 1,
{
    proof {
        lemma_lay(v@, hi as int);
    }
    if i >= hi {
        return None;
    }
    if opens(&v[i]) {
        match closing_at(v, hi, i) {
            Some(j) => match args_between(v, hi, i + 1, j) {
                Some(a) => Some((a, j + 1)),
                None => None,
            },
            None => None,
        }
    } else {
        match row_items(&v[i]) {
            Some(w) => {
                proof {
                    lemma_lay(w@, w@.len() as int);
                }
                if w.len() >= 2 && opens(&w[0]) {
                    match closing_at(w, w.len(), 0) {
                        Some(c) => {
                            if c == w.len() - 1 {
                                match args_between(w, w.len(), 1, w.len() - 1) {
                                    Some(a) => Some((a, i + 1)),
                                    None => None,
                                }
                            } else {
                                None
                            }
                        },
                        None => None,
                    }
                } else {
                    None
                }
            },
            None => None,
        }
    }
}

fn derivative_in(e: &MathExpression) -> (r: Option<(Operator, Option<Ci>)>)
    ensures
        r is Some <==> derivative(e@) is Some,
        r is Some ==> r.unwrap().0@ == derivative(e@).unwrap().0 && (match r.unwrap().1 {
            Some(c) => derivative(e@).unwrap().1 == Some(c@),
            None => derivative(e@).unwrap().1 is None,
        }),
    decreases e, 0nat, 0nat,
{
    match e {
        MathExpression::Mfrac(num, den) => {
            let below = match below_of(den) {
                Some(b) => b,
                None => {
                    return None;
                },
            };
            let notation = match notation_for(&below.0) {
                Some(n) => n,
                None => {
                    return None;
                },
            };
            let ghost below_view = (below.0@, below.1, below.2@);
            let op = derivative_of(below.1, name_of(below.2), notation);
            assert(op@ == derivative_op(below_view));
            match head_of(num) {
                Some(h) => {
                    if h.0 == below.0 && h.1 == below.1 {
                        Some((op, None))
                    } else {
                        None
                    }
                },
                None => match row_items(num) {
                    Some(w) => {
                        proof {
                            lemma_lay(w@, w@.len() as int);
                        }
                        if w.len() < 2 {
                            return None;
                        }
                        let first = match head_of(&w[0]) {
                            Some(h) => h.0 == below.0 && h.1 == below.1,
                            None => false,
                        };
                        if !(first && name(&w[1])) {
                            return None;
                        }
                        if w.len() == 2 {
                            let nothing = single_ci(name_of(String::new()));
                            Some((op, Some(ci(content_of(&w[1]), Some(nothing), None))))
                        } else {
                            match args_from(w, w.len(), 2) {
                                Some((a, next)) => {
                                    if next == w.len() {
                                        Some((op, Some(ci(content_of(&w[1]), Some(a), None))))
                                    } else {
                                        None
                                    }
                                },
                                None => None,
                            }
                        }
                    },
                    None => None,
                },
            }
        },
        _ => None,
    }
}

/// What one node of the layout means.
pub fn meaning(e: &MathExpression) -> (r: MathExpression)
    ensures
        r@ == node(e@),
    decreases e, 0nat, 1nat,
{
    match e {
        MathExpression::Mi(s) => node_of_word(trim(s.as_str())),
        MathExpression::Mo(o) => match o {
            Operator::Other(s) => {
                assert(view_op(*o) == OpView::Other(s@));
                mo(op_of_sign(trim(s.as_str())))
            },
            _ => {
                assert(!(view_op(*o) is Other));
                clone_expr(e)
            },
        },
        MathExpression::Mn(s) => MathExpression::Mn(trim(s.as_str())),
        MathExpression::Mtext(s) => MathExpression::Mtext(trim(s.as_str())),
        MathExpression::Mrow(v) => {
            proof {
                lemma_lay(v@, v@.len() as int);
            }
            row(interpret_from_at(v, v.len(), 0))
        },
        MathExpression::Msqrt(a) => MathExpression::Msqrt(Box::new(meaning(a))),
        MathExpression::Mfrac(a, b) => match derivative_in(e) {
            Some((op, Some(f))) => differential(mo(op), ci_node(f)),
            Some((op, None)) => mo(op),
            None => MathExpression::Mfrac(Box::new(meaning(a)), Box::new(meaning(b))),
        },
        MathExpression::Msup(b, x) => {
            if nabla(b) && two(x) {
                plain(Operator::Laplacian)
            } else if name(e) {
                ci_node(ci(content_of(e), None, None))
            } else {
                MathExpression::Msup(Box::new(meaning(b)), Box::new(meaning(x)))
            }
        },
        MathExpression::Msub(b, x) => {
            if nabla(b) {
                mo(gradient(Some(meaning(x))))
            } else if mi_is(b, "\u{2202}") {
                let var = match word_of(x) {
                    Some(t) => MathExpression::Mi(t),
                    None => meaning(x),
                };
                mo(derivative_of(1, ci(var, None, None), DerivativeNotation::LeibnizPartialCompact))
            } else if mi_is(b, "log") {
                mo(logarithm(Some(meaning(x)), false))
            } else {
                ci_node(ci(content_of(e), None, None))
            }
        },
        MathExpression::Msubsup(b, x, y) => {
            if name(e) {
                ci_node(ci(content_of(e), None, None))
            } else {
                MathExpression::Msubsup(Box::new(meaning(b)), Box::new(meaning(x)), Box::new(meaning(y)))
            }
        },
        MathExpression::Munder(a, b) => MathExpression::Munder(Box::new(meaning(a)), Box::new(meaning(b))),
        MathExpression::Munderover(a, b, c) => MathExpression::Munderover(
            Box::new(meaning(a)),
            Box::new(meaning(b)),
            Box::new(meaning(c)),
        ),
        MathExpression::Mover(a, b) => {
            if sign_is(b, "\u{af}") {
                MathExpression::Mover(Box::new(meaning(a)), Box::new(plain(Operator::Mean)))
            } else if sign_is(b, "^") {
                ci_node(ci(mo(hat(meaning(a))), None, None))
            } else if sign_is(b, "\u{2192}") && name(a) {
                ci_node(ci(content_of(a), None, Some(VectorNotation::Arrow)))
            } else {
                MathExpression::Mover(Box::new(meaning(a)), Box::new(meaning(b)))
            }
        },
        _ => clone_expr(e),
    }
}

fn min_items_between(v: &Vec<MathExpression>, hi: usize, p: usize, c: usize) -> (r: Option<Vec<MathExpression>>)
    requires
        c <= hi <= v@.len(),
    ensures
        r is Some <==> min_items(lay(v@, hi as int), p as int, c as int) is Some,
        r is Some ==> view_exprs(r->0@) == min_items(lay(v@, hi as int), p as int, c as int)->0,
    decreases v, hi, c - p,
{
    proof {
        lemma_lay(v@, hi as int);
    }
    if p >= c {
        return None;
    }
    let item = meaning(&v[p]);
    if p + 1 == c {
        Some(pair(plain(Operator::Min), item))
    } else if !sign_is(&v[p + 1], ",") {
        None
    } else {
        match min_items_between(v, hi, p + 2, c) {
            Some(rest) => Some(pair_then(plain(Operator::Min), item, rest)),
            None => None,
        }
    }
}

fn operand_from(v: &Vec<MathExpression>, hi: usize, i: usize) -> (r: Option<(MathExpression, usize)>)
    requires
        hi <= v@.len(),
    ensures
        r is Some <==> operand_after(lay(v@, hi as int), i as int) is Some,
        r is Some ==> r.unwrap().0@ == operand_after(lay(v@, hi as int), i as int).unwrap().0 && r.unwrap().1
            == operand_after(lay(v@, hi as int), i as int).unwrap().1 && i < r.unwrap().1 <= hi,
    decreases v, hi, hi + 2,
{
    proof {
        lemma_lay(v@, hi as int);
    }
    if i >= hi {
        return None;
    }
    if opens(&v[i]) {
        match closing_at(v, hi, i) {
            Some(j) => Some((row(interpret_from_at(v, j, i + 1)), j + 1)),
            None => None,
        }
    } else if name(&v[i]) {
        match args_from(v, hi, i + 1) {
            Some((a, next)) => Some((ci_node(ci(content_of(&v[i]), Some(a), None)), next)),
            None => Some((ci_node(ci(content_of(&v[i]), None, None)), i + 1)),
        }
    } else {
        let group = match &v[i] {
            MathExpression::Mrow(_) => true,
            MathExpression::Mover(_, _) => true,
            _ => false,
        };
        if group {
            Some((meaning(&v[i]), i + 1))
        } else {
            None
        }
    }
}

fn name_from(v: &Vec<MathExpression>, hi: usize, i: usize) -> (r: (Ci, usize))
    requires
        i < hi <= v@.len(),
    ensures
        r.0@ == name_at(lay(v@, hi as int), i as int).0,
        r.1 == name_at(lay(v@, hi as int), i as int).1,
        i < r.1 <= hi,
    decreases v, hi, hi + 2,
{
    proof {
        lemma_lay(v@, hi as int);
    }
    match args_from(v, hi, i + 1) {
        Some((a, next)) => (ci(content_of(&v[i]), Some(a), None), next),
        None => (ci(content_of(&v[i]), None, None), i + 1),
    }
}

fn text_is(e: &MathExpression, t: &str) -> (r: bool)
    ensures
        r == (e@ is Mtext && trimmed(e@->Mtext_0) == t@),
{
    match e {
        MathExpression::Mtext(s) => same(&trim(s.as_str()), t),
        _ => false,
    }
}

/// Whether a node is the sign of a sum with a bound below and, for `upper`, one above.
fn sum_sign(e: &MathExpression, upper: bool) -> (r: bool)
    ensures
        upper ==> r == (e@ is Munderover && is_sign(*e@->Munderover_0, "\u{2211}"@)),
        !upper ==> r == (e@ is Munder && is_sign(*e@->Munder_0, "\u{2211}"@)),
{
    match e {
        MathExpression::Munderover(b, _, _) => upper && sign_is(b, "\u{2211}"),
        MathExpression::Munder(b, _) => !upper && sign_is(b, "\u{2211}"),
        _ => false,
    }
}

/// Whether a node is the sign of a surface integral with its surface.
fn surface_sign(e: &MathExpression) -> (r: bool)
    ensures
        r == ((e@ is Msub && *e@->Msub_0 is Mtext && trimmed(e@->Msub_0->Mtext_0) == "\u{222f}"@) || (e@
            is Msubsup && *e@->Msubsup_0 is Mtext && trimmed(e@->Msubsup_0->Mtext_0) == "\u{222f}"@)),
{
    match e {
        MathExpression::Msub(b, _) => text_is(b, "\u{222f}"),
        MathExpression::Msubsup(b, _, _) => text_is(b, "\u{222f}"),
        _ => false,
    }
}

/// Whether a node is the gradient sign with a subscript.
fn nabla_sub(e: &MathExpression) -> (r: bool)
    ensures
        r == (e@ is Msub && is_nabla(*e@->Msub_0)),
{
    match e {
        MathExpression::Msub(b, _) => nabla(b),
        _ => false,
    }
}

/// Whether a node is the gradient sign squared.
fn nabla_squared(e: &MathExpression) -> (r: bool)
    ensures
        r == (e@ is Msup && is_nabla(*e@->Msup_0) && is_two(*e@->Msup_1)),
{
    match e {
        MathExpression::Msup(b, x) => nabla(b) && two(x),
        _ => false,
    }
}

/// Whether a node is the sign of an integral with both bounds.
fn integral_sign(e: &MathExpression) -> (r: bool)
    ensures
        r == (e@ is Msubsup && is_sign(*e@->Msubsup_0, "\u{222b}"@)),
{
    match e {
        MathExpression::Msubsup(b, _, _) => sign_is(b, "\u{222b}"),
        _ => false,
    }
}

/// The text of the base of a subscripted node, where the base is an identifier.
fn sub_base(e: &MathExpression) -> (r: Option<String>)
    ensures
        r is Some <==> (e@ is Msub && *e@->Msub_0 is Mi),
        r is Some ==> r->0@ == trimmed(e@->Msub_0->Mi_0),
{
    match e {
        MathExpression::Msub(b, _) => word_of(b),
        _ => None,
    }
}

/// What the nodes of a row from the `i`-th up to the `hi`-th mean, read from left to right.
#[verifier::rlimit(50)]
pub fn interpret_from_at(v: &Vec<MathExpression>, hi: usize, i: usize) -> (r: Vec<MathExpression>)
    requires
        hi <= v@.len(),
    ensures
        view_exprs(r@) == interpret_from(lay(v@, hi as int), i as int),
    decreases v, hi, 2 * hi + 3 - i,
{
    proof {
        lemma_lay(v@, hi as int);
    }
    let ghost nodes = lay(v@, hi as int);
    if i >= hi {
        return empty();
    }
    let e = &v[i];
    assert(nodes[i as int] == e@);
    if skipped(e) {
        return interpret_from_at(v, hi, i + 1);
    }
    if sign_is(e, "|") {
        match bar_end_at(v, hi, i + 1) {
            Some(j) => {
                assert(nodes.take(j as int) == lay(v@, j as int));
                let inner = row(interpret_from_at(v, j, i + 1));
                let whole = match &v[j] {
                    MathExpression::Msup(_, x) => MathExpression::AbsoluteSup(
                        Box::new(inner),
                        Box::new(meaning(x)),
                    ),
                    _ => MathExpression::Absolute(
                        Box::new(mo(other(String::from_str("|")))),
                        Box::new(inner),
                    ),
                };
                let r = prepend(whole, interpret_from_at(v, hi, j + 1));
                assert(view_exprs(r@) == interpret_from(nodes, i as int));
                return r;
            },
            None => {},
        }
    }
    if mi_is(e, "min") {
        let j = after_skipped_at(v, hi, i + 1);
        if j < hi && opens(&v[j]) {
            match closing_at(v, hi, j) {
                Some(c) => match min_items_between(v, hi, j + 1, c) {
                    Some(items) => {
                        let whole = MathExpression::Minimize(Box::new(plain(Operator::Min)), items);
                        let r = prepend(whole, interpret_from_at(v, hi, c + 1));
                        assert(view_exprs(r@) == interpret_from(nodes, i as int));
                        return r;
                    },
                    None => {},
                },
                None => {},
            }
        }
        let r = prepend(plain(Operator::Min), interpret_from_at(v, hi, i + 1));
        assert(view_exprs(r@) == interpret_from(nodes, i as int));
        return r;
    }
    if mi_is(e, "exp") {
        let j = after_skipped_at(v, hi, i + 1);
        if j < hi && opens(&v[j]) {
            match closing_at(v, hi, j) {
                Some(c) => {
                    assert(nodes.take(c as int) == lay(v@, c as int));
                    let whole = exp_math(plain(Operator::Exp), row(interpret_from_at(v, c, j + 1)));
                    let r = prepend(whole, interpret_from_at(v, hi, c + 1));
                    assert(view_exprs(r@) == interpret_from(nodes, i as int));
                    return r;
                },
                None => {},
            }
        }
        let r = prepend(plain(Operator::Exp), interpret_from_at(v, hi, i + 1));
        assert(view_exprs(r@) == interpret_from(nodes, i as int));
        return r;
    }
    if mi_is(e, "log") || mi_is(e, "ln") {
        let r = prepend(meaning(e), interpret_from_at(v, hi, i + 1));
        assert(view_exprs(r@) == interpret_from(nodes, i as int));
        return r;
    }
    if nabla(e) {
        if i + 1 < hi && sign_is(&v[i + 1], "\u{22c5}") {
            let r = prepend(plain(Operator::Div), interpret_from_at(v, hi, i + 2));
            assert(view_exprs(r@) == interpret_from(nodes, i as int));
            return r;
        }
        let r = match operand_from(v, hi, i + 1) {
            Some((x, next)) => prepend(differential(mo(gradient(None)), x), interpret_from_at(v, hi, next)),
            None => prepend(ci_node(ci(mo(gradient(None)), None, None)), interpret_from_at(v, hi, i + 1)),
        };
        assert(view_exprs(r@) == interpret_from(nodes, i as int));
        return r;
    }
    if nabla_sub(e) {
        let g = meaning(e);
        let r = match operand_from(v, hi, i + 1) {
            Some((x, next)) => prepend(differential(g, x), interpret_from_at(v, hi, next)),
            None => prepend(g, interpret_from_at(v, hi, i + 1)),
        };
        assert(view_exprs(r@) == interpret_from(nodes, i as int));
        return r;
    }
    if nabla_squared(e) {
        let r = if i + 1 < hi && name(&v[i + 1]) {
            let (c, next) = name_from(v, hi, i + 1);
            prepend(laplacian_comp(plain(Operator::Laplacian), c), interpret_from_at(v, hi, next))
        } else {
            prepend(plain(Operator::Laplacian), interpret_from_at(v, hi, i + 1))
        };
        assert(view_exprs(r@) == interpret_from(nodes, i as int));
        return r;
    }
    match derivative_in(e) {
        Some((op, None)) => {
            if i + 1 < hi && opens(&v[i + 1]) {
                match closing_at(v, hi, i + 1) {
                    Some(j) => {
                        assert(nodes.take(j as int) == lay(v@, j as int));
                        let whole = differential(mo(op), row(interpret_from_at(v, j, i + 2)));
                        let r = prepend(whole, interpret_from_at(v, hi, j + 1));
                        assert(view_exprs(r@) == interpret_from(nodes, i as int));
                        return r;
                    },
                    None => {},
                }
            }
        },
        _ => {},
    }
    match dotted(e) {
        Some(f) => match args_from(v, hi, i + 1) {
            Some((a, next)) => {
                if a.len() == 1 {
                    assert(view_cis(a@).len() == 1 && view_cis(a@)[0] == a@[0]@);
                    let var = a[0].clone();
                    let whole = differential(
                        mo(derivative_of(1, var, DerivativeNotation::Newton)),
                        ci_node(ci(f, Some(a), None)),
                    );
                    let r = prepend(whole, interpret_from_at(v, hi, next));
                    assert(view_exprs(r@) == interpret_from(nodes, i as int));
                    return r;
                } else {
                    assert(view_cis(a@).len() == a@.len());
                }
            },
            None => {},
        },
        None => {},
    }
    if sum_sign(e, true) || sum_sign(e, false) {
        let op = match e {
            MathExpression::Munderover(_, low, up) => mo(summation(Some(meaning(low)), Some(meaning(up)))),
            MathExpression::Munder(_, low) => mo(summation(Some(meaning(low)), None)),
            _ => clone_expr(e),
        };
        let r = if i + 1 < hi {
            single(summation_math(op, one_of(interpret_from_at(v, hi, i + 1))))
        } else {
            single(op)
        };
        assert(view_exprs(r@) == interpret_from(nodes, i as int));
        return r;
    }
    if integral_sign(e) && hi - i >= 4 && mi_is(&v[hi - 2], "d") {
        match word_of(&v[hi - 1]) {
            Some(t) => {
                assert(nodes.take(hi - 2) == lay(v@, hi - 2));
                let var = ci_node(name_of(t));
                let op = match e {
                    MathExpression::Msubsup(_, low, up) => mo(
                        integral_of(Some(meaning(low)), Some(meaning(up)), clone_expr(&var)),
                    ),
                    _ => clone_expr(e),
                };
                let r = single(integral(op, row(interpret_from_at(v, hi - 2, i + 1)), var));
                assert(view_exprs(r@) == interpret_from(nodes, i as int));
                return r;
            },
            None => {},
        }
    }
    if surface_sign(e) {
        let r = single(MathExpression::SurfaceIntegral(Box::new(row(interpret_from_at(v, hi, i + 1)))));
        assert(view_exprs(r@) == interpret_from(nodes, i as int));
        return r;
    }
    if (mi_is(e, "\u{394}") || mi_is(e, "d")) && i + 1 < hi {
        match (word_of(e), word_of(&v[i + 1])) {
            (Some(a), Some(b)) => {
                if !keyword(&b) {
                    let mut a = a;
                    a.append(b.as_str());
                    let r = prepend(ci_node(name_of(a)), interpret_from_at(v, hi, i + 2));
                    assert(view_exprs(r@) == interpret_from(nodes, i as int));
                    return r;
                }
            },
            _ => {},
        }
    }
    if mi_is(e, "\u{394}") && i + 1 < hi {
        match sub_base(&v[i + 1]) {
            Some(b) => {
                let mut t = String::from_str("\u{394}");
                t.append(b.as_str());
                let sub = match &v[i + 1] {
                    MathExpression::Msub(_, x) => meaning(x),
                    _ => clone_expr(e),
                };
                let whole = ci_node(
                    ci(MathExpression::Msub(Box::new(ci_node(name_of(t))), Box::new(sub)), None, None),
                );
                let r = prepend(whole, interpret_from_at(v, hi, i + 2));
                assert(view_exprs(r@) == interpret_from(nodes, i as int));
                return r;
            },
            None => {},
        }
    }
    if name(e) {
        let (c, next) = name_from(v, hi, i);
        let r = prepend(ci_node(c), interpret_from_at(v, hi, next));
        assert(view_exprs(r@) == interpret_from(nodes, i as int));
        return r;
    }
    let r = prepend(meaning(e), interpret_from_at(v, hi, i + 1));
    assert(view_exprs(r@) == interpret_from(nodes, i as int));
    r
}

/// What the nodes of a document mean.
pub fn interpret(nodes: &Vec<MathExpression>) -> (r: Vec<MathExpression>)
    ensures
        view_exprs(r@) == interpreted(view_exprs(nodes@)),
{
    proof {
        lemma_lay(nodes@, nodes@.len() as int);
    }
    interpret_from_at(nodes, nodes.len(), 0)
}

} // verus!
