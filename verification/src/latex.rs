//! LaTeX source for a tree.
use crate::ast::{
    view_ci, view_cis, view_expr, view_exprs, view_op, Ci, CiView, Derivative, DerivativeNotation, ExprView,
    Int, LogView, LogarithmNotation, MathExpression, OpView, Operator, Summation, VectorNotation,
};
use crate::display::{display_expr, display_lower, display_upper};
use crate::text::{latex_names, unicode_to_latex};
use crate::tree::{view_trees, MathExpressionTree, TreeView};
use vstd::prelude::*;

verus! {

/// The operators that are written in front of, or glued to, what they apply to.
pub open spec fn is_unary(o: OpView) -> bool {
    match o {
        OpView::Sqrt
        | OpView::Factorial
        | OpView::Exp
        | OpView::Logarithm(_)
        | OpView::Power
        | OpView::Gradient { .. }
        | OpView::Summation { .. }
        | OpView::Hat { .. }
        | OpView::Div
        | OpView::Abs
        | OpView::Laplacian
        | OpView::Derivative { .. }
        | OpView::Int { .. }
        | OpView::SurfaceInt
        | OpView::Sin
        | OpView::Cos
        | OpView::Tan
        | OpView::Sec
        | OpView::Csc
        | OpView::Cot
        | OpView::Arcsin
        | OpView::Arccos
        | OpView::Arctan
        | OpView::Arcsec
        | OpView::Arccsc
        | OpView::Arccot
        | OpView::Mean => true,
        _ => false,
    }
}

/// How an operand is set off from the operator around it.
#[derive(Debug, PartialEq, Eq, Clone, Copy, Structural)]
pub enum Grouping {
    /// As it is.
    Plain,
    /// In brackets, unless it is a leaf, a product, a quotient or a unary operator.
    Grouped,
    /// In brackets, unless it is a leaf or a unary operator.
    Glued,
    /// In brackets, unless it is a leaf, a product, a quotient, a dot product or a unary operator.
    Factor,
}

/// Whether an operand with the operator `o` at its head is set in brackets.
pub open spec fn needs_brackets(o: OpView, g: Grouping) -> bool {
    match g {
        Grouping::Plain => false,
        Grouping::Grouped => !(is_unary(o) || o is Multiply || o is Divide),
        Grouping::Glued => !is_unary(o),
        Grouping::Factor => !(is_unary(o) || o is Multiply || o is Divide || o is Dot),
    }
}

// ------------------------------------------------------------------ leaves

/// The names that a function is of, the first `n` of them, with commas between.
pub open spec fn latex_args(v: Seq<CiView>, n: nat) -> Seq<char>
    decreases v, n,
{
    if n == 0 || n > v.len() {
        Seq::empty()
    } else if n == 1 {
        latex_expr(*v[0].content)
    } else {
        latex_args(v, (n - 1) as nat) + ","@ + latex_expr(*v[n - 1].content)
    }
}

/// The first `n` nodes of a row, one after the other.
pub open spec fn latex_exprs(v: Seq<ExprView>, n: nat) -> Seq<char>
    decreases v, n,
{
    if n == 0 || n > v.len() {
        Seq::empty()
    } else {
        latex_exprs(v, (n - 1) as nat) + latex_expr(v[n - 1])
    }
}

/// Whether the arguments of a function are written: there is a first one, and it has a name.
pub open spec fn shows_args(func_of: Option<Seq<CiView>>) -> bool {
    match func_of {
        Some(v) => v.len() > 0 && display_expr(*v[0].content).len() > 0,
        None => false,
    }
}

/// LaTeX for a leaf of the tree.
pub open spec fn latex_expr(e: ExprView) -> Seq<char>
    decreases e, 0nat,
{
    match e {
        ExprView::Ci(c) => {
            let body = latex_expr(*c.content);
            let head = match c.notation {
                Some(VectorNotation::Arrow) => "\\vec{"@ + body + "}"@,
                Some(VectorNotation::Bold) => "\\bold{"@ + body + "}"@,
                None => body,
            };
            if shows_args(c.func_of) {
                head + "("@ + latex_args(c.func_of->0, c.func_of->0.len()) + ")"@
            } else {
                head
            }
        },
        ExprView::Mi(s) => latex_names(s),
        ExprView::Mn(s) => s,
        ExprView::Mtext(s) => s,
        ExprView::Mspace(s) => s,
        ExprView::Msqrt(a) => "\\sqrt{"@ + latex_expr(*a) + "}"@,
        ExprView::Mfrac(a, b) => "\\frac{"@ + latex_expr(*a) + "}{"@ + latex_expr(*b) + "}"@,
        ExprView::Msup(a, b) => latex_expr(*a) + "^{"@ + latex_expr(*b) + "}"@,
        ExprView::Msub(a, b) => latex_expr(*a) + "_{"@ + latex_expr(*b) + "}"@,
        ExprView::Msubsup(a, b, c) => latex_expr(*a) + "_{"@ + latex_expr(*b) + "}^{"@ + latex_expr(*c) + "}"@,
        ExprView::Munder(a, b) => "\\underset{"@ + latex_expr(*b) + "}{"@ + latex_expr(*a) + "}"@,
        ExprView::Mover(a, b) => "\\overset{"@ + latex_expr(*b) + "}{"@ + latex_expr(*a) + "}"@,
        ExprView::AbsoluteSup(a, b) => "\\left| "@ + latex_expr(*a) + " \\right|_{"@ + latex_expr(*b) + "}"@,
        ExprView::Mrow(v) => latex_exprs(v, v.len()),
        ExprView::DownArrow { sub, sup, comp } => latex_expr(*comp) + "{\\downarrow}"@ + display_lower(sub)
            + display_upper(sup),
        ExprView::SurfaceIntegral(a) => latex_expr(*a),
        ExprView::Mo(OpView::Hat { comp }) => "\\hat{"@ + latex_expr(*comp) + "}"@,
        ExprView::Mo(OpView::Other(s)) => s,
        _ => Seq::empty(),
    }
}

/// Whether the first `n` names of a list have a LaTeX form.
pub open spec fn latex_args_ok(v: Seq<CiView>, n: nat) -> bool
    decreases v, n,
{
    n == 0 || (n <= v.len() && latex_args_ok(v, (n - 1) as nat) && latex_expr_ok(*v[n - 1].content))
}

/// Whether the first `n` nodes of a row have a LaTeX form.
pub open spec fn latex_exprs_ok(v: Seq<ExprView>, n: nat) -> bool
    decreases v, n,
{
    n == 0 || (n <= v.len() && latex_exprs_ok(v, (n - 1) as nat) && latex_expr_ok(v[n - 1]))
}

/// Whether a leaf, with all that is written of it, is of a kind that LaTeX is defined for.
pub open spec fn latex_expr_ok(e: ExprView) -> bool
    decreases e, 0nat,
{
    match e {
        ExprView::Ci(c) => latex_expr_ok(*c.content) && (match c.func_of {
            Some(v) => shows_args(c.func_of) ==> latex_args_ok(v, v.len()),
            None => true,
        }),
        ExprView::Mi(_) => true,
        ExprView::Mn(_) => true,
        ExprView::Mtext(_) => true,
        ExprView::Mspace(_) => true,
        ExprView::Msqrt(a) => latex_expr_ok(*a),
        ExprView::Mfrac(a, b) => latex_expr_ok(*a) && latex_expr_ok(*b),
        ExprView::Msup(a, b) => latex_expr_ok(*a) && latex_expr_ok(*b),
        ExprView::Msub(a, b) => latex_expr_ok(*a) && latex_expr_ok(*b),
        ExprView::Msubsup(a, b, c) => latex_expr_ok(*a) && latex_expr_ok(*b) && latex_expr_ok(*c),
        ExprView::Munder(a, b) => latex_expr_ok(*a) && latex_expr_ok(*b),
        ExprView::Mover(a, b) => latex_expr_ok(*a) && latex_expr_ok(*b),
        ExprView::AbsoluteSup(a, b) => latex_expr_ok(*a) && latex_expr_ok(*b),
        ExprView::Mrow(v) => latex_exprs_ok(v, v.len()),
        ExprView::DownArrow { sub, sup, comp } => latex_expr_ok(*comp),
        ExprView::SurfaceIntegral(a) => latex_expr_ok(*a),
        ExprView::Mo(OpView::Hat { comp }) => latex_expr_ok(*comp),
        ExprView::Mo(OpView::Other(_)) => true,
        _ => false,
    }
}

// ------------------------------------------------------------------ trees

/// An operand, in brackets where its place asks for them.
pub open spec fn latex_piece(t: TreeView, g: Grouping) -> Seq<char>
    decreases t, 1nat,
{
    match t {
        TreeView::Cons(o, _) => if needs_brackets(o, g) {
            "("@ + latex_tree(t) + ")"@
        } else {
            latex_tree(t)
        },
        TreeView::Atom(_) => latex_tree(t),
    }
}

/// The first `n` operands, with `sep` between them.
pub open spec fn latex_joined(v: Seq<TreeView>, n: nat, g: Grouping, sep: Seq<char>) -> Seq<char>
    decreases v, n,
{
    if n == 0 || n > v.len() {
        Seq::empty()
    } else if n == 1 {
        latex_piece(v[0], g)
    } else {
        latex_joined(v, (n - 1) as nat, g, sep) + sep + latex_piece(v[n - 1], g)
    }
}

/// The name of a function that is written `\name(..)`.
pub open spec fn latex_function(o: OpView) -> Option<Seq<char>> {
    match o {
        OpView::Sin => Some("\\sin("@),
        OpView::Cos => Some("\\cos("@),
        OpView::Tan => Some("\\tan("@),
        OpView::Sec => Some("\\sec("@),
        OpView::Csc => Some("\\csc("@),
        OpView::Cot => Some("\\cot("@),
        OpView::Arcsin => Some("\\arcsin("@),
        OpView::Arccos => Some("\\arccos("@),
        OpView::Arctan => Some("\\arctan("@),
        OpView::Arcsec => Some("\\arcsec("@),
        OpView::Arccsc => Some("\\arccsc("@),
        OpView::Arccot => Some("\\arccot("@),
        _ => None,
    }
}

/// What is written where an operator has no LaTeX form.
pub open spec fn unsupported() -> Seq<char> {
    "Contain unsupported operators."@
}

/// The LaTeX of the `i`-th operand, where there is one.
pub open spec fn latex_at(v: Seq<TreeView>, i: int) -> Seq<char>
    decreases v, 0nat,
{
    if 0 <= i < v.len() {
        latex_tree(v[i])
    } else {
        Seq::empty()
    }
}

/// The `i`-th operand as a piece, where there is one.
pub open spec fn piece_at(v: Seq<TreeView>, i: int, g: Grouping) -> Seq<char>
    decreases v, 0nat,
{
    if 0 <= i < v.len() {
        latex_piece(v[i], g)
    } else {
        Seq::empty()
    }
}

/// LaTeX for a tree.
pub open spec fn latex_tree(t: TreeView) -> Seq<char>
    decreases t, 0nat,
{
    match t {
        TreeView::Atom(e) => latex_expr(e),
        TreeView::Cons(o, v) => match o {
            OpView::Add => latex_joined(v, v.len(), Grouping::Plain, "+"@),
            OpView::Subtract => if v.len() == 1 {
                "-"@ + piece_at(v, 0, Grouping::Grouped)
            } else {
                latex_joined(v, v.len(), Grouping::Grouped, "-"@)
            },
            OpView::Multiply => latex_joined(v, v.len(), Grouping::Factor, "*"@),
            OpView::Equals => latex_at(v, 0) + "="@ + latex_at(v, 1),
            OpView::Divide => "\\frac{"@ + latex_at(v, 0) + "}{"@ + latex_at(v, 1) + "}"@,
            OpView::Exp => "\\mathrm{exp}{"@ + latex_at(v, 0) + "}"@,
            OpView::Sqrt => "\\sqrt{"@ + latex_at(v, 0) + "}"@,
            OpView::Lparen => "("@ + latex_at(v, 0),
            OpView::Rparen => ")"@ + latex_at(v, 0),
            OpView::Compose => piece_at(v, 0, Grouping::Glued) + "_"@ + piece_at(v, 1, Grouping::Glued),
            OpView::Factorial => piece_at(v, 0, Grouping::Glued) + "!"@,
            OpView::Power => piece_at(v, 0, Grouping::Glued) + "^{"@ + latex_at(v, 1) + "}"@,
            OpView::Gradient { subscript } => match subscript {
                Some(s) => "\\nabla_{"@ + latex_expr(*s) + "}{"@ + piece_at(v, 0, Grouping::Grouped) + "}"@,
                None => "\\nabla{"@ + piece_at(v, 0, Grouping::Grouped) + "}"@,
            },
            OpView::Dot => piece_at(v, 0, Grouping::Glued) + " \\cdot "@ + piece_at(v, 1, Grouping::Glued),
            OpView::Cross => piece_at(v, 0, Grouping::Glued) + " \\cross "@ + piece_at(v, 1, Grouping::Glued),
            OpView::Div => "\\nabla \\cdot {"@ + piece_at(v, 0, Grouping::Glued) + "}"@,
            OpView::Abs => "\\left|"@ + latex_at(v, 0) + "\\right|"@,
            OpView::Derivative { order, var_index, bound_var, notation } => {
                let var = latex_expr(*bound_var.content);
                match notation {
                    DerivativeNotation::LeibnizTotal => "\\frac{d "@ + piece_at(v, 0, Grouping::Grouped)
                        + "}{d"@ + var + "}"@,
                    DerivativeNotation::LeibnizPartialStandard => if order == 1 {
                        "\\frac{\\partial "@ + piece_at(v, 0, Grouping::Grouped) + "}{\\partial "@ + var
                            + "}"@
                    } else if order == 2 {
                        "\\frac{\\partial^2 "@ + piece_at(v, 0, Grouping::Grouped) + "}{\\partial "@ + var
                            + "^2}"@
                    } else {
                        Seq::empty()
                    },
                    DerivativeNotation::LeibnizPartialCompact => "\\partial_{"@ + var + "}"@,
                    DerivativeNotation::Newton => if order == 1 {
                        "\\dot_{"@ + var + "}"@
                    } else {
                        Seq::empty()
                    },
                    DerivativeNotation::DNotation => "\\frac{D "@ + piece_at(v, 0, Grouping::Grouped)
                        + "}{D"@ + var + "}"@,
                    DerivativeNotation::Lagrange => if order == 1 {
                        var + "^\\prime"@
                    } else {
                        Seq::empty()
                    },
                }
            },
            OpView::Sin
            | OpView::Cos
            | OpView::Tan
            | OpView::Sec
            | OpView::Csc
            | OpView::Cot
            | OpView::Arcsin
            | OpView::Arccos
            | OpView::Arctan
            | OpView::Arcsec
            | OpView::Arccsc
            | OpView::Arccot => latex_function(o)->0 + latex_at(v, 0) + ")"@,
            OpView::Mean => "\\langle "@ + latex_at(v, 0) + " \\rangle"@,
            OpView::Hat { comp } => piece_at(v, 0, Grouping::Glued) + "\\hat{"@ + latex_expr(*comp) + "}"@,
            OpView::Summation { lower, upper } => if lower is None && upper is None {
                "\\sum "@ + piece_at(v, 0, Grouping::Grouped)
            } else {
                "\\sum"@ + display_lower(lower) + display_upper(upper) + latex_at(v, 0)
            },
            OpView::Int { lower, upper, variable } => match (lower, upper) {
                (Some(l), Some(u)) => "\\int_{"@ + latex_expr(*l) + "}^{"@ + latex_expr(*u) + "}"@ + latex_at(v, 0) + " d"@ + display_expr(*variable),
                (None, None) => "\\int "@ + piece_at(v, 0, Grouping::Grouped),
                _ => "\\int"@ + display_lower(lower) + display_upper(upper) + latex_at(v, 0),
            },
            OpView::Laplacian => "\\nabla^2 "@ + latex_at(v, 0),
            OpView::SurfaceInt => "\\oiint_S "@ + latex_at(v, 0),
            OpView::Min => if v.len() == 0 {
                "\\min \\{\\}"@
            } else {
                "\\min \\{ "@ + latex_joined(v, v.len(), Grouping::Plain, ","@) + "\\}"@
            },
            OpView::Logarithm(l) => match l {
                LogView::Ln => "\\ln "@ + latex_at(v, 0),
                LogView::Log => "\\log "@ + latex_at(v, 0),
                LogView::LogBase(b) => "\\log_{"@ + display_expr(*b) + "}"@ + latex_at(v, 0),
            },
            OpView::Comma => piece_at(v, 0, Grouping::Glued) + ","@ + piece_at(v, 1, Grouping::Glued),
            OpView::Vector => unsupported(),
            OpView::Other(_) => unsupported(),
        },
    }
}

/// How many of its operands, from the first on, an operator's LaTeX form writes.
pub open spec fn latex_operands(o: OpView, len: nat) -> nat {
    match o {
        OpView::Add | OpView::Subtract | OpView::Multiply | OpView::Min => len,
        OpView::Equals
        | OpView::Divide
        | OpView::Compose
        | OpView::Power
        | OpView::Dot
        | OpView::Cross
        | OpView::Comma => 2,
        OpView::Vector | OpView::Other(_) => 0,
        OpView::Derivative { order, var_index, bound_var, notation } => match notation {
            DerivativeNotation::LeibnizTotal => 1,
            DerivativeNotation::DNotation => 1,
            DerivativeNotation::LeibnizPartialStandard => if order == 1 || order == 2 {
                1
            } else {
                0
            },
            _ => 0,
        },
        _ => 1,
    }
}

/// Whether the form of a derivative writes its variable: always with `d`, with `D` and in
/// the short partial form, with the round `d` for the first and the second order, with a dot
/// or a prime for the first order.
pub open spec fn writes_variable(notation: DerivativeNotation, order: u8) -> bool {
    match notation {
        DerivativeNotation::LeibnizTotal => true,
        DerivativeNotation::DNotation => true,
        DerivativeNotation::LeibnizPartialCompact => true,
        DerivativeNotation::LeibnizPartialStandard => order == 1 || order == 2,
        DerivativeNotation::Newton => order == 1,
        DerivativeNotation::Lagrange => order == 1,
    }
}

/// Whether what an operator carries, as far as its form writes it, can be written in LaTeX.
pub open spec fn latex_op_ok(o: OpView) -> bool {
    match o {
        OpView::Gradient { subscript } => subscript is Some ==> latex_expr_ok(*subscript->0),
        OpView::Derivative { order, var_index, bound_var, notation } => writes_variable(notation, order)
            ==> latex_expr_ok(*bound_var.content),
        OpView::Hat { comp } => latex_expr_ok(*comp),
        OpView::Int { lower, upper, variable } => lower is Some && upper is Some ==> latex_expr_ok(*lower->0)
            && latex_expr_ok(*upper->0),
        _ => true,
    }
}

/// Whether LaTeX is defined for the first `n` trees of a list.
pub open spec fn latex_trees_ok(v: Seq<TreeView>, n: nat) -> bool
    decreases v, n,
{
    n == 0 || (n <= v.len() && latex_trees_ok(v, (n - 1) as nat) && latex_ok(v[n - 1]))
}

/// Whether LaTeX is defined for a tree: every operator has the operands that its form
/// writes, and every leaf that is written is of a kind that has a form.
pub open spec fn latex_ok(t: TreeView) -> bool
    decreases t, 0nat,
{
    match t {
        TreeView::Atom(e) => latex_expr_ok(e),
        TreeView::Cons(o, v) => latex_op_ok(o) && latex_trees_ok(v, latex_operands(o, v.len())),
    }
}

/// Each of the first `n` names has a LaTeX form where all of them have.
pub proof fn lemma_latex_args_ok(v: Seq<CiView>, n: nat, i: int)
    requires
        latex_args_ok(v, n),
        0 <= i < n,
    ensures
        n <= v.len(),
        latex_expr_ok(*v[i].content),
    decreases n,
{
    if i < n - 1 {
        lemma_latex_args_ok(v, (n - 1) as nat, i);
    }
}

/// Each of the first `n` nodes has a LaTeX form where all of them have.
pub proof fn lemma_latex_exprs_ok(v: Seq<ExprView>, n: nat, i: int)
    requires
        latex_exprs_ok(v, n),
        0 <= i < n,
    ensures
        n <= v.len(),
        latex_expr_ok(v[i]),
    decreases n,
{
    if i < n - 1 {
        lemma_latex_exprs_ok(v, (n - 1) as nat, i);
    }
}

/// LaTeX is defined for each of the first `n` trees where it is for all of them.
pub proof fn lemma_latex_trees_ok(v: Seq<TreeView>, n: nat, i: int)
    requires
        latex_trees_ok(v, n),
        0 <= i < n,
    ensures
        n <= v.len(),
        latex_ok(v[i]),
    decreases n,
{
    if i < n - 1 {
        lemma_latex_trees_ok(v, (n - 1) as nat, i);
    }
}

// ------------------------------------------------------------------ writing

/// Whether an operator is one of those written in front of, or glued to, its operand.
pub fn is_unary_operator(op: &Operator) -> (r: bool)
    ensures
        r == is_unary(op@),
{
    match op {
        Operator::Sqrt
        | Operator::Factorial
        | Operator::Exp
        | Operator::Logarithm(_)
        | Operator::Power
        | Operator::Gradient(_)
        | Operator::Summation(_)
        | Operator::Hat(_)
        | Operator::Div
        | Operator::Abs
        | Operator::Laplacian
        | Operator::Derivative(_)
        | Operator::Int(_)
        | Operator::SurfaceInt
        | Operator::Sin
        | Operator::Cos
        | Operator::Tan
        | Operator::Sec
        | Operator::Csc
        | Operator::Cot
        | Operator::Arcsin
        | Operator::Arccos
        | Operator::Arctan
        | Operator::Arcsec
        | Operator::Arccsc
        | Operator::Arccot
        | Operator::Mean => true,
        _ => false,
    }
}

fn brackets(o: &Operator, g: Grouping) -> (r: bool)
    ensures
        r == needs_brackets(o@, g),
{
    let product = match o {
        Operator::Multiply => true,
        Operator::Divide => true,
        _ => false,
    };
    let dot = match o {
        Operator::Dot => true,
        _ => false,
    };
    match g {
        Grouping::Plain => false,
        Grouping::Grouped => !(is_unary_operator(o) || product),
        Grouping::Glued => !is_unary_operator(o),
        Grouping::Factor => !(is_unary_operator(o) || product || dot),
    }
}

/// `open`, then `body`, then `close`.
fn wrap(open: &str, body: &String, close: &str) -> (r: String)
    ensures
        r@ == open@ + body@ + close@,
{
    let mut r = String::from_str(open);
    r.append(body.as_str());
    r.append(close);
    r
}

fn args_latex(v: &Vec<Ci>) -> (r: String)
    requires
        latex_args_ok(view_cis(v@), v@.len()),
    ensures
        r@ == latex_args(view_cis(v@), v@.len()),
    decreases v,
{
    if v.len() == 0 {
        return String::new();
    }
    proof {
        lemma_latex_args_ok(view_cis(v@), v@.len(), 0);
    }
    assert(*view_cis(v@)[0].content == view_expr(*v@[0].content));
    let mut r = expr_latex(&v[0].content);
    let mut i: usize = 1;
    while i < v.len()
        invariant
            1 <= i <= v.len(),
            r@ == latex_args(view_cis(v@), i as nat),
            latex_args_ok(view_cis(v@), v@.len()),
        decreases v.len() - i,
    {
        proof {
            lemma_latex_args_ok(view_cis(v@), v@.len(), i as int);
        }
        assert(*view_cis(v@)[i as int].content == view_expr(*v@[i as int].content));
        let s = expr_latex(&v[i].content);
        r.append(",");
        r.append(s.as_str());
        i += 1;
    }
    r
}

fn exprs_latex(v: &Vec<MathExpression>) -> (r: String)
    requires
        latex_exprs_ok(view_exprs(v@), v@.len()),
    ensures
        r@ == latex_exprs(view_exprs(v@), v@.len()),
    decreases v,
{
    let mut r = String::new();
    let mut i: usize = 0;
    while i < v.len()
        invariant
            i <= v.len(),
            r@ == latex_exprs(view_exprs(v@), i as nat),
            latex_exprs_ok(view_exprs(v@), v@.len()),
        decreases v.len() - i,
    {
        proof {
            lemma_latex_exprs_ok(view_exprs(v@), v@.len(), i as int);
        }
        let s = expr_latex(&v[i]);
        r.append(s.as_str());
        i += 1;
    }
    r
}

fn ci_latex(c: &Ci) -> (r: String)
    requires
        latex_expr_ok(ExprView::Ci(c@)),
    ensures
        r@ == latex_expr(ExprView::Ci(c@)),
    decreases c,
{
    assert(*view_ci(*c).content == view_expr(*c.content));
    let body = expr_latex(&c.content);
    let mut r = match c.notation {
        Some(VectorNotation::Arrow) => wrap("\\vec{", &body, "}"),
        Some(VectorNotation::Bold) => wrap("\\bold{", &body, "}"),
        None => body,
    };
    match &c.func_of {
        Some(v) => {
            assert(view_ci(*c).func_of == Some(view_cis(v@)));
            if v.len() > 0 {
                assert(*view_cis(v@)[0].content == view_expr(*v@[0].content));
                let first = v[0].content.to_string();
                if !first.as_str().is_empty() {
                    assert(shows_args(c@.func_of));
                    assert(view_cis(v@).len() == v@.len());
                    let a = args_latex(v);
                    r.append("(");
                    r.append(a.as_str());
                    r.append(")");
                }
            }
        },
        None => {},
    }
    r
}

fn expr_latex(e: &MathExpression) -> (r: String)
    requires
        latex_expr_ok(e@),
    ensures
        r@ == latex_expr(e@),
    decreases e,
{
    match e {
        MathExpression::Ci(c) => ci_latex(c),
        MathExpression::Mi(s) => unicode_to_latex(s.as_str()),
        MathExpression::Mn(s) => s.clone(),
        MathExpression::Mtext(s) => s.clone(),
        MathExpression::Mspace(s) => s.clone(),
        MathExpression::Msqrt(a) => {
            let x = expr_latex(a);
            wrap("\\sqrt{", &x, "}")
        },
        MathExpression::Mfrac(a, b) => {
            let x = expr_latex(a);
            let mut r = wrap("\\frac{", &x, "}{");
            let y = expr_latex(b);
            r.append(y.as_str());
            r.append("}");
            r
        },
        MathExpression::Msup(a, b) => {
            let mut r = expr_latex(a);
            r.append("^{");
            let y = expr_latex(b);
            r.append(y.as_str());
            r.append("}");
            r
        },
        MathExpression::Msub(a, b) => {
            let mut r = expr_latex(a);
            r.append("_{");
            let y = expr_latex(b);
            r.append(y.as_str());
            r.append("}");
            r
        },
        MathExpression::Msubsup(a, b, c) => {
            let mut r = expr_latex(a);
            r.append("_{");
            let y = expr_latex(b);
            r.append(y.as_str());
            r.append("}^{");
            let z = expr_latex(c);
            r.append(z.as_str());
            r.append("}");
            r
        },
        MathExpression::Munder(a, b) => {
            let y = expr_latex(b);
            let mut r = wrap("\\underset{", &y, "}{");
            let x = expr_latex(a);
            r.append(x.as_str());
            r.append("}");
            r
        },
        MathExpression::Mover(a, b) => {
            let y = expr_latex(b);
            let mut r = wrap("\\overset{", &y, "}{");
            let x = expr_latex(a);
            r.append(x.as_str());
            r.append("}");
            r
        },
        MathExpression::AbsoluteSup(a, b) => {
            let x = expr_latex(a);
            let mut r = wrap("\\left| ", &x, " \\right|_{");
            let y = expr_latex(b);
            r.append(y.as_str());
            r.append("}");
            r
        },
        MathExpression::Mrow(v) => {
            let ghost vs = view_exprs(v@);
            assert(e@ == ExprView::Mrow(vs));
            assert(vs.len() == v@.len());
            exprs_latex(v)
        },
        MathExpression::DownArrow(d) => {
            let mut r = expr_latex(&d.comp);
            r.append("{\\downarrow}");
            let l = crate::display::lower_string(&d.sub);
            r.append(l.as_str());
            let u = crate::display::upper_string(&d.sup);
            r.append(u.as_str());
            r
        },
        MathExpression::SurfaceIntegral(a) => expr_latex(a),
        MathExpression::Mo(o) => match o {
            Operator::Hat(h) => {
                assert(view_op(*o) == (OpView::Hat { comp: Box::new(view_expr(*h.comp)) }));
                let x = expr_latex(&h.comp);
                wrap("\\hat{", &x, "}")
            },
            Operator::Other(s) => {
                assert(view_op(*o) == OpView::Other(s@));
                s.clone()
            },
            _ => {
                assert(!(view_op(*o) is Hat) && !(view_op(*o) is Other));
                String::new()
            },
        },
        _ => String::new(),
    }
}

fn child_latex(v: &Vec<MathExpressionTree>, i: usize) -> (r: String)
    requires
        i < v@.len(),
        latex_ok(view_trees(v@)[i as int]),
    ensures
        r@ == latex_at(view_trees(v@), i as int),
    decreases v, 1nat,
{
    tree_latex(&v[i])
}

fn child_piece(v: &Vec<MathExpressionTree>, i: usize, g: Grouping) -> (r: String)
    requires
        i < v@.len(),
        latex_ok(view_trees(v@)[i as int]),
    ensures
        r@ == piece_at(view_trees(v@), i as int, g),
    decreases v, 2nat,
{
    piece_latex(&v[i], g)
}

fn piece_latex(t: &MathExpressionTree, g: Grouping) -> (r: String)
    requires
        latex_ok(t@),
    ensures
        r@ == latex_piece(t@, g),
    decreases t, 1nat,
{
    let inner = tree_latex(t);
    match t {
        MathExpressionTree::Cons(o, _) => {
            if brackets(o, g) {
                wrap("(", &inner, ")")
            } else {
                inner
            }
        },
        MathExpressionTree::Atom(_) => inner,
    }
}

fn joined_latex(v: &Vec<MathExpressionTree>, g: Grouping, sep: &str) -> (r: String)
    requires
        latex_trees_ok(view_trees(v@), v@.len()),
    ensures
        r@ == latex_joined(view_trees(v@), v@.len(), g, sep@),
    decreases v, 3nat,
{
    if v.len() == 0 {
        return String::new();
    }
    proof {
        lemma_latex_trees_ok(view_trees(v@), v@.len(), 0);
    }
    let mut r = piece_latex(&v[0], g);
    let mut i: usize = 1;
    while i < v.len()
        invariant
            1 <= i <= v.len(),
            r@ == latex_joined(view_trees(v@), i as nat, g, sep@),
            latex_trees_ok(view_trees(v@), v@.len()),
        decreases v.len() - i,
    {
        proof {
            lemma_latex_trees_ok(view_trees(v@), v@.len(), i as int);
        }
        let s = piece_latex(&v[i], g);
        r.append(sep);
        r.append(s.as_str());
        i += 1;
    }
    r
}

/// `open`, the first operand, `close`.
fn around(open: &str, v: &Vec<MathExpressionTree>, close: &str) -> (r: String)
    requires
        0 < v@.len(),
        latex_ok(view_trees(v@)[0]),
    ensures
        r@ == open@ + latex_at(view_trees(v@), 0) + close@,
    decreases v, 2nat,
{
    let x = child_latex(v, 0);
    wrap(open, &x, close)
}

/// `open`, then the first operand.
fn after(open: &str, v: &Vec<MathExpressionTree>) -> (r: String)
    requires
        0 < v@.len(),
        latex_ok(view_trees(v@)[0]),
    ensures
        r@ == open@ + latex_at(view_trees(v@), 0),
    decreases v, 2nat,
{
    let x = child_latex(v, 0);
    let mut r = String::from_str(open);
    r.append(x.as_str());
    r
}

/// `open`, then the first operand as a piece.
fn piece_after(open: &str, v: &Vec<MathExpressionTree>, g: Grouping) -> (r: String)
    requires
        0 < v@.len(),
        latex_ok(view_trees(v@)[0]),
    ensures
        r@ == open@ + piece_at(view_trees(v@), 0, g),
    decreases v, 3nat,
{
    let x = child_piece(v, 0, g);
    let mut r = String::from_str(open);
    r.append(x.as_str());
    r
}

/// `open`, the first operand as a piece, `close`.
fn around_piece(open: &str, v: &Vec<MathExpressionTree>, g: Grouping, close: &str) -> (r: String)
    requires
        0 < v@.len(),
        latex_ok(view_trees(v@)[0]),
    ensures
        r@ == open@ + piece_at(view_trees(v@), 0, g) + close@,
    decreases v, 3nat,
{
    let x = child_piece(v, 0, g);
    wrap(open, &x, close)
}

/// The first operand, `mid`, the second, both as pieces.
fn between(v: &Vec<MathExpressionTree>, mid: &str) -> (r: String)
    requires
        1 < v@.len(),
        latex_ok(view_trees(v@)[0]),
        latex_ok(view_trees(v@)[1]),
    ensures
        r@ == piece_at(view_trees(v@), 0, Grouping::Glued) + mid@ + piece_at(view_trees(v@), 1, Grouping::Glued),
    decreases v, 3nat,
{
    let mut r = child_piece(v, 0, Grouping::Glued);
    r.append(mid);
    let y = child_piece(v, 1, Grouping::Glued);
    r.append(y.as_str());
    r
}

fn derivative_latex(d: &Derivative, v: &Vec<MathExpressionTree>) -> (r: String)
    requires
        latex_ok(TreeView::Cons(Operator::Derivative(*d)@, view_trees(v@))),
    ensures
        r@ == latex_tree(TreeView::Cons(Operator::Derivative(*d)@, view_trees(v@))),
    decreases v, 4nat,
{
    let ghost o = Operator::Derivative(*d)@;
    let ghost vs = view_trees(v@);
    assert(*view_ci(d.bound_var).content == view_expr(*d.bound_var.content));
    assert(latex_op_ok(o));
    proof {
        if latex_operands(o, vs.len()) >= 1 {
            lemma_latex_trees_ok(vs, latex_operands(o, vs.len()), 0);
        }
    }
    match d.notation {
        DerivativeNotation::LeibnizTotal => {
            assert(latex_ok(view_trees(v@)[0]));
            let mut r = around_piece("\\frac{d ", v, Grouping::Grouped, "}{d");
            let var = expr_latex(&d.bound_var.content);
            r.append(var.as_str());
            r.append("}");
            r
        },
        DerivativeNotation::LeibnizPartialStandard => {
            if d.order == 1 {
                assert(latex_ok(view_trees(v@)[0]));
                let mut r = around_piece("\\frac{\\partial ", v, Grouping::Grouped, "}{\\partial ");
                let var = expr_latex(&d.bound_var.content);
                r.append(var.as_str());
                r.append("}");
                r
            } else if d.order == 2 {
                assert(latex_ok(view_trees(v@)[0]));
                let mut r = around_piece("\\frac{\\partial^2 ", v, Grouping::Grouped, "}{\\partial ");
                let var = expr_latex(&d.bound_var.content);
                r.append(var.as_str());
                r.append("^2}");
                r
            } else {
                String::new()
            }
        },
        DerivativeNotation::LeibnizPartialCompact => {
            let var = expr_latex(&d.bound_var.content);
            wrap("\\partial_{", &var, "}")
        },
        DerivativeNotation::Newton => {
            if d.order == 1 {
                let var = expr_latex(&d.bound_var.content);
                wrap("\\dot_{", &var, "}")
            } else {
                String::new()
            }
        },
        DerivativeNotation::DNotation => {
            assert(latex_ok(view_trees(v@)[0]));
            let mut r = around_piece("\\frac{D ", v, Grouping::Grouped, "}{D");
            let var = expr_latex(&d.bound_var.content);
            r.append(var.as_str());
            r.append("}");
            r
        },
        DerivativeNotation::Lagrange => {
            if d.order == 1 {
                let mut r = expr_latex(&d.bound_var.content);
                r.append("^\\prime");
                r
            } else {
                String::new()
            }
        },
    }
}

fn summation_latex(x: &Summation, v: &Vec<MathExpressionTree>) -> (r: String)
    requires
        latex_ok(TreeView::Cons(Operator::Summation(*x)@, view_trees(v@))),
    ensures
        r@ == latex_tree(TreeView::Cons(Operator::Summation(*x)@, view_trees(v@))),
    decreases v, 4nat,
{
    proof {
        lemma_latex_trees_ok(view_trees(v@), 1, 0);
    }
    let none = match (&x.lower_bound, &x.upper_bound) {
        (None, None) => true,
        _ => false,
    };
    if none {
        piece_after("\\sum ", v, Grouping::Grouped)
    } else {
        let mut r = String::from_str("\\sum");
        let l = crate::display::lower_string(&x.lower_bound);
        r.append(l.as_str());
        let u = crate::display::upper_string(&x.upper_bound);
        r.append(u.as_str());
        let c = child_latex(v, 0);
        r.append(c.as_str());
        r
    }
}

fn int_latex(x: &Int, v: &Vec<MathExpressionTree>) -> (r: String)
    requires
        latex_ok(TreeView::Cons(Operator::Int(*x)@, view_trees(v@))),
    ensures
        r@ == latex_tree(TreeView::Cons(Operator::Int(*x)@, view_trees(v@))),
    decreases v, 4nat,
{
    proof {
        lemma_latex_trees_ok(view_trees(v@), 1, 0);
    }
    assert(latex_op_ok(Operator::Int(*x)@));
    match (&x.lower_limit, &x.upper_limit) {
        (Some(low), Some(up)) => {
            let a = expr_latex(low);
            let mut r = wrap("\\int_{", &a, "}^{");
            let b = expr_latex(up);
            r.append(b.as_str());
            r.append("}");
            let c = child_latex(v, 0);
            r.append(c.as_str());
            r.append(" d");
            let w = x.integration_variable.to_string();
            r.append(w.as_str());
            r
        },
        (None, None) => piece_after("\\int ", v, Grouping::Grouped),
        _ => {
            let mut r = String::from_str("\\int");
            let l = crate::display::lower_string(&x.lower_limit);
            r.append(l.as_str());
            let u = crate::display::upper_string(&x.upper_limit);
            r.append(u.as_str());
            let c = child_latex(v, 0);
            r.append(c.as_str());
            r
        },
    }
}

fn tree_latex(t: &MathExpressionTree) -> (r: String)
    requires
        latex_ok(t@),
    ensures
        r@ == latex_tree(t@),
    decreases t, 0nat,
{
    match t {
        MathExpressionTree::Atom(e) => expr_latex(e),
        MathExpressionTree::Cons(o, v) => {
            let ghost vs = view_trees(v@);
            assert(t@ == TreeView::Cons(o@, vs));
            assert(vs.len() == v@.len());
            assert(latex_trees_ok(vs, latex_operands(o@, vs.len())));
            proof {
                if latex_operands(o@, vs.len()) >= 1 {
                    lemma_latex_trees_ok(vs, latex_operands(o@, vs.len()), 0);
                }
                if latex_operands(o@, vs.len()) >= 2 {
                    lemma_latex_trees_ok(vs, latex_operands(o@, vs.len()), 1);
                }
            }
            match o {
                Operator::Add => joined_latex(v, Grouping::Plain, "+"),
                Operator::Subtract => {
                    if v.len() == 1 {
                        piece_after("-", v, Grouping::Grouped)
                    } else {
                        joined_latex(v, Grouping::Grouped, "-")
                    }
                },
                Operator::Multiply => joined_latex(v, Grouping::Factor, "*"),
                Operator::Equals => {
                    assert(latex_ok(vs[0]) && latex_ok(vs[1]));
                    let mut r = child_latex(v, 0);
                    r.append("=");
                    let y = child_latex(v, 1);
                    r.append(y.as_str());
                    r
                },
                Operator::Divide => {
                    assert(latex_ok(vs[0]) && latex_ok(vs[1]));
                    let mut r = around("\\frac{", v, "}{");
                    let y = child_latex(v, 1);
                    r.append(y.as_str());
                    r.append("}");
                    r
                },
                Operator::Exp => around("\\mathrm{exp}{", v, "}"),
                Operator::Sqrt => around("\\sqrt{", v, "}"),
                Operator::Lparen => after("(", v),
                Operator::Rparen => after(")", v),
                Operator::Compose => {
                    assert(latex_ok(vs[0]) && latex_ok(vs[1]));
                    between(v, "_")
                },
                Operator::Factorial => {
                    let mut r = child_piece(v, 0, Grouping::Glued);
                    r.append("!");
                    r
                },
                Operator::Power => {
                    assert(latex_ok(vs[0]) && latex_ok(vs[1]));
                    let mut r = child_piece(v, 0, Grouping::Glued);
                    r.append("^{");
                    let y = child_latex(v, 1);
                    r.append(y.as_str());
                    r.append("}");
                    r
                },
                Operator::Gradient(g) => match &g.subscript {
                    Some(s) => {
                        assert(latex_op_ok(o@));
                        let x = expr_latex(s);
                        let mut r = wrap("\\nabla_{", &x, "}{");
                        let y = child_piece(v, 0, Grouping::Grouped);
                        r.append(y.as_str());
                        r.append("}");
                        r
                    },
                    None => around_piece("\\nabla{", v, Grouping::Grouped, "}"),
                },
                Operator::Dot => {
                    assert(latex_ok(vs[0]) && latex_ok(vs[1]));
                    between(v, " \\cdot ")
                },
                Operator::Cross => {
                    assert(latex_ok(vs[0]) && latex_ok(vs[1]));
                    between(v, " \\cross ")
                },
                Operator::Div => around_piece("\\nabla \\cdot {", v, Grouping::Glued, "}"),
                Operator::Abs => around("\\left|", v, "\\right|"),
                Operator::Derivative(d) => derivative_latex(d, v),
                Operator::Sin => around("\\sin(", v, ")"),
                Operator::Cos => around("\\cos(", v, ")"),
                Operator::Tan => around("\\tan(", v, ")"),
                Operator::Sec => around("\\sec(", v, ")"),
                Operator::Csc => around("\\csc(", v, ")"),
                Operator::Cot => around("\\cot(", v, ")"),
                Operator::Arcsin => around("\\arcsin(", v, ")"),
                Operator::Arccos => around("\\arccos(", v, ")"),
                Operator::Arctan => around("\\arctan(", v, ")"),
                Operator::Arcsec => around("\\arcsec(", v, ")"),
                Operator::Arccsc => around("\\arccsc(", v, ")"),
                Operator::Arccot => around("\\arccot(", v, ")"),
                Operator::Mean => around("\\langle ", v, " \\rangle"),
                Operator::Hat(h) => {
                    assert(latex_op_ok(o@));
                    let mut r = child_piece(v, 0, Grouping::Glued);
                    r.append("\\hat{");
                    let x = expr_latex(&h.comp);
                    r.append(x.as_str());
                    r.append("}");
                    r
                },
                Operator::Summation(x) => summation_latex(x, v),
                Operator::Int(x) => int_latex(x, v),
                Operator::Laplacian => after("\\nabla^2 ", v),
                Operator::SurfaceInt => after("\\oiint_S ", v),
                Operator::Min => {
                    if v.len() == 0 {
                        String::from_str("\\min \\{\\}")
                    } else {
                        let x = joined_latex(v, Grouping::Plain, ",");
                        wrap("\\min \\{ ", &x, "\\}")
                    }
                },
                Operator::Logarithm(l) => match &l.notation {
                    LogarithmNotation::Ln => after("\\ln ", v),
                    LogarithmNotation::Log => after("\\log ", v),
                    LogarithmNotation::LogBase(b) => {
                        let x = b.to_string();
                        let mut r = wrap("\\log_{", &x, "}");
                        let y = child_latex(v, 0);
                        r.append(y.as_str());
                        r
                    },
                },
                Operator::Comma => {
                    assert(latex_ok(vs[0]) && latex_ok(vs[1]));
                    between(v, ",")
                },
                Operator::Vector => String::from_str("Contain unsupported operators."),
                Operator::Other(_) => String::from_str("Contain unsupported operators."),
            }
        },
    }
}

/// Adds the LaTeX of a leaf to a text.
pub fn process_math_expression(expr: &MathExpression, expression: &mut String)
    requires
        latex_expr_ok(expr@),
    ensures
        final(expression)@ == old(expression)@ + latex_expr(expr@),
{
    let s = expr_latex(expr);
    expression.append(s.as_str());
}

/// Adds the LaTeX of an operand of a sum, a difference or a derivative to a text: in
/// brackets, unless it is a leaf, a product, a quotient or a unary operator.
pub fn process_expression_parentheses(expression: &mut String, met: &MathExpressionTree)
    requires
        latex_ok(met@),
    ensures
        final(expression)@ == old(expression)@ + latex_piece(met@, Grouping::Grouped),
{
    let s = piece_latex(met, Grouping::Grouped);
    expression.append(s.as_str());
}

/// Adds the LaTeX of an operand that is glued to its operator to a text: in brackets,
/// unless it is a leaf or a unary operator.
pub fn process_atoms_cons_parentheses(expression: &mut String, met: &MathExpressionTree)
    requires
        latex_ok(met@),
    ensures
        final(expression)@ == old(expression)@ + latex_piece(met@, Grouping::Glued),
{
    let s = piece_latex(met, Grouping::Glued);
    expression.append(s.as_str());
}

impl MathExpressionTree {
    /// LaTeX source for the tree. An operator that has no LaTeX form gives a fixed sentence
    /// in the place of its subtree.
    pub fn to_latex(&self) -> (r: String)
        requires
            latex_ok(self@),
        ensures
            r@ == latex_tree(self@),
    {
        tree_latex(self)
    }
}

// ------------------------------------------------------------------ asking first

fn args_have_latex(v: &Vec<Ci>) -> (r: bool)
    ensures
        r == latex_args_ok(view_cis(v@), v@.len()),
    decreases v,
{
    let mut ok = true;
    let mut i: usize = 0;
    assert(view_cis(v@).len() == v@.len());
    while i < v.len()
        invariant
            i <= v.len(),
            view_cis(v@).len() == v@.len(),
            ok == latex_args_ok(view_cis(v@), i as nat),
        decreases v.len() - i,
    {
        assert(*view_cis(v@)[i as int].content == view_expr(*v@[i as int].content));
        let here = expr_has_latex(&v[i].content);
        ok = ok && here;
        i += 1;
    }
    ok
}

fn exprs_have_latex(v: &Vec<MathExpression>) -> (r: bool)
    ensures
        r == latex_exprs_ok(view_exprs(v@), v@.len()),
    decreases v,
{
    let mut ok = true;
    let mut i: usize = 0;
    assert(view_exprs(v@).len() == v@.len());
    while i < v.len()
        invariant
            i <= v.len(),
            view_exprs(v@).len() == v@.len(),
            ok == latex_exprs_ok(view_exprs(v@), i as nat),
        decreases v.len() - i,
    {
        let here = expr_has_latex(&v[i]);
        ok = ok && here;
        i += 1;
    }
    ok
}

fn ci_has_latex(c: &Ci) -> (r: bool)
    ensures
        r == latex_expr_ok(ExprView::Ci(c@)),
    decreases c,
{
    assert(*view_ci(*c).content == view_expr(*c.content));
    let content = expr_has_latex(&c.content);
    match &c.func_of {
        Some(v) => {
            assert(view_ci(*c).func_of == Some(view_cis(v@)));
            assert(view_cis(v@).len() == v@.len());
            if v.len() > 0 {
                assert(*view_cis(v@)[0].content == view_expr(*v@[0].content));
                let first = v[0].content.to_string();
                if !first.as_str().is_empty() {
                    let args = args_have_latex(v);
                    content && args
                } else {
                    content
                }
            } else {
                content
            }
        },
        None => {
            assert(view_ci(*c).func_of is None);
            content
        },
    }
}

fn expr_has_latex(e: &MathExpression) -> (r: bool)
    ensures
        r == latex_expr_ok(e@),
    decreases e,
{
    match e {
        MathExpression::Ci(c) => ci_has_latex(c),
        MathExpression::Mi(_) => true,
        MathExpression::Mn(_) => true,
        MathExpression::Mtext(_) => true,
        MathExpression::Mspace(_) => true,
        MathExpression::Msqrt(a) => expr_has_latex(a),
        MathExpression::Mfrac(a, b) => {
            let x = expr_has_latex(a);
            let y = expr_has_latex(b);
            x && y
        },
        MathExpression::Msup(a, b) => {
            let x = expr_has_latex(a);
            let y = expr_has_latex(b);
            x && y
        },
        MathExpression::Msub(a, b) => {
            let x = expr_has_latex(a);
            let y = expr_has_latex(b);
            x && y
        },
        MathExpression::Msubsup(a, b, c) => {
            let x = expr_has_latex(a);
            let y = expr_has_latex(b);
            let z = expr_has_latex(c);
            x && y && z
        },
        MathExpression::Munder(a, b) => {
            let x = expr_has_latex(a);
            let y = expr_has_latex(b);
            x && y
        },
        MathExpression::Mover(a, b) => {
            let x = expr_has_latex(a);
            let y = expr_has_latex(b);
            x && y
        },
        MathExpression::AbsoluteSup(a, b) => {
            let x = expr_has_latex(a);
            let y = expr_has_latex(b);
            x && y
        },
        MathExpression::Mrow(v) => {
            assert(view_exprs(v@).len() == v@.len());
            exprs_have_latex(v)
        },
        MathExpression::DownArrow(d) => expr_has_latex(&d.comp),
        MathExpression::SurfaceIntegral(a) => expr_has_latex(a),
        MathExpression::Mo(o) => match o {
            Operator::Hat(h) => {
                assert(view_op(*o) == (OpView::Hat { comp: Box::new(view_expr(*h.comp)) }));
                expr_has_latex(&h.comp)
            },
            Operator::Other(s) => {
                assert(view_op(*o) == OpView::Other(s@));
                true
            },
            _ => {
                assert(!(view_op(*o) is Hat) && !(view_op(*o) is Other));
                false
            },
        },
        _ => false,
    }
}

fn op_has_latex(o: &Operator) -> (r: bool)
    ensures
        r == latex_op_ok(o@),
{
    match o {
        Operator::Gradient(g) => match &g.subscript {
            Some(s) => expr_has_latex(s),
            None => true,
        },
        Operator::Derivative(d) => {
            assert(*view_ci(d.bound_var).content == view_expr(*d.bound_var.content));
            let written = match d.notation {
                DerivativeNotation::LeibnizTotal => true,
                DerivativeNotation::DNotation => true,
                DerivativeNotation::LeibnizPartialCompact => true,
                DerivativeNotation::LeibnizPartialStandard => d.order == 1 || d.order == 2,
                DerivativeNotation::Newton => d.order == 1,
                DerivativeNotation::Lagrange => d.order == 1,
            };
            if written {
                expr_has_latex(&d.bound_var.content)
            } else {
                true
            }
        },
        Operator::Hat(h) => expr_has_latex(&h.comp),
        Operator::Int(x) => match (&x.lower_limit, &x.upper_limit) {
            (Some(l), Some(u)) => {
                let a = expr_has_latex(l);
                let b = expr_has_latex(u);
                a && b
            },
            _ => true,
        },
        _ => true,
    }
}

fn operands_written(o: &Operator, len: usize) -> (r: usize)
    ensures
        r == latex_operands(o@, len as nat),
{
    match o {
        Operator::Add | Operator::Subtract | Operator::Multiply | Operator::Min => len,
        Operator::Equals
        | Operator::Divide
        | Operator::Compose
        | Operator::Power
        | Operator::Dot
        | Operator::Cross
        | Operator::Comma => 2,
        Operator::Vector | Operator::Other(_) => 0,
        Operator::Derivative(d) => match d.notation {
            DerivativeNotation::LeibnizTotal => 1,
            DerivativeNotation::DNotation => 1,
            DerivativeNotation::LeibnizPartialStandard => if d.order == 1 || d.order == 2 {
                1
            } else {
                0
            },
            _ => 0,
        },
        _ => 1,
    }
}

fn trees_have_latex(v: &Vec<MathExpressionTree>, n: usize) -> (r: bool)
    ensures
        r == latex_trees_ok(view_trees(v@), n as nat),
    decreases v,
{
    assert(view_trees(v@).len() == v@.len());
    if n > v.len() {
        return false;
    }
    let mut ok = true;
    let mut i: usize = 0;
    while i < n
        invariant
            i <= n <= v.len(),
            view_trees(v@).len() == v@.len(),
            ok == latex_trees_ok(view_trees(v@), i as nat),
        decreases n - i,
    {
        let here = tree_has_latex(&v[i]);
        ok = ok && here;
        i += 1;
    }
    ok
}

fn tree_has_latex(t: &MathExpressionTree) -> (r: bool)
    ensures
        r == latex_ok(t@),
    decreases t,
{
    match t {
        MathExpressionTree::Atom(e) => expr_has_latex(e),
        MathExpressionTree::Cons(o, v) => {
            assert(view_trees(v@).len() == v@.len());
            let parts = op_has_latex(o);
            let below = trees_have_latex(v, operands_written(o, v.len()));
            parts && below
        },
    }
}

impl MathExpressionTree {
    /// Whether LaTeX is defined for the tree.
    pub fn has_latex(&self) -> (r: bool)
        ensures
            r == latex_ok(self@),
    {
        tree_has_latex(self)
    }
}

} // verus!
