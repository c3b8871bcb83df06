//! The compact, fully parenthesised prefix form of a tree, and the text of its leaves.
use crate::ast::{
    view_ci, view_expr, view_exprs, view_opt, Ci, DerivativeNotation, ExprView, LogView, LogarithmNotation, MathExpression,
    OpView, Operator,
};
use crate::tree::{view_trees, MathExpressionTree, TreeView};
use vstd::prelude::*;

verus! {

/// A digit of base ten.
pub open spec fn digit(d: nat) -> Seq<char> {
    if d == 0 {
        "0"@
    } else if d == 1 {
        "1"@
    } else if d == 2 {
        "2"@
    } else if d == 3 {
        "3"@
    } else if d == 4 {
        "4"@
    } else if d == 5 {
        "5"@
    } else if d == 6 {
        "6"@
    } else if d == 7 {
        "7"@
    } else if d == 8 {
        "8"@
    } else {
        "9"@
    }
}

/// A number in decimal digits.
pub open spec fn decimal(n: nat) -> Seq<char>
    decreases n,
{
    if n < 10 {
        digit(n)
    } else {
        decimal(n / 10) + digit(n % 10)
    }
}

/// A bound below, written only where there is one.
pub open spec fn display_lower(lower: Option<Box<ExprView>>) -> Seq<char>
    decreases lower, 0nat,
{
    match lower {
        Some(l) => "_{"@ + display_expr(*l) + "}"@,
        None => Seq::empty(),
    }
}

/// A bound above, written only where there is one.
pub open spec fn display_upper(upper: Option<Box<ExprView>>) -> Seq<char>
    decreases upper, 0nat,
{
    match upper {
        Some(u) => "^{"@ + display_expr(*u) + "}"@,
        None => Seq::empty(),
    }
}

/// The text of an operator.
pub open spec fn display_op(o: OpView) -> Seq<char>
    decreases o, 0nat,
{
    match o {
        OpView::Add => "+"@,
        OpView::Multiply => "*"@,
        OpView::Equals => "="@,
        OpView::Divide => "/"@,
        OpView::Subtract => "-"@,
        OpView::Sqrt => "\u{221a}"@,
        OpView::Lparen => "("@,
        OpView::Rparen => ")"@,
        OpView::Compose => "."@,
        OpView::Comma => ","@,
        OpView::Factorial => "!"@,
        OpView::Derivative { order, var_index, bound_var, notation } => match notation {
            DerivativeNotation::LeibnizPartialStandard => "PD("@ + decimal(order as nat) + ", "@ + display_expr(
                *bound_var.content,
            ) + ")"@,
            DerivativeNotation::LeibnizPartialCompact => "\u{2202}_{"@ + display_expr(*bound_var.content) + "})"@,
            _ => "D("@ + decimal(order as nat) + ", "@ + display_expr(*bound_var.content) + ")"@,
        },
        OpView::Sin => "Sin"@,
        OpView::Cos => "Cos"@,
        OpView::Tan => "Tan"@,
        OpView::Sec => "Sec"@,
        OpView::Csc => "Csc"@,
        OpView::Cot => "Cot"@,
        OpView::Arcsin => "Arcsin"@,
        OpView::Arccos => "Arccos"@,
        OpView::Arctan => "Arctan"@,
        OpView::Arcsec => "Arcsec"@,
        OpView::Arccsc => "Arccsc"@,
        OpView::Arccot => "Arccot"@,
        OpView::Exp => "exp"@,
        OpView::Power => "^"@,
        OpView::Gradient { subscript } => match subscript {
            Some(s) => "Grad_"@ + display_expr(*s),
            None => "Grad"@,
        },
        OpView::Dot => "\u{22c5}"@,
        OpView::Div => "Div"@,
        OpView::Abs => "Abs"@,
        OpView::Summation { lower, upper } => "Sum"@ + display_lower(lower) + display_upper(upper),
        OpView::Int { lower, upper, variable } => "Int"@ + display_lower(lower) + display_upper(upper) + "("@ + display_expr(
            *variable,
        ) + ")"@,
        OpView::Cross => "\u{d7}"@,
        OpView::Hat { comp } => "Hat("@ + display_expr(*comp) + ")"@,
        OpView::Mean => "Mean"@,
        OpView::Vector => "Vec"@,
        OpView::Laplacian => "Laplacian"@,
        OpView::SurfaceInt => "SurfaceInt"@,
        OpView::Min => "Min"@,
        OpView::Logarithm(l) => match l {
            LogView::Ln => "Ln"@,
            LogView::Log => "Log"@,
            LogView::LogBase(b) => "Log_{"@ + display_expr(*b) + "}"@,
        },
        OpView::Other(s) => s,
    }
}

/// The texts of the first `n` nodes of a list, one after the other.
pub open spec fn display_exprs(v: Seq<ExprView>, n: nat) -> Seq<char>
    decreases v, n,
{
    if n == 0 || n > v.len() {
        Seq::empty()
    } else {
        display_exprs(v, (n - 1) as nat) + display_expr(v[n - 1])
    }
}

/// The text of a node of the layout tree.
pub open spec fn display_expr(e: ExprView) -> Seq<char>
    decreases e, 0nat,
{
    match e {
        ExprView::Mi(s) => s,
        ExprView::Mo(o) => display_op(o),
        ExprView::Mn(s) => s,
        ExprView::Msqrt(a) => display_expr(*a),
        ExprView::Mrow(v) => display_exprs(v, v.len()),
        ExprView::Mfrac(a, b) => display_expr(*a) + "/"@ + display_expr(*b),
        ExprView::Msup(a, b) => display_expr(*a) + "^{"@ + display_expr(*b) + "}"@,
        ExprView::Msub(a, b) => display_expr(*a) + "_{"@ + display_expr(*b) + "}"@,
        ExprView::Munder(a, b) => display_expr(*a) + "_{"@ + display_expr(*b) + "}"@,
        ExprView::Mover(a, b) => display_expr(*a) + "^{"@ + display_expr(*b) + "}"@,
        ExprView::Msubsup(a, b, c) => display_expr(*a) + "_{"@ + display_expr(*b) + "}^{"@ + display_expr(*c)
            + "}"@,
        ExprView::Munderover(a, b, c) => display_expr(*a) + "_{"@ + display_expr(*b) + "}^{"@ + display_expr(
            *c,
        ) + "}"@,
        ExprView::Mtext(s) => s,
        ExprView::Mspace(s) => s,
        ExprView::Ci(c) => display_expr(*c.content),
        ExprView::Differential { diff, func } => display_expr(*diff) + display_expr(*func),
        ExprView::SummationMath { op, func } => display_expr(*op) + display_expr(*func),
        ExprView::AbsoluteSup(a, b) => "|"@ + display_expr(*a) + "|^{"@ + display_expr(*b) + "}"@,
        ExprView::Absolute(a, b) => "|"@ + display_expr(*b) + "|"@,
        ExprView::HatComp { op, comp } => display_expr(*op) + display_expr(*comp),
        ExprView::Integral { op, integrand, variable } => display_expr(*op) + display_expr(*integrand)
            + display_expr(*variable),
        ExprView::LaplacianComp { op, name } => display_expr(*op) + "("@ + display_expr(*name.content) + ")"@,
        ExprView::SurfaceIntegral(a) => display_expr(*a),
        ExprView::DownArrow { sub, sup, comp } => display_expr(*comp) + "^\\downarrow"@ + display_lower(sub)
            + display_upper(sup),
        ExprView::Minimize(a, v) => display_expr(*a) + display_exprs(v, v.len()),
        ExprView::ExpMath { op, func } => display_expr(*op) + display_expr(*func),
    }
}

/// The first `n` children of an operator, each after a space.
pub open spec fn display_trees(v: Seq<TreeView>, n: nat) -> Seq<char>
    decreases v, n,
{
    if n == 0 || n > v.len() {
        Seq::empty()
    } else {
        display_trees(v, (n - 1) as nat) + " "@ + display_tree(v[n - 1])
    }
}

/// The prefix form of a tree: a leaf by its text, an operator with its children in brackets.
pub open spec fn display_tree(t: TreeView) -> Seq<char>
    decreases t, 0nat,
{
    match t {
        TreeView::Atom(e) => display_expr(e),
        TreeView::Cons(o, v) => "("@ + display_op(o) + display_trees(v, v.len()) + ")"@,
    }
}

fn digit_str(d: u8) -> (r: &'static str)
    requires
        d < 10,
    ensures
        r@ == digit(d as nat),
{
    if d == 0 {
        "0"
    } else if d == 1 {
        "1"
    } else if d == 2 {
        "2"
    } else if d == 3 {
        "3"
    } else if d == 4 {
        "4"
    } else if d == 5 {
        "5"
    } else if d == 6 {
        "6"
    } else if d == 7 {
        "7"
    } else if d == 8 {
        "8"
    } else {
        "9"
    }
}

/// Writes a small number in decimal digits.
pub fn decimal_string(n: u8) -> (r: String)
    ensures
        r@ == decimal(n as nat),
{
    if n < 10 {
        String::from_str(digit_str(n))
    } else if n < 100 {
        let mut r = String::from_str(digit_str(n / 10));
        r.append(digit_str(n % 10));
        assert(decimal(n as nat) == decimal((n / 10) as nat) + digit((n % 10) as nat));
        r
    } else {
        let h: u8 = n / 100;
        let t: u8 = (n / 10) % 10;
        let mut r = String::from_str(digit_str(h));
        r.append(digit_str(t));
        r.append(digit_str(n % 10));
        assert(decimal((n / 10) as nat) == decimal(h as nat) + digit(t as nat)) by {
            assert((n / 10) / 10 == h);
        }
        assert(decimal(n as nat) == decimal((n / 10) as nat) + digit((n % 10) as nat));
        r
    }
}

pub(crate) fn lower_string(o: &Option<Box<MathExpression>>) -> (r: String)
    ensures
        r@ == display_lower(view_opt(*o)),
    decreases o,
{
    match o {
        Some(l) => {
            let mut r = String::from_str("_{");
            let s = expr_string(l);
            r.append(s.as_str());
            r.append("}");
            r
        },
        None => String::new(),
    }
}

pub(crate) fn upper_string(o: &Option<Box<MathExpression>>) -> (r: String)
    ensures
        r@ == display_upper(view_opt(*o)),
    decreases o,
{
    match o {
        Some(u) => {
            let mut r = String::from_str("^{");
            let s = expr_string(u);
            r.append(s.as_str());
            r.append("}");
            r
        },
        None => String::new(),
    }
}

fn op_string(o: &Operator) -> (r: String)
    ensures
        r@ == display_op(o@),
    decreases o,
{
    match o {
        Operator::Add => String::from_str("+"),
        Operator::Multiply => String::from_str("*"),
        Operator::Equals => String::from_str("="),
        Operator::Divide => String::from_str("/"),
        Operator::Subtract => String::from_str("-"),
        Operator::Sqrt => String::from_str("\u{221a}"),
        Operator::Lparen => String::from_str("("),
        Operator::Rparen => String::from_str(")"),
        Operator::Compose => String::from_str("."),
        Operator::Comma => String::from_str(","),
        Operator::Factorial => String::from_str("!"),
        Operator::Derivative(d) => {
            let v = expr_string(&d.bound_var.content);
            match d.notation {
                DerivativeNotation::LeibnizPartialStandard => {
                    let mut r = String::from_str("PD(");
                    let n = decimal_string(d.order);
                    r.append(n.as_str());
                    r.append(", ");
                    r.append(v.as_str());
                    r.append(")");
                    r
                },
                DerivativeNotation::LeibnizPartialCompact => {
                    let mut r = String::from_str("\u{2202}_{");
                    r.append(v.as_str());
                    r.append("})");
                    r
                },
                _ => {
                    let mut r = String::from_str("D(");
                    let n = decimal_string(d.order);
                    r.append(n.as_str());
                    r.append(", ");
                    r.append(v.as_str());
                    r.append(")");
                    r
                },
            }
        },
        Operator::Sin => String::from_str("Sin"),
        Operator::Cos => String::from_str("Cos"),
        Operator::Tan => String::from_str("Tan"),
        Operator::Sec => String::from_str("Sec"),
        Operator::Csc => String::from_str("Csc"),
        Operator::Cot => String::from_str("Cot"),
        Operator::Arcsin => String::from_str("Arcsin"),
        Operator::Arccos => String::from_str("Arccos"),
        Operator::Arctan => String::from_str("Arctan"),
        Operator::Arcsec => String::from_str("Arcsec"),
        Operator::Arccsc => String::from_str("Arccsc"),
        Operator::Arccot => String::from_str("Arccot"),
        Operator::Exp => String::from_str("exp"),
        Operator::Power => String::from_str("^"),
        Operator::Gradient(g) => match &g.subscript {
            Some(s) => {
                let mut r = String::from_str("Grad_");
                let t = expr_string(s);
                r.append(t.as_str());
                r
            },
            None => String::from_str("Grad"),
        },
        Operator::Dot => String::from_str("\u{22c5}"),
        Operator::Div => String::from_str("Div"),
        Operator::Abs => String::from_str("Abs"),
        Operator::Summation(s) => {
            let mut r = String::from_str("Sum");
            let l = lower_string(&s.lower_bound);
            r.append(l.as_str());
            let u = upper_string(&s.upper_bound);
            r.append(u.as_str());
            r
        },
        Operator::Int(x) => {
            let mut r = String::from_str("Int");
            let l = lower_string(&x.lower_limit);
            r.append(l.as_str());
            let u = upper_string(&x.upper_limit);
            r.append(u.as_str());
            r.append("(");
            let v = expr_string(&x.integration_variable);
            r.append(v.as_str());
            r.append(")");
            r
        },
        Operator::Cross => String::from_str("\u{d7}"),
        Operator::Hat(h) => {
            let mut r = String::from_str("Hat(");
            let c = expr_string(&h.comp);
            r.append(c.as_str());
            r.append(")");
            r
        },
        Operator::Mean => String::from_str("Mean"),
        Operator::Vector => String::from_str("Vec"),
        Operator::Laplacian => String::from_str("Laplacian"),
        Operator::SurfaceInt => String::from_str("SurfaceInt"),
        Operator::Min => String::from_str("Min"),
        Operator::Logarithm(l) => match &l.notation {
            LogarithmNotation::Ln => String::from_str("Ln"),
            LogarithmNotation::Log => String::from_str("Log"),
            LogarithmNotation::LogBase(b) => {
                let mut r = String::from_str("Log_{");
                let t = expr_string(b);
                r.append(t.as_str());
                r.append("}");
                r
            },
        },
        Operator::Other(s) => s.clone(),
    }
}

fn exprs_string(v: &Vec<MathExpression>) -> (r: String)
    ensures
        r@ == display_exprs(view_exprs(v@), v@.len()),
    decreases v,
{
    let mut r = String::new();
    let mut i: usize = 0;
    while i < v.len()
        invariant
            i <= v.len(),
            r@ == display_exprs(view_exprs(v@), i as nat),
        decreases v.len() - i,
    {
        let s = expr_string(&v[i]);
        r.append(s.as_str());
        i += 1;
    }
    r
}

fn expr_string(e: &MathExpression) -> (r: String)
    ensures
        r@ == display_expr(e@),
    decreases e,
{
    match e {
        MathExpression::Mi(s) => s.clone(),
        MathExpression::Mo(o) => op_string(o),
        MathExpression::Mn(s) => s.clone(),
        MathExpression::Msqrt(a) => expr_string(a),
        MathExpression::Mrow(v) => exprs_string(v),
        MathExpression::Mfrac(a, b) => {
            let mut r = expr_string(a);
            r.append("/");
            let s = expr_string(b);
            r.append(s.as_str());
            r
        },
        MathExpression::Msup(a, b) => {
            let mut r = expr_string(a);
            r.append("^{");
            let s = expr_string(b);
            r.append(s.as_str());
            r.append("}");
            r
        },
        MathExpression::Mover(a, b) => {
            let mut r = expr_string(a);
            r.append("^{");
            let s = expr_string(b);
            r.append(s.as_str());
            r.append("}");
            r
        },
        MathExpression::Msub(a, b) => {
            let mut r = expr_string(a);
            r.append("_{");
            let s = expr_string(b);
            r.append(s.as_str());
            r.append("}");
            r
        },
        MathExpression::Munder(a, b) => {
            let mut r = expr_string(a);
            r.append("_{");
            let s = expr_string(b);
            r.append(s.as_str());
            r.append("}");
            r
        },
        MathExpression::Msubsup(a, b, c) => {
            let mut r = expr_string(a);
            r.append("_{");
            let s = expr_string(b);
            r.append(s.as_str());
            r.append("}^{");
            let t = expr_string(c);
            r.append(t.as_str());
            r.append("}");
            r
        },
        MathExpression::Munderover(a, b, c) => {
            let mut r = expr_string(a);
            r.append("_{");
            let s = expr_string(b);
            r.append(s.as_str());
            r.append("}^{");
            let t = expr_string(c);
            r.append(t.as_str());
            r.append("}");
            r
        },
        MathExpression::Mtext(s) => s.clone(),
        MathExpression::Mspace(s) => s.clone(),
        MathExpression::Ci(c) => {
            assert(*view_ci(*c).content == view_expr(*c.content));
            expr_string(&c.content)
        },
        MathExpression::Differential(d) => {
            let mut r = expr_string(&d.diff);
            let s = expr_string(&d.func);
            r.append(s.as_str());
            r
        },
        MathExpression::SummationMath(d) => {
            let mut r = expr_string(&d.op);
            let s = expr_string(&d.func);
            r.append(s.as_str());
            r
        },
        MathExpression::AbsoluteSup(a, b) => {
            let mut r = String::from_str("|");
            let s = expr_string(a);
            r.append(s.as_str());
            r.append("|^{");
            let t = expr_string(b);
            r.append(t.as_str());
            r.append("}");
            r
        },
        MathExpression::Absolute(_a, b) => {
            let mut r = String::from_str("|");
            let s = expr_string(b);
            r.append(s.as_str());
            r.append("|");
            r
        },
        MathExpression::HatComp(d) => {
            let mut r = expr_string(&d.op);
            let s = expr_string(&d.comp);
            r.append(s.as_str());
            r
        },
        MathExpression::Integral(d) => {
            let mut r = expr_string(&d.op);
            let s = expr_string(&d.integrand);
            r.append(s.as_str());
            let t = expr_string(&d.integration_variable);
            r.append(t.as_str());
            r
        },
        MathExpression::LaplacianComp(d) => {
            let mut r = expr_string(&d.op);
            r.append("(");
            let s = expr_string(&d.comp.content);
            r.append(s.as_str());
            r.append(")");
            assert(*view_ci(d.comp).content == view_expr(*d.comp.content));
            r
        },
        MathExpression::SurfaceIntegral(a) => expr_string(a),
        MathExpression::DownArrow(d) => {
            let mut r = expr_string(&d.comp);
            r.append("^\\downarrow");
            let l = lower_string(&d.sub);
            r.append(l.as_str());
            let u = upper_string(&d.sup);
            r.append(u.as_str());
            r
        },
        MathExpression::Minimize(a, v) => {
            let mut r = expr_string(a);
            let s = exprs_string(v);
            r.append(s.as_str());
            r
        },
        MathExpression::ExpMath(d) => {
            let mut r = expr_string(&d.op);
            let s = expr_string(&d.func);
            r.append(s.as_str());
            r
        },
    }
}

fn trees_string(v: &Vec<MathExpressionTree>) -> (r: String)
    ensures
        r@ == display_trees(view_trees(v@), v@.len()),
    decreases v,
{
    let mut r = String::new();
    let mut i: usize = 0;
    while i < v.len()
        invariant
            i <= v.len(),
            r@ == display_trees(view_trees(v@), i as nat),
        decreases v.len() - i,
    {
        let s = tree_string(&v[i]);
        r.append(" ");
        r.append(s.as_str());
        i += 1;
    }
    r
}

fn tree_string(t: &MathExpressionTree) -> (r: String)
    ensures
        r@ == display_tree(t@),
    decreases t,
{
    match t {
        MathExpressionTree::Atom(e) => expr_string(e),
        MathExpressionTree::Cons(o, v) => {
            let mut r = String::from_str("(");
            let h = op_string(o);
            r.append(h.as_str());
            let s = trees_string(v);
            r.append(s.as_str());
            r.append(")");
            r
        },
    }
}

impl Operator {
    /// The text of the operator in the prefix form.
    pub fn to_string(&self) -> (r: String)
        ensures
            r@ == display_op(self@),
    {
        op_string(self)
    }
}

impl MathExpression {
    /// The text of the node.
    pub fn to_string(&self) -> (r: String)
        ensures
            r@ == display_expr(self@),
    {
        expr_string(self)
    }
}

impl Ci {
    /// The text of the name.
    pub fn to_string(&self) -> (r: String)
        ensures
            r@ == display_expr(*self@.content),
    {
        expr_string(&self.content)
    }
}

impl MathExpressionTree {
    /// The fully parenthesised prefix form.
    pub fn to_string(&self) -> (r: String)
        ensures
            r@ == display_tree(self@),
    {
        tree_string(self)
    }
}

} // verus!
