//! Content MathML for a tree.
use crate::ast::{view_ci, view_expr, DerivativeNotation, ExprView, MathExpression, OpView, Operator};
use crate::display::display_expr;
use crate::tree::{view_trees, MathExpressionTree, TreeView};
use vstd::prelude::*;

verus! {

/// The element that stands for an operator, with the variable it binds where it has one;
/// nothing for an operator that content MathML has no element for here.
pub open spec fn cmml_op(o: OpView) -> Seq<char> {
    match o {
        OpView::Add => "<plus/>"@,
        OpView::Subtract => "<minus/>"@,
        OpView::Multiply => "<times/>"@,
        OpView::Equals => "<eq/>"@,
        OpView::Divide => "<divide/>"@,
        OpView::Power => "<power/>"@,
        OpView::Exp => "<exp/>"@,
        OpView::Abs => "<abs/>"@,
        OpView::Gradient { subscript } => match subscript {
            Some(s) => "<grad/><bvar>"@ + display_expr(*s) + "</bar>"@,
            None => "<grad/>"@,
        },
        OpView::Div => "<divergence/>"@,
        OpView::Cos => "<cos/>"@,
        OpView::Sin => "<sin/>"@,
        OpView::Derivative { order, var_index, bound_var, notation } => if order == 1 && var_index == 1 {
            match notation {
                DerivativeNotation::LeibnizTotal => "<diff/><bvar>"@ + display_expr(*bound_var.content)
                    + "</bar>"@,
                DerivativeNotation::LeibnizPartialStandard => "<partialdiff/><bvar>"@ + display_expr(
                    *bound_var.content,
                ) + "</bar>"@,
                _ => Seq::empty(),
            }
        } else {
            Seq::empty()
        },
        _ => Seq::empty(),
    }
}

/// The first `n` trees of a list, one after the other.
pub open spec fn cmml_trees(v: Seq<TreeView>, n: nat) -> Seq<char>
    decreases v, n,
{
    if n == 0 || n > v.len() {
        Seq::empty()
    } else {
        cmml_trees(v, (n - 1) as nat) + cmml_tree(v[n - 1])
    }
}

/// Content MathML for a tree.
pub open spec fn cmml_tree(t: TreeView) -> Seq<char>
    decreases t, 0nat,
{
    match t {
        TreeView::Atom(e) => match e {
            ExprView::Ci(c) => "<ci>"@ + display_expr(*c.content) + "</ci>"@,
            ExprView::Mi(s) => "<ci>"@ + s + "</ci>"@,
            ExprView::Mn(s) => "<cn>"@ + s + "</cn>"@,
            _ => Seq::empty(),
        },
        TreeView::Cons(o, v) => "<apply>"@ + cmml_op(o) + cmml_trees(v, v.len()) + "</apply>"@,
    }
}

/// Whether content MathML is defined for the first `n` trees of a list.
pub open spec fn cmml_trees_ok(v: Seq<TreeView>, n: nat) -> bool
    decreases v, n,
{
    n == 0 || (n <= v.len() && cmml_trees_ok(v, (n - 1) as nat) && cmml_ok(v[n - 1]))
}

/// Whether content MathML is defined for a tree: every leaf is a name or a number.
pub open spec fn cmml_ok(t: TreeView) -> bool
    decreases t, 0nat,
{
    match t {
        TreeView::Atom(e) => e is Ci || e is Mi || e is Mn,
        TreeView::Cons(o, v) => cmml_trees_ok(v, v.len()),
    }
}

/// Content MathML is defined for each of the first `n` trees where it is for all of them.
pub proof fn lemma_cmml_trees_ok(v: Seq<TreeView>, n: nat, i: int)
    requires
        cmml_trees_ok(v, n),
        0 <= i < n,
    ensures
        n <= v.len(),
        cmml_ok(v[i]),
    decreases n,
{
    if i < n - 1 {
        lemma_cmml_trees_ok(v, (n - 1) as nat, i);
    }
}

fn wrap(open: &str, body: &String, close: &str) -> (r: String)
    ensures
        r@ == open@ + body@ + close@,
{
    let mut r = String::from_str(open);
    r.append(body.as_str());
    r.append(close);
    r
}

fn op_cmml(o: &Operator) -> (r: String)
    ensures
        r@ == cmml_op(o@),
{
    match o {
        Operator::Add => String::from_str("<plus/>"),
        Operator::Subtract => String::from_str("<minus/>"),
        Operator::Multiply => String::from_str("<times/>"),
        Operator::Equals => String::from_str("<eq/>"),
        Operator::Divide => String::from_str("<divide/>"),
        Operator::Power => String::from_str("<power/>"),
        Operator::Exp => String::from_str("<exp/>"),
        Operator::Abs => String::from_str("<abs/>"),
        Operator::Gradient(g) => match &g.subscript {
            Some(s) => {
                let d = s.to_string();
                wrap("<grad/><bvar>", &d, "</bar>")
            },
            None => String::from_str("<grad/>"),
        },
        Operator::Div => String::from_str("<divergence/>"),
        Operator::Cos => String::from_str("<cos/>"),
        Operator::Sin => String::from_str("<sin/>"),
        Operator::Derivative(d) => {
            assert(*view_ci(d.bound_var).content == view_expr(*d.bound_var.content));
            if d.order == 1 && d.var_index == 1 {
                match d.notation {
                    DerivativeNotation::LeibnizTotal => {
                        let b = d.bound_var.to_string();
                        wrap("<diff/><bvar>", &b, "</bar>")
                    },
                    DerivativeNotation::LeibnizPartialStandard => {
                        let b = d.bound_var.to_string();
                        wrap("<partialdiff/><bvar>", &b, "</bar>")
                    },
                    _ => String::new(),
                }
            } else {
                String::new()
            }
        },
        _ => String::new(),
    }
}

fn trees_cmml(v: &Vec<MathExpressionTree>) -> (r: String)
    requires
        cmml_trees_ok(view_trees(v@), v@.len()),
    ensures
        r@ == cmml_trees(view_trees(v@), v@.len()),
    decreases v,
{
    let mut r = String::new();
    let mut i: usize = 0;
    while i < v.len()
        invariant
            i <= v.len(),
            r@ == cmml_trees(view_trees(v@), i as nat),
            cmml_trees_ok(view_trees(v@), v@.len()),
        decreases v.len() - i,
    {
        proof {
            lemma_cmml_trees_ok(view_trees(v@), v@.len(), i as int);
        }
        let s = tree_cmml(&v[i]);
        r.append(s.as_str());
        i += 1;
    }
    r
}

fn tree_cmml(t: &MathExpressionTree) -> (r: String)
    requires
        cmml_ok(t@),
    ensures
        r@ == cmml_tree(t@),
    decreases t,
{
    match t {
        MathExpressionTree::Atom(e) => match e {
            MathExpression::Ci(c) => {
                assert(*view_ci(*c).content == view_expr(*c.content));
                let d = c.to_string();
                wrap("<ci>", &d, "</ci>")
            },
            MathExpression::Mi(s) => wrap("<ci>", s, "</ci>"),
            MathExpression::Mn(s) => wrap("<cn>", s, "</cn>"),
            _ => String::new(),
        },
        MathExpressionTree::Cons(o, v) => {
            assert(view_trees(v@).len() == v@.len());
            let mut r = String::from_str("<apply>");
            let h = op_cmml(o);
            r.append(h.as_str());
            let c = trees_cmml(v);
            r.append(c.as_str());
            r.append("</apply>");
            r
        },
    }
}

impl MathExpressionTree {
    /// Content MathML for the tree.
    pub fn to_cmml(&self) -> (r: String)
        requires
            cmml_ok(self@),
        ensures
            r@ == cmml_tree(self@),
    {
        tree_cmml(self)
    }
}

fn trees_have_cmml(v: &Vec<MathExpressionTree>) -> (r: bool)
    ensures
        r == cmml_trees_ok(view_trees(v@), v@.len()),
    decreases v,
{
    let mut ok = true;
    let mut i: usize = 0;
    assert(view_trees(v@).len() == v@.len());
    while i < v.len()
        invariant
            i <= v.len(),
            view_trees(v@).len() == v@.len(),
            ok == cmml_trees_ok(view_trees(v@), i as nat),
        decreases v.len() - i,
    {
        let here = tree_has_cmml(&v[i]);
        ok = ok && here;
        i += 1;
    }
    ok
}

fn tree_has_cmml(t: &MathExpressionTree) -> (r: bool)
    ensures
        r == cmml_ok(t@),
    decreases t,
{
    match t {
        MathExpressionTree::Atom(e) => match e {
            MathExpression::Ci(_) => true,
            MathExpression::Mi(_) => true,
            MathExpression::Mn(_) => true,
            _ => false,
        },
        MathExpressionTree::Cons(_, v) => {
            assert(view_trees(v@).len() == v@.len());
            trees_have_cmml(v)
        },
    }
}

impl MathExpressionTree {
    /// Whether content MathML is defined for the tree.
    pub fn has_cmml(&self) -> (r: bool)
        ensures
            r == cmml_ok(self@),
    {
        tree_has_cmml(self)
    }
}

} // verus!
