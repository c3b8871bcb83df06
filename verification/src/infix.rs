//! The short infix form of a tree.
use crate::ast::{view_ci, view_expr, ExprView, MathExpression, OpView, Operator};
use crate::display::display_expr;
use crate::tree::{view_trees, MathExpressionTree, TreeView};
use vstd::prelude::*;

verus! {

/// The sign that stands between the operands; nothing for an operator that has none here.
pub open spec fn infix_symbol(o: OpView) -> Seq<char> {
    match o {
        OpView::Add => "+"@,
        OpView::Subtract => "-"@,
        OpView::Multiply => "*"@,
        OpView::Equals => "="@,
        OpView::Divide => "/"@,
        OpView::Exp => "exp"@,
        _ => Seq::empty(),
    }
}

/// The first `n` operands, with the sign between them.
pub open spec fn infix_joined(v: Seq<TreeView>, n: nat, sep: Seq<char>) -> Seq<char>
    decreases v, n,
{
    if n == 0 || n > v.len() {
        Seq::empty()
    } else if n == 1 {
        infix_tree(v[0])
    } else {
        infix_joined(v, (n - 1) as nat, sep) + sep + infix_tree(v[n - 1])
    }
}

/// The infix form of a tree: every operator with its operands in brackets.
pub open spec fn infix_tree(t: TreeView) -> Seq<char>
    decreases t, 0nat,
{
    match t {
        TreeView::Atom(e) => match e {
            ExprView::Ci(c) => display_expr(*c.content),
            ExprView::Mi(s) => s,
            ExprView::Mn(s) => s,
            ExprView::Mtext(s) => s,
            _ => Seq::empty(),
        },
        TreeView::Cons(o, v) => "("@ + infix_joined(v, v.len(), infix_symbol(o)) + ")"@,
    }
}

/// Whether the infix form is defined for the first `n` trees of a list.
pub open spec fn infix_trees_ok(v: Seq<TreeView>, n: nat) -> bool
    decreases v, n,
{
    n == 0 || (n <= v.len() && infix_trees_ok(v, (n - 1) as nat) && infix_ok(v[n - 1]))
}

/// Whether the infix form is defined for a tree: every leaf is a name, a number or a text.
pub open spec fn infix_ok(t: TreeView) -> bool
    decreases t, 0nat,
{
    match t {
        TreeView::Atom(e) => e is Ci || e is Mi || e is Mn || e is Mtext,
        TreeView::Cons(o, v) => infix_trees_ok(v, v.len()),
    }
}

/// The infix form is defined for each of the first `n` trees where it is for all of them.
pub proof fn lemma_infix_trees_ok(v: Seq<TreeView>, n: nat, i: int)
    requires
        infix_trees_ok(v, n),
        0 <= i < n,
    ensures
        n <= v.len(),
        infix_ok(v[i]),
    decreases n,
{
    if i < n - 1 {
        lemma_infix_trees_ok(v, (n - 1) as nat, i);
    }
}

fn symbol(o: &Operator) -> (r: String)
    ensures
        r@ == infix_symbol(o@),
{
    match o {
        Operator::Add => String::from_str("+"),
        Operator::Subtract => String::from_str("-"),
        Operator::Multiply => String::from_str("*"),
        Operator::Equals => String::from_str("="),
        Operator::Divide => String::from_str("/"),
        Operator::Exp => String::from_str("exp"),
        _ => String::new(),
    }
}

fn joined_infix(v: &Vec<MathExpressionTree>, sep: &String) -> (r: String)
    requires
        infix_trees_ok(view_trees(v@), v@.len()),
    ensures
        r@ == infix_joined(view_trees(v@), v@.len(), sep@),
    decreases v,
{
    if v.len() == 0 {
        return String::new();
    }
    proof {
        lemma_infix_trees_ok(view_trees(v@), v@.len(), 0);
    }
    let mut r = tree_infix(&v[0]);
    let mut i: usize = 1;
    while i < v.len()
        invariant
            1 <= i <= v.len(),
            r@ == infix_joined(view_trees(v@), i as nat, sep@),
            infix_trees_ok(view_trees(v@), v@.len()),
        decreases v.len() - i,
    {
        proof {
            lemma_infix_trees_ok(view_trees(v@), v@.len(), i as int);
        }
        let s = tree_infix(&v[i]);
        r.append(sep.as_str());
        r.append(s.as_str());
        i += 1;
    }
    r
}

fn tree_infix(t: &MathExpressionTree) -> (r: String)
    requires
        infix_ok(t@),
    ensures
        r@ == infix_tree(t@),
    decreases t,
{
    match t {
        MathExpressionTree::Atom(e) => match e {
            MathExpression::Ci(c) => {
                assert(*view_ci(*c).content == view_expr(*c.content));
                c.to_string()
            },
            MathExpression::Mi(s) => s.clone(),
            MathExpression::Mn(s) => s.clone(),
            MathExpression::Mtext(s) => s.clone(),
            _ => String::new(),
        },
        MathExpressionTree::Cons(o, v) => {
            assert(view_trees(v@).len() == v@.len());
            let sep = symbol(o);
            let body = joined_infix(v, &sep);
            let mut r = String::from_str("(");
            r.append(body.as_str());
            r.append(")");
            r
        },
    }
}

impl MathExpressionTree {
    /// The infix form of the tree, for display.
    pub fn to_infix_expression(&self) -> (r: String)
        requires
            infix_ok(self@),
        ensures
            r@ == infix_tree(self@),
    {
        tree_infix(self)
    }
}

fn trees_have_infix(v: &Vec<MathExpressionTree>) -> (r: bool)
    ensures
        r == infix_trees_ok(view_trees(v@), v@.len()),
    decreases v,
{
    let mut ok = true;
    let mut i: usize = 0;
    assert(view_trees(v@).len() == v@.len());
    while i < v.len()
        invariant
            i <= v.len(),
            view_trees(v@).len() == v@.len(),
            ok == infix_trees_ok(view_trees(v@), i as nat),
        decreases v.len() - i,
    {
        let here = tree_has_infix(&v[i]);
        ok = ok && here;
        i += 1;
    }
    ok
}

fn tree_has_infix(t: &MathExpressionTree) -> (r: bool)
    ensures
        r == infix_ok(t@),
    decreases t,
{
    match t {
        MathExpressionTree::Atom(e) => match e {
            MathExpression::Ci(_) => true,
            MathExpression::Mi(_) => true,
            MathExpression::Mn(_) => true,
            MathExpression::Mtext(_) => true,
            _ => false,
        },
        MathExpressionTree::Cons(_, v) => {
            assert(view_trees(v@).len() == v@.len());
            trees_have_infix(v)
        },
    }
}

impl MathExpressionTree {
    /// Whether the infix form is defined for the tree.
    pub fn has_infix(&self) -> (r: bool)
        ensures
            r == infix_ok(self@),
    {
        tree_has_infix(self)
    }
}

} // verus!
