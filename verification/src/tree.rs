//! The symbolic expression tree, and the tokens it is built from.
use crate::ast::{clone_expr, clone_op, ExprView, MathExpression, OpView, Operator};
use vstd::prelude::*;

verus! {

/// An expression: a leaf of the layout tree, or an operator applied to expressions.
#[derive(Debug, PartialEq, Eq, Hash)]
pub enum MathExpressionTree {
    Atom(MathExpression),
    Cons(Operator, Vec<MathExpressionTree>),
}

/// A token of the operator-precedence parser.
#[derive(Debug, PartialEq, Eq)]
pub enum Token {
    Atom(MathExpression),
    Op(Operator),
    Eof,
}

/// The model of a tree.
pub enum TreeView {
    Atom(ExprView),
    Cons(OpView, Seq<TreeView>),
}

/// The model of a token.
pub enum TokenView {
    Atom(ExprView),
    Op(OpView),
    Eof,
}

/// The models of the trees of a list.
pub open spec fn view_trees(v: Seq<MathExpressionTree>) -> Seq<TreeView>
    decreases v,
{
    Seq::new(
        v.len(),
        |i: int|
            if 0 <= i < v.len() {
                view_tree(v[i])
            } else {
                TreeView::Cons(OpView::Add, Seq::empty())
            },
    )
}

/// The model of a tree.
pub open spec fn view_tree(t: MathExpressionTree) -> TreeView
    decreases t,
{
    match t {
        MathExpressionTree::Atom(e) => TreeView::Atom(e@),
        MathExpressionTree::Cons(o, v) => TreeView::Cons(o@, view_trees(v@)),
    }
}

/// The model of a token.
pub open spec fn view_token(t: Token) -> TokenView {
    match t {
        Token::Atom(e) => TokenView::Atom(e@),
        Token::Op(o) => TokenView::Op(o@),
        Token::Eof => TokenView::Eof,
    }
}

/// The models of the tokens of a list.
pub open spec fn view_tokens(v: Seq<Token>) -> Seq<TokenView> {
    Seq::new(v.len(), |i: int| view_token(v[i]))
}

impl View for MathExpressionTree {
    type V = TreeView;

    open spec fn view(&self) -> TreeView {
        view_tree(*self)
    }
}

impl View for Token {
    type V = TokenView;

    open spec fn view(&self) -> TokenView {
        view_token(*self)
    }
}

/// A copy of a list of trees.
pub fn clone_trees(v: &Vec<MathExpressionTree>) -> (r: Vec<MathExpressionTree>)
    ensures
        view_trees(r@) == view_trees(v@),
    decreases v,
{
    let mut r: Vec<MathExpressionTree> = Vec::new();
    let mut i: usize = 0;
    while i < v.len()
        invariant
            i <= v.len(),
            r.len() == i,
            forall|j: int| 0 <= j < i ==> view_tree(#[trigger] r@[j]) == view_tree(v@[j]),
        decreases v.len() - i,
    {
        let c = clone_tree(&v[i]);
        r.push(c);
        i += 1;
    }
    assert(view_trees(r@) =~= view_trees(v@));
    r
}

/// A copy of a tree.
pub fn clone_tree(t: &MathExpressionTree) -> (r: MathExpressionTree)
    ensures
        view_tree(r) == view_tree(*t),
    decreases t,
{
    match t {
        MathExpressionTree::Atom(e) => MathExpressionTree::Atom(clone_expr(e)),
        MathExpressionTree::Cons(o, v) => MathExpressionTree::Cons(clone_op(o), clone_trees(v)),
    }
}

impl Clone for MathExpressionTree {
    fn clone(&self) -> (r: Self)
        ensures
            r@ == self@,
    {
        clone_tree(self)
    }
}

impl Clone for Token {
    fn clone(&self) -> (r: Self)
        ensures
            r@ == self@,
    {
        match self {
            Token::Atom(e) => Token::Atom(clone_expr(e)),
            Token::Op(o) => Token::Op(clone_op(o)),
            Token::Eof => Token::Eof,
        }
    }
}

} // verus!
