//! Ordinary differential equations of the first order.
use crate::ast::{
    clone_ci, clone_cis, clone_expr, view_ci, view_cis, view_expr, view_exprs, view_op, Ci, CiView,
    DerivativeNotation, ExprView, MathExpression, OpView, Operator,
};
use crate::cmml::{cmml_ok, cmml_tree};
use crate::display::display_expr;
use crate::interpret::plain_name;
use crate::nodes::{ci, ci_node, derivative_of};
use crate::pratt::{tree_of, try_expr};
use crate::translate::{interpreted_math, layout_of, TranslateError, TranslateErrorView};
use crate::tree::{clone_tree, view_trees, MathExpressionTree, TreeView};
use vstd::prelude::*;

verus! {

/// An equation `dx/dt = rhs`: the variable on the left, what it is a function of, the
/// variable of the derivative, and the right-hand side.
#[derive(Debug, PartialEq, Eq)]
pub struct FirstOrderODE {
    pub lhs_var: Ci,
    pub func_of: Vec<Ci>,
    pub with_respect_to: Ci,
    pub rhs: MathExpressionTree,
}

/// The model of an equation.
pub struct OdeView {
    pub lhs_var: CiView,
    pub func_of: Seq<CiView>,
    pub with_respect_to: CiView,
    pub rhs: TreeView,
}

impl View for FirstOrderODE {
    type V = OdeView;

    open spec fn view(&self) -> OdeView {
        OdeView {
            lhs_var: self.lhs_var@,
            func_of: view_cis(self.func_of@),
            with_respect_to: self.with_respect_to@,
            rhs: self.rhs@,
        }
    }
}

/// The derivative that an equation opens with: the variable and the variable of the
/// derivative, where the first node is a derivative of the first order, written with `d`
/// or with a dot, of a named function.
pub open spec fn lhs_of(nodes: Seq<ExprView>) -> Option<(CiView, CiView)> {
    if nodes.len() < 3 || nodes[1] != ExprView::Mo(OpView::Equals) {
        None
    } else {
        match nodes[0] {
            ExprView::Differential { diff, func } => match (*diff, *func) {
                (ExprView::Mo(OpView::Derivative { order, var_index, bound_var, notation }), ExprView::Ci(c)) => if order
                    == 1 && (notation == DerivativeNotation::LeibnizTotal || notation
                    == DerivativeNotation::Newton) {
                    Some((c, bound_var))
                } else {
                    None
                },
                _ => None,
            },
            _ => None,
        }
    }
}

/// The equation that the nodes of a document are.
pub open spec fn ode_of(nodes: Seq<ExprView>) -> Result<OdeView, TranslateErrorView> {
    match lhs_of(nodes) {
        None => Err(TranslateErrorView::NotAnEquation),
        Some((c, t)) => match tree_of(nodes.skip(2)) {
            Err(e) => Err(TranslateErrorView::Expression(e)),
            Ok(rhs) => Ok(
                OdeView {
                    lhs_var: c,
                    func_of: match c.func_of {
                        Some(v) => v,
                        None => Seq::empty(),
                    },
                    with_respect_to: t,
                    rhs,
                },
            ),
        },
    }
}

/// The equation as one tree: the derivative of the variable, equal to the right-hand side.
pub open spec fn equation(o: OdeView) -> TreeView {
    TreeView::Cons(
        OpView::Equals,
        seq![
            TreeView::Cons(
                OpView::Derivative {
                    order: 1u8,
                    var_index: 1u8,
                    bound_var: o.with_respect_to,
                    notation: DerivativeNotation::LeibnizTotal,
                },
                seq![TreeView::Atom(ExprView::Ci(plain_name(display_expr(*o.lhs_var.content))))],
            ),
            o.rhs,
        ],
    )
}

fn is_equals(e: &MathExpression) -> (r: bool)
    ensures
        r == (e@ == ExprView::Mo(OpView::Equals)),
{
    match e {
        MathExpression::Mo(o) => match o {
            Operator::Equals => {
                assert(view_op(*o) == OpView::Equals);
                true
            },
            _ => {
                assert(!(view_op(*o) is Equals));
                false
            },
        },
        _ => false,
    }
}

/// The variable and the variable of the derivative that an equation opens with.
fn lhs(nodes: &Vec<MathExpression>) -> (r: Option<(Ci, Ci)>)
    ensures
        r is Some <==> lhs_of(view_exprs(nodes@)) is Some,
        r is Some ==> r.unwrap().0@ == lhs_of(view_exprs(nodes@)).unwrap().0 && r.unwrap().1@ == lhs_of(
            view_exprs(nodes@),
        ).unwrap().1,
{
    assert(view_exprs(nodes@).len() == nodes@.len());
    if nodes.len() < 3 {
        return None;
    }
    assert(view_exprs(nodes@)[0] == nodes@[0]@ && view_exprs(nodes@)[1] == nodes@[1]@);
    if !is_equals(&nodes[1]) {
        return None;
    }
    match &nodes[0] {
        MathExpression::Differential(d) => {
            let var = match function_of(&d.func) {
                Some(c) => c,
                None => {
                    return None;
                },
            };
            match bound_of(&d.diff) {
                Some(t) => Some((var, t)),
                None => None,
            }
        },
        _ => None,
    }
}

fn function_of(e: &MathExpression) -> (r: Option<Ci>)
    ensures
        r is Some <==> e@ is Ci,
        r is Some ==> r->0@ == e@->Ci_0,
{
    match e {
        MathExpression::Ci(c) => Some(clone_ci(c)),
        _ => None,
    }
}

fn bound_of(e: &MathExpression) -> (r: Option<Ci>)
    ensures
        r is Some <==> (e@ is Mo && e@->Mo_0 is Derivative && e@->Mo_0->Derivative_order == 1 && (
        e@->Mo_0->Derivative_notation == DerivativeNotation::LeibnizTotal || e@->Mo_0->Derivative_notation
            == DerivativeNotation::Newton)),
        r is Some ==> r->0@ == e@->Mo_0->Derivative_bound_var,
{
    match e {
        MathExpression::Mo(o) => match o {
            Operator::Derivative(d) => {
                assert(view_op(*o) == (OpView::Derivative {
                    order: d.order,
                    var_index: d.var_index,
                    bound_var: view_ci(d.bound_var),
                    notation: d.notation,
                }));
                let first = d.order == 1;
                let plain = match d.notation {
                    DerivativeNotation::LeibnizTotal => true,
                    DerivativeNotation::Newton => true,
                    _ => false,
                };
                if first && plain {
                    Some(clone_ci(&d.bound_var))
                } else {
                    None
                }
            },
            _ => {
                assert(!(view_op(*o) is Derivative));
                None
            },
        },
        _ => None,
    }
}

/// The nodes of a list from the third on.
fn behind_equals(nodes: &Vec<MathExpression>) -> (r: Vec<MathExpression>)
    requires
        nodes@.len() >= 2,
    ensures
        view_exprs(r@) == view_exprs(nodes@).skip(2),
{
    let mut r: Vec<MathExpression> = Vec::new();
    let mut i: usize = 2;
    while i < nodes.len()
        invariant
            2 <= i <= nodes@.len(),
            r@.len() == i - 2,
            forall|j: int| 0 <= j < r@.len() ==> view_expr(#[trigger] r@[j]) == view_expr(nodes@[j + 2]),
        decreases nodes@.len() - i,
    {
        r.push(clone_expr(&nodes[i]));
        i += 1;
    }
    assert(view_exprs(r@) =~= view_exprs(nodes@).skip(2));
    r
}

/// Reads an equation `dx/dt = rhs` from the nodes of a document.
pub fn ode_from(nodes: Vec<MathExpression>) -> (r: Result<FirstOrderODE, TranslateError>)
    ensures
        match ode_of(view_exprs(nodes@)) {
            Ok(o) => r is Ok && r->Ok_0@ == o,
            Err(e) => r is Err && r->Err_0@ == e,
        },
{
    let (var, t) = match lhs(&nodes) {
        Some(p) => p,
        None => {
            return Err(TranslateError::NotAnEquation);
        },
    };
    assert(view_exprs(nodes@).len() == nodes@.len());
    let rhs = match try_expr(behind_equals(&nodes)) {
        Ok(t) => t,
        Err(e) => {
            return Err(TranslateError::Expression(e));
        },
    };
    let func_of = match &var.func_of {
        Some(v) => {
            assert(view_ci(var).func_of == Some(view_cis(v@)));
            clone_cis(v)
        },
        None => {
            assert(view_ci(var).func_of is None);
            let v: Vec<Ci> = Vec::new();
            assert(view_cis(v@) =~= Seq::<CiView>::empty());
            v
        },
    };
    Ok(FirstOrderODE { lhs_var: var, func_of, with_respect_to: t, rhs })
}

/// Reads a text of markup as an equation `dx/dt = rhs`.
pub fn first_order_ode(input: &str) -> (r: Result<FirstOrderODE, TranslateError>)
    ensures
        match layout_of(input@) {
            Err(e) => r is Err && r->Err_0@ == e,
            Ok(nodes) => match ode_of(nodes) {
                Ok(o) => r is Ok && r->Ok_0@ == o,
                Err(e) => r is Err && r->Err_0@ == e,
            },
        },
{
    match interpreted_math(input) {
        Err(e) => Err(e),
        Ok(nodes) => ode_from(nodes),
    }
}

impl FirstOrderODE {
    /// Content MathML for the equation.
    pub fn to_cmml(&self) -> (r: String)
        requires
            cmml_ok(self@.rhs),
        ensures
            r@ == cmml_tree(equation(self@)),
    {
        assert(*view_ci(self.lhs_var).content == view_expr(*self.lhs_var.content));
        let name = MathExpression::Mi(self.lhs_var.to_string());
        let leaf = ci_node(ci(name, None, None));
        let ghost leaf_view = leaf@;
        let var = MathExpressionTree::Atom(leaf);
        let ghost var_view = var@;
        assert(var_view == TreeView::Atom(leaf_view));
        let mut one: Vec<MathExpressionTree> = Vec::new();
        one.push(var);
        let d = derivative_of(1, clone_ci(&self.with_respect_to), DerivativeNotation::LeibnizTotal);
        let left = MathExpressionTree::Cons(d, one);
        let ghost left_view = left@;
        let mut both: Vec<MathExpressionTree> = Vec::new();
        both.push(left);
        both.push(clone_tree(&self.rhs));
        let whole = MathExpressionTree::Cons(Operator::Equals, both);
        assert(view_op(Operator::Equals) == OpView::Equals);
        assert(view_trees(one@) =~= seq![var_view]);
        assert(view_trees(both@) =~= seq![left_view, self.rhs@]);
        assert(whole@ == equation(self@));
        proof {
            let inner = view_trees(one@);
            let outer = view_trees(both@);
            assert(crate::cmml::cmml_trees_ok(inner, 0));
            assert(inner[0] == var_view);
            assert(crate::cmml::cmml_ok(var_view));
            assert(crate::cmml::cmml_trees_ok(inner, 1));
            assert(crate::cmml::cmml_ok(left_view));
            assert(outer[0] == left_view && outer[1] == self.rhs@);
            assert(crate::cmml::cmml_trees_ok(outer, 0));
            assert(crate::cmml::cmml_trees_ok(outer, 1));
            assert(crate::cmml::cmml_trees_ok(outer, 2));
        }
        whole.to_cmml()
    }
}

impl std::str::FromStr for FirstOrderODE {
    type Err = TranslateError;

    fn from_str(s: &str) -> (r: Result<Self, Self::Err>)
        ensures
            match layout_of(s@) {
                Err(e) => r is Err && r->Err_0@ == e,
                Ok(nodes) => match ode_of(nodes) {
                    Ok(o) => r is Ok && r->Ok_0@ == o,
                    Err(e) => r is Err && r->Err_0@ == e,
                },
            },
    {
        first_order_ode(s)
    }
}

} // verus!
