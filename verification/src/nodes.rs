//! Nodes and operators put together from their parts, each with the model of what was built.
use crate::ast::{
    view_args, view_maybe, view_opt, Ci, CiView, Derivative, DerivativeNotation, Differential, ExpMath,
    ExprView, Gradient, Hat, Int, Integral, LaplacianComp, LogView, Logarithm, LogarithmNotation,
    MathExpression, OpView, Operator, Summation, SummationMath, VectorNotation,
};
use vstd::prelude::*;

verus! {

fn boxed(o: Option<MathExpression>) -> (r: Option<Box<MathExpression>>)
    ensures
        view_opt(r) == view_maybe(o),
{
    match o {
        Some(e) => Some(Box::new(e)),
        None => None,
    }
}

/// The node of an operator.
pub fn mo(op: Operator) -> (r: MathExpression)
    ensures
        r@ == ExprView::Mo(op@),
{
    MathExpression::Mo(op)
}

/// An operator that carries nothing, as a node.
pub(crate) fn plain(op: Operator) -> (r: MathExpression)
    requires
        op is Add || op is Subtract || op is Multiply || op is Divide || op is Equals || op is Lparen || op is Rparen
            || op is Min || op is Exp || op is Laplacian || op is Div || op is Mean || op is Power,
    ensures
        r@ == ExprView::Mo(op@),
        op is Add ==> op@ == OpView::Add,
        op is Subtract ==> op@ == OpView::Subtract,
        op is Multiply ==> op@ == OpView::Multiply,
        op is Divide ==> op@ == OpView::Divide,
        op is Equals ==> op@ == OpView::Equals,
        op is Lparen ==> op@ == OpView::Lparen,
        op is Rparen ==> op@ == OpView::Rparen,
        op is Min ==> op@ == OpView::Min,
        op is Exp ==> op@ == OpView::Exp,
        op is Laplacian ==> op@ == OpView::Laplacian,
        op is Div ==> op@ == OpView::Div,
        op is Mean ==> op@ == OpView::Mean,
        op is Power ==> op@ == OpView::Power,
{
    MathExpression::Mo(op)
}

/// An operator by its text.
pub fn other(text: String) -> (r: Operator)
    ensures
        r@ == OpView::Other(text@),
{
    Operator::Other(text)
}

/// A gradient.
pub fn gradient(subscript: Option<MathExpression>) -> (r: Operator)
    ensures
        r@ == (OpView::Gradient { subscript: view_maybe(subscript) }),
{
    Operator::Gradient(Gradient { subscript: boxed(subscript) })
}

/// A derivative with respect to the first variable.
pub fn derivative_of(order: u8, bound_var: Ci, notation: DerivativeNotation) -> (r: Operator)
    ensures
        r@ == (OpView::Derivative { order, var_index: 1u8, bound_var: bound_var@, notation }),
{
    Operator::Derivative(Derivative { order, var_index: 1, bound_var, notation })
}

/// A sum.
pub fn summation(lower: Option<MathExpression>, upper: Option<MathExpression>) -> (r: Operator)
    ensures
        r@ == (OpView::Summation { lower: view_maybe(lower), upper: view_maybe(upper) }),
{
    Operator::Summation(Summation { lower_bound: boxed(lower), upper_bound: boxed(upper) })
}

/// The operator of an integral.
pub fn integral_of(
    lower: Option<MathExpression>,
    upper: Option<MathExpression>,
    variable: MathExpression,
) -> (r: Operator)
    ensures
        r@ == (OpView::Int { lower: view_maybe(lower), upper: view_maybe(upper), variable: Box::new(variable@) }),
{
    Operator::Int(
        Int { lower_limit: boxed(lower), upper_limit: boxed(upper), integration_variable: Box::new(variable) },
    )
}

/// A hat.
pub fn hat(comp: MathExpression) -> (r: Operator)
    ensures
        r@ == (OpView::Hat { comp: Box::new(comp@) }),
{
    Operator::Hat(Hat { comp: Box::new(comp) })
}

/// A logarithm: with a base where one is given, else natural or plain.
pub fn logarithm(base: Option<MathExpression>, natural: bool) -> (r: Operator)
    ensures
        r@ == OpView::Logarithm(
            match base {
                Some(b) => LogView::LogBase(Box::new(b@)),
                None => if natural {
                    LogView::Ln
                } else {
                    LogView::Log
                },
            },
        ),
{
    Operator::Logarithm(
        Logarithm {
            notation: match base {
                Some(b) => LogarithmNotation::LogBase(Box::new(b)),
                None => if natural {
                    LogarithmNotation::Ln
                } else {
                    LogarithmNotation::Log
                },
            },
        },
    )
}

/// A name with the variables it is a function of.
pub fn ci(content: MathExpression, func_of: Option<Vec<Ci>>, notation: Option<VectorNotation>) -> (r: Ci)
    ensures
        r@ == (CiView { content: Box::new(content@), func_of: view_args(func_of), notation }),
{
    Ci { content: Box::new(content), func_of, notation }
}

/// A name as a node.
pub fn ci_node(c: Ci) -> (r: MathExpression)
    ensures
        r@ == ExprView::Ci(c@),
{
    MathExpression::Ci(c)
}

/// A differential operator applied to a node.
pub fn differential(diff: MathExpression, func: MathExpression) -> (r: MathExpression)
    ensures
        r@ == (ExprView::Differential { diff: Box::new(diff@), func: Box::new(func@) }),
{
    MathExpression::Differential(Differential { diff: Box::new(diff), func: Box::new(func) })
}

/// A sum applied to a node.
pub fn summation_math(op: MathExpression, func: MathExpression) -> (r: MathExpression)
    ensures
        r@ == (ExprView::SummationMath { op: Box::new(op@), func: Box::new(func@) }),
{
    MathExpression::SummationMath(SummationMath { op: Box::new(op), func: Box::new(func) })
}

/// The exponential applied to a node.
pub fn exp_math(op: MathExpression, func: MathExpression) -> (r: MathExpression)
    ensures
        r@ == (ExprView::ExpMath { op: Box::new(op@), func: Box::new(func@) }),
{
    MathExpression::ExpMath(ExpMath { op: Box::new(op), func: Box::new(func) })
}

/// An integral of a node.
pub fn integral(op: MathExpression, integrand: MathExpression, variable: MathExpression) -> (r: MathExpression)
    ensures
        r@ == (ExprView::Integral {
            op: Box::new(op@),
            integrand: Box::new(integrand@),
            variable: Box::new(variable@),
        }),
{
    MathExpression::Integral(
        Integral {
            op: Box::new(op),
            integrand: Box::new(integrand),
            integration_variable: Box::new(variable),
        },
    )
}

/// The Laplacian applied to a name.
pub fn laplacian_comp(op: MathExpression, comp: Ci) -> (r: MathExpression)
    ensures
        r@ == (ExprView::LaplacianComp { op: Box::new(op@), name: comp@ }),
{
    MathExpression::LaplacianComp(LaplacianComp { op: Box::new(op), comp })
}

/// A row of nodes.
pub fn row(v: Vec<MathExpression>) -> (r: MathExpression)
    ensures
        r@ == ExprView::Mrow(crate::ast::view_exprs(v@)),
{
    MathExpression::Mrow(v)
}

} // verus!
