//! From markup to a tree in one step.
use crate::ast::{view_exprs, ExprView, MathExpression};
use crate::interpret::{interpret, interpreted};
use crate::parsing::{document, error_at, parse, ParseError, ParseErrorView};
use crate::pratt::{tree_of, try_expr, ExprError};
use crate::text::{
    normalized, preprocess_mathml_for_to_latex, replace_unicode_with_symbols, replaced, Rewrite,
};
use crate::display::display_tree;
use crate::tree::{MathExpressionTree, TreeView};
use vstd::prelude::*;

verus! {

/// Why a text could not be turned into a tree.
#[derive(Debug, PartialEq, Eq)]
pub enum TranslateError {
    /// The text is no document.
    Markup(ParseError),
    /// The document is no expression.
    Expression(ExprError),
    /// The document is no differential equation of the first order.
    NotAnEquation,
}

/// The model of an error of the translation.
pub enum TranslateErrorView {
    Markup(ParseErrorView),
    Expression(ExprError),
    NotAnEquation,
}

impl View for TranslateError {
    type V = TranslateErrorView;

    open spec fn view(&self) -> TranslateErrorView {
        match self {
            TranslateError::Markup(e) => TranslateErrorView::Markup(e@),
            TranslateError::Expression(e) => TranslateErrorView::Expression(*e),
            TranslateError::NotAnEquation => TranslateErrorView::NotAnEquation,
        }
    }
}

/// A text as the parser is given it: character references replaced, line feeds and the
/// white space between tags taken out.
pub open spec fn prepared(s: Seq<char>) -> Seq<char> {
    normalized(replaced(Rewrite::Character, s))
}

/// The meaning of the expressions of a document.
pub open spec fn layout_of(s: Seq<char>) -> Result<Seq<ExprView>, TranslateErrorView> {
    match document(prepared(s)) {
        Err(p) => Err(TranslateErrorView::Markup(error_at(prepared(s), p))),
        Ok((kids, _)) => Ok(interpreted(kids)),
    }
}

/// The tree that a text of markup stands for.
pub open spec fn tree_of_markup(s: Seq<char>) -> Result<TreeView, TranslateErrorView> {
    match layout_of(s) {
        Err(e) => Err(e),
        Ok(nodes) => match tree_of(nodes) {
            Err(e) => Err(TranslateErrorView::Expression(e)),
            Ok(t) => Ok(t),
        },
    }
}

/// Reads a text of markup into the nodes that its expressions mean.
pub fn interpreted_math(input: &str) -> (r: Result<Vec<MathExpression>, TranslateError>)
    ensures
        match layout_of(input@) {
            Ok(nodes) => r is Ok && view_exprs(r->Ok_0@) == nodes,
            Err(e) => r is Err && r->Err_0@ == e,
        },
{
    let a = replace_unicode_with_symbols(input);
    let b = preprocess_mathml_for_to_latex(a.as_str());
    match parse(b.as_str()) {
        Err(e) => Err(TranslateError::Markup(e)),
        Ok((_, math)) => Ok(interpret(&math.content)),
    }
}

impl MathExpressionTree {
    /// Reads a text of presentation MathML into the tree of the expression it shows.
    pub fn from_mathml(input: &str) -> (r: Result<MathExpressionTree, TranslateError>)
        ensures
            match tree_of_markup(input@) {
                Ok(t) => r is Ok && r->Ok_0@ == t,
                Err(e) => r is Err && r->Err_0@ == e,
            },
    {
        match interpreted_math(input) {
            Err(e) => Err(e),
            Ok(nodes) => match try_expr(nodes) {
                Ok(t) => Ok(t),
                Err(e) => Err(TranslateError::Expression(e)),
            },
        }
    }
}

impl std::str::FromStr for MathExpressionTree {
    type Err = TranslateError;

    fn from_str(s: &str) -> (r: Result<Self, Self::Err>)
        ensures
            match tree_of_markup(s@) {
                Ok(t) => r is Ok && r->Ok_0@ == t,
                Err(e) => r is Err && r->Err_0@ == e,
            },
    {
        MathExpressionTree::from_mathml(s)
    }
}

/// The prefix form of the tree of a document.
pub open spec fn displayed(nodes: Seq<ExprView>) -> Result<Seq<char>, ExprError> {
    match tree_of(nodes) {
        Ok(t) => Ok(display_tree(t)),
        Err(e) => Err(e),
    }
}

/// Builds the tree of a document and writes its prefix form.
pub fn display_of(nodes: Vec<MathExpression>) -> (r: Result<String, ExprError>)
    ensures
        match displayed(view_exprs(nodes@)) {
            Ok(s) => r is Ok && r->Ok_0@ == s,
            Err(e) => r is Err && r->Err_0 == e,
        },
{
    match try_expr(nodes) {
        Ok(t) => Ok(t.to_string()),
        Err(e) => Err(e),
    }
}

} // verus!
