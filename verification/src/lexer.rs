//! From the layout tree to a line of tokens: rows and fractions opened up into brackets,
//! and multiplication written where two operands stand side by side.
use crate::ast::{
    clone_expr, view_ci, view_cis, view_expr, view_exprs, view_op, Ci, CiView, ExprView, MathExpression,
    OpView, Operator,
};
use crate::tree::{view_tokens, Token, TokenView};
use vstd::prelude::*;

verus! {

/// The opening bracket.
pub open spec fn lp() -> ExprView {
    ExprView::Mo(OpView::Lparen)
}

/// The closing bracket.
pub open spec fn rp() -> ExprView {
    ExprView::Mo(OpView::Rparen)
}

/// The names that a function is of, as nodes of their own.
pub open spec fn arg_nodes(func_of: Option<Seq<CiView>>) -> Seq<ExprView> {
    match func_of {
        Some(v) => Seq::new(v.len(), |i: int| ExprView::Ci(v[i])),
        None => Seq::empty(),
    }
}

/// The function that a name in a row stands for, if it is the name of one.
pub open spec fn row_function(x: ExprView) -> Option<OpView> {
    match x {
        ExprView::Ci(c) => if *c.content == ExprView::Mi("cos"@) {
            Some(OpView::Cos)
        } else if *c.content == ExprView::Mi("sin"@) {
            Some(OpView::Sin)
        } else if *c.content == ExprView::Mi("tan"@) {
            Some(OpView::Tan)
        } else {
            None
        },
        _ => None,
    }
}

/// One node of a row as tokens: the name of a function becomes the function, followed by
/// what it is a function of; any other node is flattened.
pub open spec fn flatten_item(x: ExprView) -> Seq<ExprView>
    decreases x, 1nat,
{
    match row_function(x) {
        Some(f) => seq![ExprView::Mo(f)] + arg_nodes(x->Ci_0.func_of),
        None => flatten(x),
    }
}

/// The first `n` nodes of a row as tokens.
pub open spec fn flatten_row(v: Seq<ExprView>, n: nat) -> Seq<ExprView>
    decreases v, n,
{
    if n == 0 || n > v.len() {
        Seq::empty()
    } else {
        flatten_row(v, (n - 1) as nat) + flatten_item(v[n - 1])
    }
}

/// A node of the layout tree as tokens, still nodes themselves: operators and leaves.
pub open spec fn flatten(e: ExprView) -> Seq<ExprView>
    decreases e, 0nat,
{
    match e {
        ExprView::Mrow(v) => seq![lp()] + flatten_row(v, v.len()) + seq![rp()],
        ExprView::SummationMath { op, func } => seq![lp()] + flatten(*op) + flatten(*func) + seq![rp()],
        ExprView::Differential { diff, func } => seq![lp()] + flatten(*diff) + seq![lp()] + flatten(*func)
            + seq![rp()] + seq![rp()],
        ExprView::SurfaceIntegral(row) => seq![lp()] + seq![ExprView::Mo(OpView::SurfaceInt)] + flatten(*row)
            + seq![rp()],
        ExprView::LaplacianComp { op, name } => seq![lp()] + flatten(*op) + flatten(*name.content) + seq![
            rp(),
        ],
        ExprView::Mfrac(n, d) => seq![lp()] + flatten(*n) + seq![rp()] + seq![ExprView::Mo(OpView::Divide)]
            + seq![lp()] + flatten(*d) + seq![rp()],
        ExprView::Msup(base, sup) => if *base is Ci {
            if *base->Ci_0.content == ExprView::Mi("e"@) {
                seq![ExprView::Mo(OpView::Exp)] + seq![lp()] + flatten(*sup) + seq![rp()]
            } else {
                seq![lp()] + flatten(*base) + seq![rp()] + seq![ExprView::Mo(OpView::Power)] + seq![lp()]
                    + flatten(*sup) + seq![rp()]
            }
        } else {
            flatten(*base) + seq![ExprView::Mo(OpView::Power)] + seq![lp()] + flatten(*sup) + seq![rp()]
        },
        ExprView::AbsoluteSup(base, sup) => seq![lp()] + seq![ExprView::Mo(OpView::Abs)] + seq![lp()]
            + flatten(*base) + seq![rp()] + seq![rp()] + seq![ExprView::Mo(OpView::Power)] + seq![lp()]
            + flatten(*sup) + seq![rp()],
        ExprView::Minimize(_, v) => seq![lp()] + v + seq![rp()],
        ExprView::Absolute(_, comp) => seq![lp()] + seq![ExprView::Mo(OpView::Abs)] + seq![lp()] + flatten(
            *comp,
        ) + seq![rp()] + seq![rp()],
        ExprView::Msqrt(comp) => seq![lp()] + seq![ExprView::Mo(OpView::Sqrt)] + seq![lp()] + flatten(*comp)
            + seq![rp()] + seq![rp()],
        ExprView::HatComp { op, comp } => flatten(*op) + seq![lp()] + flatten(*comp) + seq![rp()],
        ExprView::Mover(base, over) => if *over == ExprView::Mo(OpView::Other("^"@)) {
            flatten(*base) + seq![ExprView::Mo(OpView::Other("^"@))]
        } else if *over == ExprView::Mo(OpView::Mean) {
            seq![ExprView::Mo(OpView::Mean)] + seq![lp()] + flatten(*base) + seq![rp()]
        } else {
            Seq::empty()
        },
        ExprView::ExpMath { op, func } => seq![lp()] + flatten(*op) + flatten(*func) + seq![rp()],
        ExprView::Integral { op, integrand, variable } => flatten(*op) + seq![lp()] + flatten(*integrand)
            + seq![rp()],
        _ => seq![e],
    }
}

/// The first `n` expressions of a document as tokens.
pub open spec fn flatten_all(v: Seq<ExprView>, n: nat) -> Seq<ExprView>
    decreases n,
{
    if n == 0 || n > v.len() {
        Seq::empty()
    } else {
        flatten_all(v, (n - 1) as nat) + flatten(v[n - 1])
    }
}

/// Whether a multiplication is meant between two tokens that stand side by side: before an
/// opening bracket that follows an operand or a closing bracket, and before an operand that
/// follows an operand or a closing bracket.
pub open spec fn multiplies(prev: ExprView, x: ExprView) -> bool {
    if x == lp() {
        prev == rp() || !(prev is Mo)
    } else if x is Mo {
        false
    } else {
        prev == rp() || !(prev is Mo)
    }
}

/// The token of a node of the line: an operator for an operator, a leaf for all else.
pub open spec fn to_token(e: ExprView) -> TokenView {
    match e {
        ExprView::Mo(o) => TokenView::Op(o),
        _ => TokenView::Atom(e),
    }
}

/// The first `n` tokens of a line, with the multiplications that are meant written out.
pub open spec fn with_multiply(s: Seq<ExprView>, n: nat) -> Seq<TokenView>
    decreases n,
{
    if n == 0 || n > s.len() {
        Seq::empty()
    } else if n == 1 {
        seq![to_token(s[0])]
    } else if multiplies(s[n - 2], s[n - 1]) {
        with_multiply(s, (n - 1) as nat) + seq![TokenView::Op(OpView::Multiply)] + seq![to_token(s[n - 1])]
    } else {
        with_multiply(s, (n - 1) as nat) + seq![to_token(s[n - 1])]
    }
}

/// The first `n` tokens of a line, with a multiplication between every closing bracket and
/// an opening bracket that follows it at once.
pub open spec fn between_brackets(s: Seq<TokenView>, n: nat) -> Seq<TokenView>
    decreases n,
{
    if n == 0 || n > s.len() {
        Seq::empty()
    } else if n == 1 {
        seq![s[0]]
    } else if s[n - 2] == TokenView::Op(OpView::Rparen) && s[n - 1] == TokenView::Op(OpView::Lparen) {
        between_brackets(s, (n - 1) as nat) + seq![TokenView::Op(OpView::Multiply)] + seq![s[n - 1]]
    } else {
        between_brackets(s, (n - 1) as nat) + seq![s[n - 1]]
    }
}

/// The tokens of a document, as `Lexer::new` gives them.
pub open spec fn lexed(input: Seq<ExprView>) -> Seq<TokenView> {
    let flat = flatten_all(input, input.len());
    with_multiply(flat, flat.len())
}

// ------------------------------------------------------------------ building lines

proof fn lemma_views_push(a: Seq<MathExpression>, e: MathExpression)
    ensures
        view_exprs(a.push(e)) == view_exprs(a) + seq![e@],
{
    assert(view_exprs(a.push(e)) =~= view_exprs(a) + seq![e@]);
}

proof fn lemma_views_add(a: Seq<MathExpression>, b: Seq<MathExpression>)
    ensures
        view_exprs(a + b) == view_exprs(a) + view_exprs(b),
{
    assert(view_exprs(a + b) =~= view_exprs(a) + view_exprs(b));
}

fn push_node(r: &mut Vec<MathExpression>, e: MathExpression)
    ensures
        view_exprs(final(r)@) == view_exprs(old(r)@) + seq![e@],
{
    proof {
        lemma_views_push(r@, e);
    }
    r.push(e);
}

fn extend(r: &mut Vec<MathExpression>, sub: Vec<MathExpression>)
    ensures
        view_exprs(final(r)@) == view_exprs(old(r)@) + view_exprs(sub@),
{
    let mut sub = sub;
    proof {
        lemma_views_add(r@, sub@);
    }
    r.append(&mut sub);
}

fn single(e: MathExpression) -> (r: Vec<MathExpression>)
    ensures
        view_exprs(r@) == seq![e@],
{
    let mut r: Vec<MathExpression> = Vec::new();
    r.push(e);
    assert(view_exprs(r@) =~= seq![e@]);
    r
}

/// The node of an operator.
fn mo_node(op: Operator) -> (r: MathExpression)
    ensures
        r@ == ExprView::Mo(op@),
{
    MathExpression::Mo(op)
}

fn open_bracket() -> (r: MathExpression)
    ensures
        r@ == lp(),
{
    mo_node(Operator::Lparen)
}

fn close_bracket() -> (r: MathExpression)
    ensures
        r@ == rp(),
{
    mo_node(Operator::Rparen)
}

/// Whether a node is the identifier with the given text.
fn is_named(e: &MathExpression, name: &str) -> (r: bool)
    ensures
        r == (e@ == ExprView::Mi(name@)),
{
    match e {
        MathExpression::Mi(s) => {
            let n = String::from_str(name);
            *s == n
        },
        _ => false,
    }
}

/// Whether a node is the operator with the given text, one that has no variant of its own.
fn is_other(e: &MathExpression, text: &str) -> (r: bool)
    ensures
        r == (e@ == ExprView::Mo(OpView::Other(text@))),
{
    match e {
        MathExpression::Mo(o) => match o {
            Operator::Other(s) => {
                assert(view_op(*o) == OpView::Other(s@));
                let n = String::from_str(text);
                *s == n
            },
            _ => {
                assert(!(view_op(*o) is Other));
                false
            },
        },
        _ => false,
    }
}

fn is_mean(e: &MathExpression) -> (r: bool)
    ensures
        r == (e@ == ExprView::Mo(OpView::Mean)),
{
    match e {
        MathExpression::Mo(o) => match o {
            Operator::Mean => {
                assert(view_op(*o) == OpView::Mean);
                true
            },
            _ => {
                assert(!(view_op(*o) is Mean));
                false
            },
        },
        _ => false,
    }
}

fn function_of_row(x: &MathExpression) -> (r: Option<Operator>)
    ensures
        r is Some <==> row_function(x@) is Some,
        r is Some ==> r->0@ == row_function(x@)->0,
{
    match x {
        MathExpression::Ci(c) => {
            assert(*view_ci(*c).content == view_expr(*c.content));
            if is_named(&c.content, "cos") {
                Some(Operator::Cos)
            } else if is_named(&c.content, "sin") {
                Some(Operator::Sin)
            } else if is_named(&c.content, "tan") {
                Some(Operator::Tan)
            } else {
                None
            }
        },
        _ => None,
    }
}

fn nodes_of_args(c: &Ci) -> (r: Vec<MathExpression>)
    ensures
        view_exprs(r@) == arg_nodes(c@.func_of),
{
    let mut r: Vec<MathExpression> = Vec::new();
    match &c.func_of {
        Some(v) => {
            assert(view_ci(*c).func_of == Some(view_cis(v@)));
            let mut i: usize = 0;
            while i < v.len()
                invariant
                    i <= v.len(),
                    r@.len() == i,
                    forall|j: int| 0 <= j < i ==> view_expr(#[trigger] r@[j]) == ExprView::Ci(view_ci(v@[j])),
                decreases v.len() - i,
            {
                let c = v[i].clone();
                r.push(MathExpression::Ci(c));
                i += 1;
            }
            assert(view_exprs(r@) =~= arg_nodes(Some(view_cis(v@))));
        },
        None => {
            assert(view_ci(*c).func_of is None);
            assert(view_exprs(r@) =~= Seq::<ExprView>::empty());
        },
    }
    r
}

fn flat_item(x: &MathExpression) -> (r: Vec<MathExpression>)
    ensures
        view_exprs(r@) == flatten_item(x@),
    decreases x, 1nat,
{
    match function_of_row(x) {
        Some(f) => {
            match x {
                MathExpression::Ci(c) => {
                    let mut r = single(mo_node(f));
                    let a = nodes_of_args(c);
                    extend(&mut r, a);
                    r
                },
                _ => Vec::new(),
            }
        },
        None => flat(x),
    }
}

fn flat_row(v: &Vec<MathExpression>) -> (r: Vec<MathExpression>)
    ensures
        view_exprs(r@) == flatten_row(view_exprs(v@), v@.len()),
    decreases v, 2nat,
{
    let mut r: Vec<MathExpression> = Vec::new();
    assert(view_exprs(r@) =~= Seq::<ExprView>::empty());
    let mut i: usize = 0;
    while i < v.len()
        invariant
            i <= v.len(),
            view_exprs(r@) == flatten_row(view_exprs(v@), i as nat),
        decreases v.len() - i,
    {
        let s = flat_item(&v[i]);
        extend(&mut r, s);
        i += 1;
    }
    r
}

/// `(`, the tokens, `)`.
fn bracketed(a: Vec<MathExpression>) -> (r: Vec<MathExpression>)
    ensures
        view_exprs(r@) == seq![lp()] + view_exprs(a@) + seq![rp()],
{
    let mut r = single(open_bracket());
    extend(&mut r, a);
    push_node(&mut r, close_bracket());
    r
}

/// `(`, the tokens of one node, those of the next, `)`.
fn bracketed_pair(a: Vec<MathExpression>, b: Vec<MathExpression>) -> (r: Vec<MathExpression>)
    ensures
        view_exprs(r@) == seq![lp()] + view_exprs(a@) + view_exprs(b@) + seq![rp()],
{
    let mut r = single(open_bracket());
    extend(&mut r, a);
    extend(&mut r, b);
    push_node(&mut r, close_bracket());
    r
}

/// `(`, an operator, `(`, the tokens, `)`, `)`.
fn under_operator(op: Operator, a: Vec<MathExpression>) -> (r: Vec<MathExpression>)
    ensures
        view_exprs(r@) == seq![lp()] + seq![ExprView::Mo(op@)] + seq![lp()] + view_exprs(a@) + seq![rp()] + seq![
            rp(),
        ],
{
    let mut r = single(open_bracket());
    push_node(&mut r, mo_node(op));
    push_node(&mut r, open_bracket());
    extend(&mut r, a);
    push_node(&mut r, close_bracket());
    push_node(&mut r, close_bracket());
    r
}

/// The tokens so far, an operator, `(`, more tokens, `)`.
fn then_operator(r: Vec<MathExpression>, op: Operator, b: Vec<MathExpression>) -> (out: Vec<MathExpression>)
    ensures
        view_exprs(out@) == view_exprs(r@) + seq![ExprView::Mo(op@)] + seq![lp()] + view_exprs(b@) + seq![rp()],
{
    let mut out = r;
    push_node(&mut out, mo_node(op));
    push_node(&mut out, open_bracket());
    extend(&mut out, b);
    push_node(&mut out, close_bracket());
    out
}

/// The tokens so far, `(`, more tokens, `)`.
fn then_bracketed(r: Vec<MathExpression>, b: Vec<MathExpression>) -> (out: Vec<MathExpression>)
    ensures
        view_exprs(out@) == view_exprs(r@) + seq![lp()] + view_exprs(b@) + seq![rp()],
{
    let mut out = r;
    push_node(&mut out, open_bracket());
    extend(&mut out, b);
    push_node(&mut out, close_bracket());
    out
}

fn differential(a: Vec<MathExpression>, b: Vec<MathExpression>) -> (r: Vec<MathExpression>)
    ensures
        view_exprs(r@) == seq![lp()] + view_exprs(a@) + seq![lp()] + view_exprs(b@) + seq![rp()] + seq![rp()],
{
    let mut r = single(open_bracket());
    extend(&mut r, a);
    push_node(&mut r, open_bracket());
    extend(&mut r, b);
    push_node(&mut r, close_bracket());
    push_node(&mut r, close_bracket());
    r
}

fn surface(a: Vec<MathExpression>) -> (r: Vec<MathExpression>)
    ensures
        view_exprs(r@) == seq![lp()] + seq![ExprView::Mo(OpView::SurfaceInt)] + view_exprs(a@) + seq![rp()],
{
    let mut r = single(open_bracket());
    push_node(&mut r, mo_node(Operator::SurfaceInt));
    extend(&mut r, a);
    push_node(&mut r, close_bracket());
    r
}

fn exponential(b: Vec<MathExpression>) -> (r: Vec<MathExpression>)
    ensures
        view_exprs(r@) == seq![ExprView::Mo(OpView::Exp)] + seq![lp()] + view_exprs(b@) + seq![rp()],
{
    let mut r = single(mo_node(Operator::Exp));
    push_node(&mut r, open_bracket());
    extend(&mut r, b);
    push_node(&mut r, close_bracket());
    r
}

fn mean(a: Vec<MathExpression>) -> (r: Vec<MathExpression>)
    ensures
        view_exprs(r@) == seq![ExprView::Mo(OpView::Mean)] + seq![lp()] + view_exprs(a@) + seq![rp()],
{
    let mut r = single(mo_node(Operator::Mean));
    push_node(&mut r, open_bracket());
    extend(&mut r, a);
    push_node(&mut r, close_bracket());
    r
}

fn hatted(a: Vec<MathExpression>) -> (r: Vec<MathExpression>)
    ensures
        view_exprs(r@) == view_exprs(a@) + seq![ExprView::Mo(OpView::Other("^"@))],
{
    let mut r = a;
    let h = Operator::Other(String::from_str("^"));
    assert(view_op(h) == OpView::Other("^"@));
    push_node(&mut r, mo_node(h));
    r
}

#[verifier::rlimit(30)]
fn flat(e: &MathExpression) -> (r: Vec<MathExpression>)
    ensures
        view_exprs(r@) == flatten(e@),
    decreases e, 0nat,
{
    match e {
        MathExpression::Mrow(v) => {
            assert(view_exprs(v@).len() == v@.len());
            let r = bracketed(flat_row(v));
            assert(view_exprs(r@) == flatten(e@));
            r
        },
        MathExpression::SummationMath(x) => {
            let r = bracketed_pair(flat(&x.op), flat(&x.func));
            assert(view_exprs(r@) == flatten(e@));
            r
        },
        MathExpression::ExpMath(x) => {
            let r = bracketed_pair(flat(&x.op), flat(&x.func));
            assert(view_exprs(r@) == flatten(e@));
            r
        },
        MathExpression::Differential(x) => {
            let r = differential(flat(&x.diff), flat(&x.func));
            assert(view_exprs(r@) == flatten(e@));
            r
        },
        MathExpression::SurfaceIntegral(row) => {
            let r = surface(flat(row));
            assert(view_exprs(r@) == flatten(e@));
            r
        },
        MathExpression::LaplacianComp(x) => {
            assert(*view_ci(x.comp).content == view_expr(*x.comp.content));
            let r = bracketed_pair(flat(&x.op), flat(&x.comp.content));
            assert(view_exprs(r@) == flatten(e@));
            r
        },
        MathExpression::Mfrac(n, d) => {
            let a = bracketed(flat(n));
            let r = then_operator(a, Operator::Divide, flat(d));
            assert(view_exprs(r@) == flatten(e@));
            r
        },
        MathExpression::Msup(base, sup) => {
            let b = flat(sup);
            match &**base {
                MathExpression::Ci(c) => {
                    assert(*view_ci(*c).content == view_expr(*c.content));
                    if is_named(&c.content, "e") {
                        exponential(b)
                    } else {
                        let a = bracketed(flat(base));
                        let r = then_operator(a, Operator::Power, b);
                        assert(view_exprs(r@) == flatten(e@));
                        r
                    }
                },
                _ => {
                    let a = flat(base);
                    let r = then_operator(a, Operator::Power, b);
                    assert(view_exprs(r@) == flatten(e@));
                    r
                },
            }
        },
        MathExpression::AbsoluteSup(base, sup) => {
            let a = under_operator(Operator::Abs, flat(base));
            let r = then_operator(a, Operator::Power, flat(sup));
            assert(view_exprs(r@) == flatten(e@));
            r
        },
        MathExpression::Minimize(_, v) => {
            let r = bracketed(crate::ast::clone_exprs(v));
            assert(view_exprs(r@) == flatten(e@));
            r
        },
        MathExpression::Absolute(_, comp) => {
            let r = under_operator(Operator::Abs, flat(comp));
            assert(view_exprs(r@) == flatten(e@));
            r
        },
        MathExpression::Msqrt(comp) => {
            let r = under_operator(Operator::Sqrt, flat(comp));
            assert(view_exprs(r@) == flatten(e@));
            r
        },
        MathExpression::HatComp(x) => {
            let r = then_bracketed(flat(&x.op), flat(&x.comp));
            assert(view_exprs(r@) == flatten(e@));
            r
        },
        MathExpression::Mover(base, over) => {
            if is_other(over, "^") {
                hatted(flat(base))
            } else if is_mean(over) {
                mean(flat(base))
            } else {
                let r: Vec<MathExpression> = Vec::new();
                assert(view_exprs(r@) =~= Seq::<ExprView>::empty());
                r
            }
        },
        MathExpression::Integral(x) => {
            let r = then_bracketed(flat(&x.op), flat(&x.integrand));
            assert(view_exprs(r@) == flatten(e@));
            r
        },
        _ => {
            let r = single(clone_expr(e));
            assert(view_exprs(r@) == flatten(e@));
            r
        },
    }
}

impl MathExpression {
    /// Adds the tokens of the node to a line.
    pub fn flatten(&self, tokens: &mut Vec<MathExpression>)
        ensures
            view_exprs(final(tokens)@) == view_exprs(old(tokens)@) + flatten(self@),
    {
        let s = flat(self);
        extend(tokens, s);
    }
}

// ------------------------------------------------------------------ the lexer

/// The tokens of a document, handed out one by one from the left.
#[derive(Debug)]
pub struct Lexer {
    tokens: Vec<Token>,
    pos: usize,
}

impl View for Lexer {
    type V = Seq<TokenView>;

    /// The tokens that have not been handed out yet, the next one first.
    closed spec fn view(&self) -> Seq<TokenView> {
        if self.pos <= self.tokens@.len() {
            view_tokens(self.tokens@.skip(self.pos as int))
        } else {
            Seq::empty()
        }
    }
}

fn push_token(tokens: &mut Vec<Token>, t: Token)
    ensures
        view_tokens(final(tokens)@) == view_tokens(old(tokens)@) + seq![t@],
{
    assert(view_tokens(tokens@.push(t)) =~= view_tokens(tokens@) + seq![t@]);
    tokens.push(t);
}

fn token_of(e: &MathExpression) -> (r: Token)
    ensures
        r@ == to_token(e@),
{
    match e {
        MathExpression::Mo(op) => Token::Op(op.clone()),
        _ => Token::Atom(clone_expr(e)),
    }
}

fn is_open(e: &MathExpression) -> (r: bool)
    ensures
        r == (e@ == lp()),
{
    match e {
        MathExpression::Mo(o) => match o {
            Operator::Lparen => {
                assert(view_op(*o) == OpView::Lparen);
                true
            },
            _ => {
                assert(!(view_op(*o) is Lparen));
                false
            },
        },
        _ => false,
    }
}

fn is_close(e: &MathExpression) -> (r: bool)
    ensures
        r == (e@ == rp()),
{
    match e {
        MathExpression::Mo(o) => match o {
            Operator::Rparen => {
                assert(view_op(*o) == OpView::Rparen);
                true
            },
            _ => {
                assert(!(view_op(*o) is Rparen));
                false
            },
        },
        _ => false,
    }
}

fn is_operator(e: &MathExpression) -> (r: bool)
    ensures
        r == (e@ is Mo),
{
    match e {
        MathExpression::Mo(_) => true,
        _ => false,
    }
}

fn is_multiplied(prev: &MathExpression, x: &MathExpression) -> (r: bool)
    ensures
        r == multiplies(prev@, x@),
{
    if is_open(x) {
        is_close(prev) || !is_operator(prev)
    } else if is_operator(x) {
        false
    } else {
        is_close(prev) || !is_operator(prev)
    }
}

fn is_op_token(t: &Token, open: bool) -> (r: bool)
    ensures
        r == (t@ == TokenView::Op(
            if open {
                OpView::Lparen
            } else {
                OpView::Rparen
            },
        )),
{
    match t {
        Token::Op(o) => match o {
            Operator::Lparen => {
                assert(view_op(*o) == OpView::Lparen);
                open
            },
            Operator::Rparen => {
                assert(view_op(*o) == OpView::Rparen);
                !open
            },
            _ => {
                assert(!(view_op(*o) is Lparen) && !(view_op(*o) is Rparen));
                false
            },
        },
        _ => false,
    }
}

impl Lexer {
    /// Flattens the expressions of a document into one line of tokens and writes out the
    /// multiplications that are meant.
    pub fn new(input: Vec<MathExpression>) -> (r: Lexer)
        ensures
            r@ == lexed(view_exprs(input@)),
    {
        let mut line: Vec<MathExpression> = Vec::new();
        assert(view_exprs(line@) =~= Seq::<ExprView>::empty());
        let mut i: usize = 0;
        assert(view_exprs(input@).len() == input@.len());
        while i < input.len()
            invariant
                i <= input.len(),
                view_exprs(line@) == flatten_all(view_exprs(input@), i as nat),
                view_exprs(input@).len() == input@.len(),
            decreases input.len() - i,
        {
            let s = flat(&input[i]);
            extend(&mut line, s);
            i += 1;
        }
        let ghost flat_line = view_exprs(line@);
        assert(flat_line.len() == line@.len());
        let mut tokens: Vec<Token> = Vec::new();
        assert(view_tokens(tokens@) =~= Seq::<TokenView>::empty());
        let mut j: usize = 0;
        while j < line.len()
            invariant
                j <= line.len(),
                flat_line == view_exprs(line@),
                flat_line.len() == line@.len(),
                view_tokens(tokens@) == with_multiply(flat_line, j as nat),
            decreases line.len() - j,
        {
            if j == 0 {
                let t = token_of(&line[0]);
                push_token(&mut tokens, t);
                assert(view_tokens(tokens@) =~= seq![to_token(flat_line[0])]);
            } else {
                if is_multiplied(&line[j - 1], &line[j]) {
                    let m = Token::Op(Operator::Multiply);
                    assert(view_op(Operator::Multiply) == OpView::Multiply);
                    push_token(&mut tokens, m);
                }
                let t = token_of(&line[j]);
                push_token(&mut tokens, t);
            }
            j += 1;
        }
        let r = Lexer { tokens, pos: 0 };
        assert(r.tokens@.skip(0) =~= r.tokens@);
        r
    }

    /// The next token, which is then gone; past the end, and for the end mark itself, `Eof`.
    pub fn next(&mut self) -> (t: Token)
        ensures
            old(self)@.len() > 0 ==> t@ == old(self)@[0] && final(self)@ == old(self)@.skip(1),
            old(self)@.len() == 0 ==> t@ == TokenView::Eof && final(self)@ == old(self)@,
    {
        if self.pos < self.tokens.len() {
            let t = self.tokens[self.pos].clone();
            assert(self.tokens@.skip(self.pos as int).skip(1) =~= self.tokens@.skip(self.pos + 1));
            assert(view_tokens(self.tokens@.skip(self.pos as int)).skip(1) =~= view_tokens(
                self.tokens@.skip(self.pos + 1),
            ));
            self.pos = self.pos + 1;
            t
        } else {
            Token::Eof
        }
    }

    /// The next token, which stays; past the end, `Eof`.
    pub fn peek(&self) -> (t: Token)
        ensures
            self@.len() > 0 ==> t@ == self@[0],
            self@.len() == 0 ==> t@ == TokenView::Eof,
    {
        if self.pos < self.tokens.len() {
            self.tokens[self.pos].clone()
        } else {
            Token::Eof
        }
    }

    /// Whether no token is left.
    pub fn is_empty(&self) -> (r: bool)
        ensures
            r == (self@.len() == 0),
    {
        self.pos >= self.tokens.len()
    }
}

/// Writes a multiplication between every closing bracket and an opening bracket that
/// follows it at once. A line that `Lexer::new` made has none left to write.
pub fn insert_multiple_between_paren(lexer: &mut Lexer)
    ensures
        final(lexer)@ == between_brackets(old(lexer)@, old(lexer)@.len()),
{
    let mut tokens: Vec<Token> = Vec::new();
    assert(view_tokens(tokens@) =~= Seq::<TokenView>::empty());
    if lexer.pos >= lexer.tokens.len() {
        lexer.tokens = tokens;
        lexer.pos = 0;
        assert(lexer.tokens@.skip(0) =~= lexer.tokens@);
        return ;
    }
    let start = lexer.pos;
    let ghost line = lexer@;
    let mut k: usize = start;
    while k < lexer.tokens.len()
        invariant
            start <= k <= lexer.tokens.len(),
            lexer.pos == start,
            line == lexer@,
            line.len() == lexer.tokens.len() - start,
            view_tokens(tokens@) == between_brackets(line, (k - start) as nat),
        decreases lexer.tokens.len() - k,
    {
        assert(line[k - start] == lexer.tokens@[k as int]@);
        if k == start {
            let t = lexer.tokens[k].clone();
            push_token(&mut tokens, t);
            assert(view_tokens(tokens@) =~= seq![line[0]]);
        } else {
            assert(line[k - start - 1] == lexer.tokens@[k - 1]@);
            if is_op_token(&lexer.tokens[k - 1], false) && is_op_token(&lexer.tokens[k], true) {
                let m = Token::Op(Operator::Multiply);
                assert(view_op(Operator::Multiply) == OpView::Multiply);
                push_token(&mut tokens, m);
            }
            let t = lexer.tokens[k].clone();
            push_token(&mut tokens, t);
        }
        k += 1;
    }
    lexer.tokens = tokens;
    lexer.pos = 0;
    assert(lexer.tokens@.skip(0) =~= lexer.tokens@);
}

} // verus!
