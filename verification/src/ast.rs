//! The layout tree: what presentation MathML says, and what it was understood to mean.
use vstd::prelude::*;

verus! {

/// How a vector is marked.
#[derive(Debug, PartialEq, Eq, Clone, Copy, Hash, Structural)]
pub enum VectorNotation {
    Bold,
    Arrow,
}

/// The notation a derivative was written in.
#[derive(Debug, PartialEq, Eq, Clone, Copy, Hash, Structural)]
pub enum DerivativeNotation {
    LeibnizTotal,
    LeibnizPartialStandard,
    LeibnizPartialCompact,
    Newton,
    DNotation,
    Lagrange,
}

/// A content identifier: a name, the variables it is a function of, and its vector mark.
#[derive(Debug, PartialEq, Eq, Hash)]
pub struct Ci {
    pub content: Box<MathExpression>,
    pub func_of: Option<Vec<Ci>>,
    pub notation: Option<VectorNotation>,
}

/// A derivative: its order, the index of its variable, the variable, and how it was written.
#[derive(Debug, PartialEq, Eq, Hash)]
pub struct Derivative {
    pub order: u8,
    pub var_index: u8,
    pub bound_var: Ci,
    pub notation: DerivativeNotation,
}

/// How a logarithm was written: natural, plain, or with a base.
#[derive(Debug, PartialEq, Eq, Hash)]
pub enum LogarithmNotation {
    Ln,
    Log,
    LogBase(Box<MathExpression>),
}

/// A logarithm.
#[derive(Debug, PartialEq, Eq, Hash)]
pub struct Logarithm {
    pub notation: LogarithmNotation,
}

/// A sum, with the bounds it has.
#[derive(Debug, PartialEq, Eq, Hash)]
pub struct Summation {
    pub lower_bound: Option<Box<MathExpression>>,
    pub upper_bound: Option<Box<MathExpression>>,
}

/// An integral, with the limits it has and its variable.
#[derive(Debug, PartialEq, Eq, Hash)]
pub struct Int {
    pub lower_limit: Option<Box<MathExpression>>,
    pub upper_limit: Option<Box<MathExpression>>,
    pub integration_variable: Box<MathExpression>,
}

/// A gradient, with the subscript it has.
#[derive(Debug, PartialEq, Eq, Hash)]
pub struct Gradient {
    pub subscript: Option<Box<MathExpression>>,
}

/// A hat, with what stands under it.
#[derive(Debug, PartialEq, Eq, Hash)]
pub struct Hat {
    pub comp: Box<MathExpression>,
}

/// An operator, with what it carries.
#[derive(Debug, PartialEq, Eq, Hash)]
pub enum Operator {
    Add,
    Multiply,
    Equals,
    Divide,
    Subtract,
    Sqrt,
    Lparen,
    Rparen,
    Compose,
    Comma,
    Factorial,
    Derivative(Derivative),
    Sin,
    Cos,
    Tan,
    Sec,
    Csc,
    Cot,
    Arcsin,
    Arccos,
    Arctan,
    Arcsec,
    Arccsc,
    Arccot,
    Exp,
    Power,
    Gradient(Gradient),
    Dot,
    Div,
    Abs,
    Summation(Summation),
    Int(Int),
    Cross,
    Hat(Hat),
    Mean,
    Vector,
    Laplacian,
    SurfaceInt,
    Min,
    Logarithm(Logarithm),
    /// Any operator that has no variant of its own, by its text.
    Other(String),
}

/// A differential operator with what it applies to.
#[derive(Debug, PartialEq, Eq, Hash)]
pub struct Differential {
    pub diff: Box<MathExpression>,
    pub func: Box<MathExpression>,
}

/// A sum with what is summed.
#[derive(Debug, PartialEq, Eq, Hash)]
pub struct SummationMath {
    pub op: Box<MathExpression>,
    pub func: Box<MathExpression>,
}

/// The exponential with its argument.
#[derive(Debug, PartialEq, Eq, Hash)]
pub struct ExpMath {
    pub op: Box<MathExpression>,
    pub func: Box<MathExpression>,
}

/// An integral with its integrand and its variable.
#[derive(Debug, PartialEq, Eq, Hash)]
pub struct Integral {
    pub op: Box<MathExpression>,
    pub integrand: Box<MathExpression>,
    pub integration_variable: Box<MathExpression>,
}

/// A hat with what it applies to.
#[derive(Debug, PartialEq, Eq, Hash)]
pub struct HatComp {
    pub op: Box<MathExpression>,
    pub comp: Box<MathExpression>,
}

/// The Laplacian with the name it applies to.
#[derive(Debug, PartialEq, Eq, Hash)]
pub struct LaplacianComp {
    pub op: Box<MathExpression>,
    pub comp: Ci,
}

/// A name with an arrow down, and its scripts.
#[derive(Debug, PartialEq, Eq, Hash)]
pub struct DownArrow {
    pub sub: Option<Box<MathExpression>>,
    pub sup: Option<Box<MathExpression>>,
    pub comp: Box<MathExpression>,
}

/// A node of the layout tree.
#[derive(Debug, PartialEq, Eq, Hash)]
pub enum MathExpression {
    Mi(String),
    Mo(Operator),
    Mn(String),
    Msqrt(Box<MathExpression>),
    Mrow(Vec<MathExpression>),
    Mfrac(Box<MathExpression>, Box<MathExpression>),
    Msup(Box<MathExpression>, Box<MathExpression>),
    Msub(Box<MathExpression>, Box<MathExpression>),
    Munder(Box<MathExpression>, Box<MathExpression>),
    Mover(Box<MathExpression>, Box<MathExpression>),
    Msubsup(Box<MathExpression>, Box<MathExpression>, Box<MathExpression>),
    Munderover(Box<MathExpression>, Box<MathExpression>, Box<MathExpression>),
    Mtext(String),
    Mspace(String),
    Ci(Ci),
    Differential(Differential),
    SummationMath(SummationMath),
    AbsoluteSup(Box<MathExpression>, Box<MathExpression>),
    Absolute(Box<MathExpression>, Box<MathExpression>),
    HatComp(HatComp),
    Integral(Integral),
    LaplacianComp(LaplacianComp),
    SurfaceIntegral(Box<MathExpression>),
    DownArrow(DownArrow),
    Minimize(Box<MathExpression>, Vec<MathExpression>),
    ExpMath(ExpMath),
}

/// A document: the expressions that stand side by side under `math`.
#[derive(Debug, PartialEq, Eq)]
pub struct Math {
    pub content: Vec<MathExpression>,
}

// ------------------------------------------------------------------ the model

/// The model of a content identifier.
pub struct CiView {
    pub content: Box<ExprView>,
    pub func_of: Option<Seq<CiView>>,
    pub notation: Option<VectorNotation>,
}

/// The model of the notation of a logarithm.
pub enum LogView {
    Ln,
    Log,
    LogBase(Box<ExprView>),
}

/// The model of an operator: texts are sequences of characters, nodes are models.
pub enum OpView {
    Add,
    Multiply,
    Equals,
    Divide,
    Subtract,
    Sqrt,
    Lparen,
    Rparen,
    Compose,
    Comma,
    Factorial,
    Derivative { order: u8, var_index: u8, bound_var: CiView, notation: DerivativeNotation },
    Sin,
    Cos,
    Tan,
    Sec,
    Csc,
    Cot,
    Arcsin,
    Arccos,
    Arctan,
    Arcsec,
    Arccsc,
    Arccot,
    Exp,
    Power,
    Gradient { subscript: Option<Box<ExprView>> },
    Dot,
    Div,
    Abs,
    Summation { lower: Option<Box<ExprView>>, upper: Option<Box<ExprView>> },
    Int { lower: Option<Box<ExprView>>, upper: Option<Box<ExprView>>, variable: Box<ExprView> },
    Cross,
    Hat { comp: Box<ExprView> },
    Mean,
    Vector,
    Laplacian,
    SurfaceInt,
    Min,
    Logarithm(LogView),
    Other(Seq<char>),
}

/// The model of a node of the layout tree.
pub enum ExprView {
    Mi(Seq<char>),
    Mo(OpView),
    Mn(Seq<char>),
    Msqrt(Box<ExprView>),
    Mrow(Seq<ExprView>),
    Mfrac(Box<ExprView>, Box<ExprView>),
    Msup(Box<ExprView>, Box<ExprView>),
    Msub(Box<ExprView>, Box<ExprView>),
    Munder(Box<ExprView>, Box<ExprView>),
    Mover(Box<ExprView>, Box<ExprView>),
    Msubsup(Box<ExprView>, Box<ExprView>, Box<ExprView>),
    Munderover(Box<ExprView>, Box<ExprView>, Box<ExprView>),
    Mtext(Seq<char>),
    Mspace(Seq<char>),
    Ci(CiView),
    Differential { diff: Box<ExprView>, func: Box<ExprView> },
    SummationMath { op: Box<ExprView>, func: Box<ExprView> },
    AbsoluteSup(Box<ExprView>, Box<ExprView>),
    Absolute(Box<ExprView>, Box<ExprView>),
    HatComp { op: Box<ExprView>, comp: Box<ExprView> },
    Integral { op: Box<ExprView>, integrand: Box<ExprView>, variable: Box<ExprView> },
    LaplacianComp { op: Box<ExprView>, name: CiView },
    SurfaceIntegral(Box<ExprView>),
    DownArrow { sub: Option<Box<ExprView>>, sup: Option<Box<ExprView>>, comp: Box<ExprView> },
    Minimize(Box<ExprView>, Seq<ExprView>),
    ExpMath { op: Box<ExprView>, func: Box<ExprView> },
}

/// The model of a node that may be missing.
pub open spec fn view_opt(o: Option<Box<MathExpression>>) -> Option<Box<ExprView>>
    decreases o,
{
    match o {
        Some(b) => Some(Box::new(view_expr(*b))),
        None => None,
    }
}

/// The models of the nodes of a list.
pub open spec fn view_exprs(v: Seq<MathExpression>) -> Seq<ExprView>
    decreases v,
{
    Seq::new(
        v.len(),
        |i: int|
            if 0 <= i < v.len() {
                view_expr(v[i])
            } else {
                ExprView::Mrow(Seq::empty())
            },
    )
}

/// The models of the names of a list.
pub open spec fn view_cis(v: Seq<Ci>) -> Seq<CiView>
    decreases v,
{
    Seq::new(
        v.len(),
        |i: int|
            if 0 <= i < v.len() {
                view_ci(v[i])
            } else {
                CiView { content: Box::new(ExprView::Mrow(Seq::empty())), func_of: None, notation: None }
            },
    )
}

/// The model of a content identifier.
pub open spec fn view_ci(c: Ci) -> CiView
    decreases c,
{
    CiView {
        content: Box::new(view_expr(*c.content)),
        func_of: match c.func_of {
            Some(v) => Some(view_cis(v@)),
            None => None,
        },
        notation: c.notation,
    }
}

/// The model of an operator.
pub open spec fn view_op(o: Operator) -> OpView
    decreases o,
{
    match o {
        Operator::Add => OpView::Add,
        Operator::Multiply => OpView::Multiply,
        Operator::Equals => OpView::Equals,
        Operator::Divide => OpView::Divide,
        Operator::Subtract => OpView::Subtract,
        Operator::Sqrt => OpView::Sqrt,
        Operator::Lparen => OpView::Lparen,
        Operator::Rparen => OpView::Rparen,
        Operator::Compose => OpView::Compose,
        Operator::Comma => OpView::Comma,
        Operator::Factorial => OpView::Factorial,
        Operator::Derivative(d) => OpView::Derivative {
            order: d.order,
            var_index: d.var_index,
            bound_var: view_ci(d.bound_var),
            notation: d.notation,
        },
        Operator::Sin => OpView::Sin,
        Operator::Cos => OpView::Cos,
        Operator::Tan => OpView::Tan,
        Operator::Sec => OpView::Sec,
        Operator::Csc => OpView::Csc,
        Operator::Cot => OpView::Cot,
        Operator::Arcsin => OpView::Arcsin,
        Operator::Arccos => OpView::Arccos,
        Operator::Arctan => OpView::Arctan,
        Operator::Arcsec => OpView::Arcsec,
        Operator::Arccsc => OpView::Arccsc,
        Operator::Arccot => OpView::Arccot,
        Operator::Exp => OpView::Exp,
        Operator::Power => OpView::Power,
        Operator::Gradient(g) => OpView::Gradient { subscript: view_opt(g.subscript) },
        Operator::Dot => OpView::Dot,
        Operator::Div => OpView::Div,
        Operator::Abs => OpView::Abs,
        Operator::Summation(s) => OpView::Summation {
            lower: view_opt(s.lower_bound),
            upper: view_opt(s.upper_bound),
        },
        Operator::Int(x) => OpView::Int {
            lower: view_opt(x.lower_limit),
            upper: view_opt(x.upper_limit),
            variable: Box::new(view_expr(*x.integration_variable)),
        },
        Operator::Cross => OpView::Cross,
        Operator::Hat(h) => OpView::Hat { comp: Box::new(view_expr(*h.comp)) },
        Operator::Mean => OpView::Mean,
        Operator::Vector => OpView::Vector,
        Operator::Laplacian => OpView::Laplacian,
        Operator::SurfaceInt => OpView::SurfaceInt,
        Operator::Min => OpView::Min,
        Operator::Logarithm(l) => OpView::Logarithm(
            match l.notation {
                LogarithmNotation::Ln => LogView::Ln,
                LogarithmNotation::Log => LogView::Log,
                LogarithmNotation::LogBase(b) => LogView::LogBase(Box::new(view_expr(*b))),
            },
        ),
        Operator::Other(s) => OpView::Other(s@),
    }
}

/// The model of a node.
pub open spec fn view_expr(e: MathExpression) -> ExprView
    decreases e,
{
    match e {
        MathExpression::Mi(s) => ExprView::Mi(s@),
        MathExpression::Mo(o) => ExprView::Mo(view_op(o)),
        MathExpression::Mn(s) => ExprView::Mn(s@),
        MathExpression::Msqrt(a) => ExprView::Msqrt(Box::new(view_expr(*a))),
        MathExpression::Mrow(v) => ExprView::Mrow(view_exprs(v@)),
        MathExpression::Mfrac(a, b) => ExprView::Mfrac(Box::new(view_expr(*a)), Box::new(view_expr(*b))),
        MathExpression::Msup(a, b) => ExprView::Msup(Box::new(view_expr(*a)), Box::new(view_expr(*b))),
        MathExpression::Msub(a, b) => ExprView::Msub(Box::new(view_expr(*a)), Box::new(view_expr(*b))),
        MathExpression::Munder(a, b) => ExprView::Munder(Box::new(view_expr(*a)), Box::new(view_expr(*b))),
        MathExpression::Mover(a, b) => ExprView::Mover(Box::new(view_expr(*a)), Box::new(view_expr(*b))),
        MathExpression::Msubsup(a, b, c) => ExprView::Msubsup(
            Box::new(view_expr(*a)),
            Box::new(view_expr(*b)),
            Box::new(view_expr(*c)),
        ),
        MathExpression::Munderover(a, b, c) => ExprView::Munderover(
            Box::new(view_expr(*a)),
            Box::new(view_expr(*b)),
            Box::new(view_expr(*c)),
        ),
        MathExpression::Mtext(s) => ExprView::Mtext(s@),
        MathExpression::Mspace(s) => ExprView::Mspace(s@),
        MathExpression::Ci(c) => ExprView::Ci(view_ci(c)),
        MathExpression::Differential(d) => ExprView::Differential {
            diff: Box::new(view_expr(*d.diff)),
            func: Box::new(view_expr(*d.func)),
        },
        MathExpression::SummationMath(d) => ExprView::SummationMath {
            op: Box::new(view_expr(*d.op)),
            func: Box::new(view_expr(*d.func)),
        },
        MathExpression::AbsoluteSup(a, b) => ExprView::AbsoluteSup(
            Box::new(view_expr(*a)),
            Box::new(view_expr(*b)),
        ),
        MathExpression::Absolute(a, b) => ExprView::Absolute(Box::new(view_expr(*a)), Box::new(view_expr(*b))),
        MathExpression::HatComp(d) => ExprView::HatComp {
            op: Box::new(view_expr(*d.op)),
            comp: Box::new(view_expr(*d.comp)),
        },
        MathExpression::Integral(d) => ExprView::Integral {
            op: Box::new(view_expr(*d.op)),
            integrand: Box::new(view_expr(*d.integrand)),
            variable: Box::new(view_expr(*d.integration_variable)),
        },
        MathExpression::LaplacianComp(d) => ExprView::LaplacianComp {
            op: Box::new(view_expr(*d.op)),
            name: view_ci(d.comp),
        },
        MathExpression::SurfaceIntegral(a) => ExprView::SurfaceIntegral(Box::new(view_expr(*a))),
        MathExpression::DownArrow(d) => ExprView::DownArrow {
            sub: view_opt(d.sub),
            sup: view_opt(d.sup),
            comp: Box::new(view_expr(*d.comp)),
        },
        MathExpression::Minimize(a, v) => ExprView::Minimize(Box::new(view_expr(*a)), view_exprs(v@)),
        MathExpression::ExpMath(d) => ExprView::ExpMath {
            op: Box::new(view_expr(*d.op)),
            func: Box::new(view_expr(*d.func)),
        },
    }
}

/// The model of the names that a function is of.
pub open spec fn view_args(o: Option<Vec<Ci>>) -> Option<Seq<CiView>> {
    match o {
        Some(v) => Some(view_cis(v@)),
        None => None,
    }
}

/// The model of a node that may be missing.
pub open spec fn view_maybe(o: Option<MathExpression>) -> Option<Box<ExprView>> {
    match o {
        Some(e) => Some(Box::new(e@)),
        None => None,
    }
}

impl View for MathExpression {
    type V = ExprView;

    open spec fn view(&self) -> ExprView {
        view_expr(*self)
    }
}

impl View for Operator {
    type V = OpView;

    open spec fn view(&self) -> OpView {
        view_op(*self)
    }
}

impl View for Ci {
    type V = CiView;

    open spec fn view(&self) -> CiView {
        view_ci(*self)
    }
}

impl View for Math {
    type V = Seq<ExprView>;

    open spec fn view(&self) -> Seq<ExprView> {
        view_exprs(self.content@)
    }
}

// ------------------------------------------------------------------ copies

/// A copy of a node that may be missing.
pub fn clone_opt(o: &Option<Box<MathExpression>>) -> (r: Option<Box<MathExpression>>)
    ensures
        view_opt(r) == view_opt(*o),
    decreases o,
{
    match o {
        Some(b) => Some(Box::new(clone_expr(b))),
        None => None,
    }
}

/// A copy of a list of nodes.
pub fn clone_exprs(v: &Vec<MathExpression>) -> (r: Vec<MathExpression>)
    ensures
        view_exprs(r@) == view_exprs(v@),
    decreases v,
{
    let mut r: Vec<MathExpression> = Vec::new();
    let mut i: usize = 0;
    while i < v.len()
        invariant
            i <= v.len(),
            r.len() == i,
            forall|j: int| 0 <= j < i ==> view_expr(#[trigger] r@[j]) == view_expr(v@[j]),
        decreases v.len() - i,
    {
        let c = clone_expr(&v[i]);
        r.push(c);
        i += 1;
    }
    assert(view_exprs(r@) =~= view_exprs(v@));
    r
}

/// A copy of a list of names.
pub fn clone_cis(v: &Vec<Ci>) -> (r: Vec<Ci>)
    ensures
        view_cis(r@) == view_cis(v@),
    decreases v,
{
    let mut r: Vec<Ci> = Vec::new();
    let mut i: usize = 0;
    while i < v.len()
        invariant
            i <= v.len(),
            r.len() == i,
            forall|j: int| 0 <= j < i ==> view_ci(#[trigger] r@[j]) == view_ci(v@[j]),
        decreases v.len() - i,
    {
        let c = clone_ci(&v[i]);
        r.push(c);
        i += 1;
    }
    assert(view_cis(r@) =~= view_cis(v@));
    r
}

/// A copy of a content identifier.
pub fn clone_ci(c: &Ci) -> (r: Ci)
    ensures
        view_ci(r) == view_ci(*c),
    decreases c,
{
    Ci {
        content: Box::new(clone_expr(&c.content)),
        func_of: match &c.func_of {
            Some(v) => Some(clone_cis(v)),
            None => None,
        },
        notation: c.notation,
    }
}

/// A copy of an operator.
pub fn clone_op(o: &Operator) -> (r: Operator)
    ensures
        view_op(r) == view_op(*o),
    decreases o,
{
    match o {
        Operator::Add => Operator::Add,
        Operator::Multiply => Operator::Multiply,
        Operator::Equals => Operator::Equals,
        Operator::Divide => Operator::Divide,
        Operator::Subtract => Operator::Subtract,
        Operator::Sqrt => Operator::Sqrt,
        Operator::Lparen => Operator::Lparen,
        Operator::Rparen => Operator::Rparen,
        Operator::Compose => Operator::Compose,
        Operator::Comma => Operator::Comma,
        Operator::Factorial => Operator::Factorial,
        Operator::Derivative(d) => Operator::Derivative(
            Derivative {
                order: d.order,
                var_index: d.var_index,
                bound_var: clone_ci(&d.bound_var),
                notation: d.notation,
            },
        ),
        Operator::Sin => Operator::Sin,
        Operator::Cos => Operator::Cos,
        Operator::Tan => Operator::Tan,
        Operator::Sec => Operator::Sec,
        Operator::Csc => Operator::Csc,
        Operator::Cot => Operator::Cot,
        Operator::Arcsin => Operator::Arcsin,
        Operator::Arccos => Operator::Arccos,
        Operator::Arctan => Operator::Arctan,
        Operator::Arcsec => Operator::Arcsec,
        Operator::Arccsc => Operator::Arccsc,
        Operator::Arccot => Operator::Arccot,
        Operator::Exp => Operator::Exp,
        Operator::Power => Operator::Power,
        Operator::Gradient(g) => Operator::Gradient(Gradient { subscript: clone_opt(&g.subscript) }),
        Operator::Dot => Operator::Dot,
        Operator::Div => Operator::Div,
        Operator::Abs => Operator::Abs,
        Operator::Summation(s) => Operator::Summation(
            Summation { lower_bound: clone_opt(&s.lower_bound), upper_bound: clone_opt(&s.upper_bound) },
        ),
        Operator::Int(x) => Operator::Int(
            Int {
                lower_limit: clone_opt(&x.lower_limit),
                upper_limit: clone_opt(&x.upper_limit),
                integration_variable: Box::new(clone_expr(&x.integration_variable)),
            },
        ),
        Operator::Cross => Operator::Cross,
        Operator::Hat(h) => Operator::Hat(Hat { comp: Box::new(clone_expr(&h.comp)) }),
        Operator::Mean => Operator::Mean,
        Operator::Vector => Operator::Vector,
        Operator::Laplacian => Operator::Laplacian,
        Operator::SurfaceInt => Operator::SurfaceInt,
        Operator::Min => Operator::Min,
        Operator::Logarithm(l) => Operator::Logarithm(
            Logarithm {
                notation: match &l.notation {
                    LogarithmNotation::Ln => LogarithmNotation::Ln,
                    LogarithmNotation::Log => LogarithmNotation::Log,
                    LogarithmNotation::LogBase(b) => LogarithmNotation::LogBase(Box::new(clone_expr(b))),
                },
            },
        ),
        Operator::Other(s) => Operator::Other(s.clone()),
    }
}

/// A copy of a node.
pub fn clone_expr(e: &MathExpression) -> (r: MathExpression)
    ensures
        view_expr(r) == view_expr(*e),
    decreases e,
{
    match e {
        MathExpression::Mi(s) => MathExpression::Mi(s.clone()),
        MathExpression::Mo(o) => MathExpression::Mo(clone_op(o)),
        MathExpression::Mn(s) => MathExpression::Mn(s.clone()),
        MathExpression::Msqrt(a) => MathExpression::Msqrt(Box::new(clone_expr(a))),
        MathExpression::Mrow(v) => MathExpression::Mrow(clone_exprs(v)),
        MathExpression::Mfrac(a, b) => MathExpression::Mfrac(Box::new(clone_expr(a)), Box::new(clone_expr(b))),
        MathExpression::Msup(a, b) => MathExpression::Msup(Box::new(clone_expr(a)), Box::new(clone_expr(b))),
        MathExpression::Msub(a, b) => MathExpression::Msub(Box::new(clone_expr(a)), Box::new(clone_expr(b))),
        MathExpression::Munder(a, b) => MathExpression::Munder(Box::new(clone_expr(a)), Box::new(clone_expr(b))),
        MathExpression::Mover(a, b) => MathExpression::Mover(Box::new(clone_expr(a)), Box::new(clone_expr(b))),
        MathExpression::Msubsup(a, b, c) => MathExpression::Msubsup(
            Box::new(clone_expr(a)),
            Box::new(clone_expr(b)),
            Box::new(clone_expr(c)),
        ),
        MathExpression::Munderover(a, b, c) => MathExpression::Munderover(
            Box::new(clone_expr(a)),
            Box::new(clone_expr(b)),
            Box::new(clone_expr(c)),
        ),
        MathExpression::Mtext(s) => MathExpression::Mtext(s.clone()),
        MathExpression::Mspace(s) => MathExpression::Mspace(s.clone()),
        MathExpression::Ci(c) => MathExpression::Ci(clone_ci(c)),
        MathExpression::Differential(d) => MathExpression::Differential(
            Differential { diff: Box::new(clone_expr(&d.diff)), func: Box::new(clone_expr(&d.func)) },
        ),
        MathExpression::SummationMath(d) => MathExpression::SummationMath(
            SummationMath { op: Box::new(clone_expr(&d.op)), func: Box::new(clone_expr(&d.func)) },
        ),
        MathExpression::AbsoluteSup(a, b) => MathExpression::AbsoluteSup(
            Box::new(clone_expr(a)),
            Box::new(clone_expr(b)),
        ),
        MathExpression::Absolute(a, b) => MathExpression::Absolute(Box::new(clone_expr(a)), Box::new(clone_expr(b))),
        MathExpression::HatComp(d) => MathExpression::HatComp(
            HatComp { op: Box::new(clone_expr(&d.op)), comp: Box::new(clone_expr(&d.comp)) },
        ),
        MathExpression::Integral(d) => MathExpression::Integral(
            Integral {
                op: Box::new(clone_expr(&d.op)),
                integrand: Box::new(clone_expr(&d.integrand)),
                integration_variable: Box::new(clone_expr(&d.integration_variable)),
            },
        ),
        MathExpression::LaplacianComp(d) => MathExpression::LaplacianComp(
            LaplacianComp { op: Box::new(clone_expr(&d.op)), comp: clone_ci(&d.comp) },
        ),
        MathExpression::SurfaceIntegral(a) => MathExpression::SurfaceIntegral(Box::new(clone_expr(a))),
        MathExpression::DownArrow(d) => MathExpression::DownArrow(
            DownArrow { sub: clone_opt(&d.sub), sup: clone_opt(&d.sup), comp: Box::new(clone_expr(&d.comp)) },
        ),
        MathExpression::Minimize(a, v) => MathExpression::Minimize(Box::new(clone_expr(a)), clone_exprs(v)),
        MathExpression::ExpMath(d) => MathExpression::ExpMath(
            ExpMath { op: Box::new(clone_expr(&d.op)), func: Box::new(clone_expr(&d.func)) },
        ),
    }
}

impl Clone for MathExpression {
    fn clone(&self) -> (r: Self)
        ensures
            r@ == self@,
    {
        clone_expr(self)
    }
}

impl Clone for Operator {
    fn clone(&self) -> (r: Self)
        ensures
            r@ == self@,
    {
        clone_op(self)
    }
}

impl Clone for Ci {
    fn clone(&self) -> (r: Self)
        ensures
            r@ == self@,
    {
        clone_ci(self)
    }
}

} // verus!
