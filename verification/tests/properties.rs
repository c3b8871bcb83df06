use mathml::ast::{Ci, Int, MathExpression, Operator};
use mathml::lexer::Lexer;
use mathml::ode::first_order_ode;
use mathml::pratt::{
    expr, expr_bp, flatten_min_op, try_expr, try_expr_bp, try_flatten_min_op, ExprError,
};
use mathml::text::{preprocess_mathml_for_to_latex, replace_unicode_with_symbols, unicode_to_latex};
use mathml::translate::{display_of, TranslateError};
use mathml::tree::{MathExpressionTree, Token};

fn mi(text: &str) -> MathExpression {
    MathExpression::Mi(text.to_string())
}

fn atom(text: &str) -> MathExpressionTree {
    MathExpressionTree::Atom(mi(text))
}

fn name(text: &str) -> Ci {
    Ci { content: Box::new(mi(text)), func_of: None, notation: None }
}

#[test]
fn normalising_twice_is_normalising_once() {
    for input in [
        "<math>\n  <mi>x</mi> \t <mo>+</mo>\n</math>\n",
        "> < >  <",
        "> > <",
        ">\u{a0}\u{2003}<a> b <",
        "",
        "no tags at all\n",
    ] {
        let once = preprocess_mathml_for_to_latex(input);
        assert_eq!(preprocess_mathml_for_to_latex(&once), once);
    }
    assert_eq!(preprocess_mathml_for_to_latex("> < >  <"), ">< ><");
    assert_eq!(preprocess_mathml_for_to_latex(">\u{a0}\u{2003}<a> b <"), "><a> b <");
}

#[test]
fn prefix_operators_bind_tighter_than_a_sum() {
    for (f, shown) in [
        (Operator::Sin, "Sin"),
        (Operator::Cos, "Cos"),
        (Operator::Tan, "Tan"),
        (Operator::Exp, "exp"),
        (Operator::Sqrt, "\u{221a}"),
        (Operator::Abs, "Abs"),
        (Operator::Subtract, "-"),
    ] {
        let input = vec![MathExpression::Mo(f), mi("x"), MathExpression::Mo(Operator::Add), mi("y")];
        assert_eq!(expr(input).to_string(), format!("(+ ({} x) y)", shown));
    }
    let s = "<math><mrow><mi>sin</mi><mi>x</mi><mo>+</mo><mi>y</mi></mrow></math>".parse::<MathExpressionTree>().unwrap();
    assert_eq!(s.to_string(), "(+ (Sin x) y)");
}

#[test]
fn a_fraction_is_a_division_whatever_stands_in_it() {
    let input = "<math><mfrac><mrow><mi>a</mi><mi>b</mi></mrow><mrow><mi>c</mi><mi>u</mi><mi>v</mi></mrow></mfrac></math>";
    let s = input.parse::<MathExpressionTree>().unwrap();
    assert_eq!(s.to_string(), "(/ (* a b) (* (* c u) v))");
    let num = "<math><mrow><mi>a</mi><mi>b</mi></mrow></math>".parse::<MathExpressionTree>().unwrap();
    let den = "<math><mrow><mi>c</mi><mi>u</mi><mi>v</mi></mrow></math>".parse::<MathExpressionTree>().unwrap();
    assert_eq!(s, MathExpressionTree::Cons(Operator::Divide, vec![num, den]));
}

#[test]
fn the_prefix_form_is_repeatable() {
    let input = vec![mi("a"), MathExpression::Mo(Operator::Equals), mi("x"), MathExpression::Mo(Operator::Add), mi("y"), mi("z")];
    let first = display_of(input.clone()).unwrap();
    let second = display_of(input).unwrap();
    assert_eq!(first, second);
    assert_eq!(first, "(= a (+ x (* y z)))");
}

#[test]
fn power_of_e_is_the_exponential() {
    let s = "<math><msup><mi>e</mi><mrow><mi>x</mi><mo>+</mo><mn>1</mn></mrow></msup></math>".parse::<MathExpressionTree>().unwrap();
    match &s {
        MathExpressionTree::Cons(Operator::Exp, args) => assert_eq!(args.len(), 1),
        other => panic!("{:?}", other),
    }
    assert_eq!(s.to_string(), "(exp (+ x 1))");
}

fn integral(lower: Option<&str>, upper: Option<&str>) -> MathExpressionTree {
    let op = Operator::Int(Int {
        lower_limit: lower.map(|t| Box::new(mi(t))),
        upper_limit: upper.map(|t| Box::new(mi(t))),
        integration_variable: Box::new(mi("x")),
    });
    MathExpressionTree::Cons(op, vec![MathExpressionTree::Cons(Operator::Add, vec![atom("f"), atom("g")])])
}

#[test]
fn integrals_with_and_without_limits() {
    assert_eq!(integral(Some("a"), Some("b")).to_latex(), "\\int_{a}^{b}f+g dx");
    assert_eq!(integral(Some("a"), None).to_latex(), "\\int_{a}f+g");
    assert_eq!(integral(None, Some("b")).to_latex(), "\\int^{b}f+g");
    assert_eq!(integral(None, None).to_latex(), "\\int (f+g)");
    assert_eq!(integral(Some("a"), Some("b")).to_string(), "(Int_{a}^{b}(x) (+ f g))");
    assert_eq!(integral(None, None).to_string(), "(Int(x) (+ f g))");
}

#[test]
fn minima_are_drawn_together() {
    let s = "<math><mi>min</mi><mo>(</mo><mi>A</mi><mo>,</mo><mi>B</mi><mo>,</mo><mi>C</mi><mo>,</mo><mi>D</mi><mo>)</mo></math>"
        .parse::<MathExpressionTree>()
        .unwrap();
    match &s {
        MathExpressionTree::Cons(Operator::Min, args) => assert_eq!(args.len(), 4),
        other => panic!("{:?}", other),
    }
    assert_eq!(s.to_latex(), "\\min \\{ B,C,D,A\\}");
    let nested = MathExpressionTree::Cons(
        Operator::Min,
        vec![atom("a"), MathExpressionTree::Cons(Operator::Min, vec![atom("b"), atom("c")])],
    );
    assert_eq!(flatten_min_op(nested).to_string(), "(Min a b c)");
    let first = MathExpressionTree::Cons(
        Operator::Min,
        vec![MathExpressionTree::Cons(Operator::Min, vec![atom("p"), atom("q")]), atom("r")],
    );
    assert_eq!(flatten_min_op(first).to_string(), "(Min r p q)");
    let sum = MathExpressionTree::Cons(
        Operator::Add,
        vec![
            atom("a"),
            atom("b"),
            MathExpressionTree::Cons(
                Operator::Min,
                vec![atom("c"), MathExpressionTree::Cons(Operator::Min, vec![atom("d"), atom("e")])],
            ),
        ],
    );
    assert_eq!(flatten_min_op(sum).to_string(), "(+ a b (Min c d e))");
    assert_eq!(
        try_flatten_min_op(MathExpressionTree::Cons(Operator::Min, vec![atom("a")])),
        Err(ExprError::MinShape)
    );
    assert_eq!(try_flatten_min_op(MathExpressionTree::Cons(Operator::Add, vec![])), Err(ExprError::MinShape));
    assert_eq!(try_flatten_min_op(atom("a")), Ok(atom("a")));
    assert_eq!(MathExpressionTree::Cons(Operator::Min, vec![]).to_latex(), "\\min \\{\\}");
}

#[test]
fn what_is_no_expression() {
    assert_eq!(try_expr(vec![]), Err(ExprError::UnexpectedEnd));
    assert_eq!(try_expr(vec![mi("a"), MathExpression::Mo(Operator::Add)]), Err(ExprError::UnexpectedEnd));
    assert_eq!(
        try_expr(vec![mi("a"), MathExpression::Mo(Operator::Factorial), mi("b")]),
        Err(ExprError::UnexpectedAtom)
    );
    assert_eq!(try_expr(vec![MathExpression::Mo(Operator::Lparen), mi("a")]), Err(ExprError::MissingRparen));
    assert_eq!(try_expr(vec![MathExpression::Mo(Operator::Multiply), mi("a")]), Err(ExprError::NoPrefixRule));
    assert_eq!(
        try_expr(vec![mi("a"), MathExpression::Mo(Operator::Other("?".to_string())), mi("b")]),
        Err(ExprError::UnhandledOperator)
    );
    assert_eq!(try_expr(vec![MathExpression::Mo(Operator::Min), mi("a")]), Err(ExprError::MinShape));
    assert_eq!(
        "<math><mi>min</mi><mo>(</mo><mi>A</mi><mo>)</mo></math>".parse::<MathExpressionTree>(),
        Err(TranslateError::Expression(ExprError::MinShape))
    );
    assert_eq!("<math></math>".parse::<MathExpressionTree>(), Err(TranslateError::Expression(ExprError::UnexpectedEnd)));
    assert!(matches!("<math><mi>x</mi>".parse::<MathExpressionTree>(), Err(TranslateError::Markup(_))));
    assert_eq!(
        first_order_ode("<math><mi>x</mi><mo>=</mo><mi>y</mi></math>"),
        Err(TranslateError::NotAnEquation)
    );
}

#[test]
fn expressions_side_by_side_are_multiplied() {
    let input = vec![mi("x"), MathExpression::Mo(Operator::Cos), mi("y")];
    assert_eq!(
        expr(input),
        MathExpressionTree::Cons(
            Operator::Multiply,
            vec![atom("x"), MathExpressionTree::Cons(Operator::Cos, vec![atom("y")])]
        )
    );
    let input = vec![mi("a"), MathExpression::Mo(Operator::Sin), mi("b"), MathExpression::Mo(Operator::Cos), mi("c")];
    assert_eq!(expr(input).to_string(), "(* a (Sin b) (Cos c))");
    let input = vec![mi("a"), MathExpression::Mo(Operator::Sin), MathExpression::Mo(Operator::Rparen)];
    assert_eq!(try_expr(input), Err(ExprError::NoPrefixRule));
    let input = vec![mi("a"), MathExpression::Mo(Operator::Rparen), mi("b")];
    assert_eq!(try_expr(input), Err(ExprError::NoPrefixRule));
}

#[test]
fn brackets_that_meet_are_multiplied() {
    let s = "<math><mrow><mi>a</mi><mo>+</mo><mi>b</mi></mrow><mrow><mi>c</mi><mo>-</mo><mi>d</mi></mrow></math>"
        .parse::<MathExpressionTree>()
        .unwrap();
    assert_eq!(s.to_string(), "(* (+ a b) (- c d))");
    assert_eq!(s.to_latex(), "(a+b)*(c-d)");
    assert_eq!(s.to_infix_expression(), "((a+b)*(c-d))");
    assert_eq!(
        s.to_cmml(),
        "<apply><times/><apply><plus/><ci>a</ci><ci>b</ci></apply><apply><minus/><ci>c</ci><ci>d</ci></apply></apply>"
    );
}

#[test]
fn the_lexer_hands_out_tokens_from_the_left() {
    let mut lexer = Lexer::new(vec![mi("a"), mi("b")]);
    assert_eq!(lexer.peek(), Token::Atom(mi("a")));
    assert_eq!(lexer.next(), Token::Atom(mi("a")));
    assert_eq!(lexer.next(), Token::Op(Operator::Multiply));
    assert!(!lexer.is_empty());
    assert_eq!(lexer.next(), Token::Atom(mi("b")));
    assert_eq!(lexer.next(), Token::Eof);
    assert_eq!(lexer.peek(), Token::Eof);
    assert!(lexer.is_empty());
    let mut lexer = Lexer::new(vec![mi("a"), MathExpression::Mo(Operator::Power), mi("b"), MathExpression::Mo(Operator::Power), mi("c")]);
    assert_eq!(expr_bp(&mut lexer, 0).to_string(), "(^ (^ a b) c)");
    assert!(lexer.is_empty());
    let mut lexer = Lexer::new(vec![mi("a"), MathExpression::Mo(Operator::Add), mi("b"), MathExpression::Mo(Operator::Rparen), mi("c")]);
    assert_eq!(try_expr_bp(&mut lexer, 0).unwrap().to_string(), "(+ a b)");
    assert_eq!(lexer.peek(), Token::Op(Operator::Rparen));
    let mut lexer = Lexer::new(vec![]);
    assert_eq!(try_expr_bp(&mut lexer, 0), Err(ExprError::UnexpectedEnd));
    let mut lexer = Lexer::new(vec![MathExpression::Mo(Operator::Lparen), mi("a")]);
    assert_eq!(try_expr_bp(&mut lexer, 0), Err(ExprError::MissingRparen));
    let mut lexer = Lexer::new(vec![MathExpression::Mo(Operator::Equals), mi("a")]);
    assert_eq!(try_expr_bp(&mut lexer, 0), Err(ExprError::NoPrefixRule));
}

#[test]
fn binding_powers_order_the_operators() {
    let read = |ops: Vec<Operator>| {
        let names = ["a", "b", "c", "d"];
        let mut input = vec![mi(names[0])];
        for (i, op) in ops.into_iter().enumerate() {
            input.push(MathExpression::Mo(op));
            input.push(mi(names[i + 1]));
        }
        expr(input).to_string()
    };
    assert_eq!(read(vec![Operator::Equals, Operator::Add, Operator::Multiply]), "(= a (+ b (* c d)))");
    assert_eq!(read(vec![Operator::Multiply, Operator::Add, Operator::Equals]), "(= (+ (* a b) c) d)");
    assert_eq!(read(vec![Operator::Subtract, Operator::Subtract]), "(- (- a b) c)");
    assert_eq!(read(vec![Operator::Add, Operator::Subtract]), "(+ a (- b c))");
    assert_eq!(read(vec![Operator::Multiply, Operator::Divide]), "(* a (/ b c))");
    assert_eq!(read(vec![Operator::Divide, Operator::Power]), "(/ a (^ b c))");
    assert_eq!(read(vec![Operator::Dot, Operator::Multiply]), "(* (\u{22c5} a b) c)");
    assert_eq!(read(vec![Operator::Cross, Operator::Cross]), "(\u{d7} (\u{d7} a b) c)");
    assert_eq!(read(vec![Operator::Dot, Operator::Dot]), "(\u{22c5} (\u{22c5} a b) c)");
    assert_eq!(read(vec![Operator::Power, Operator::Power]), "(^ (^ a b) c)");
    assert_eq!(read(vec![Operator::Power, Operator::Dot]), "(^ a (\u{22c5} b c))");
    assert_eq!(read(vec![Operator::Comma, Operator::Comma]), "(, a (, b c))");
    assert_eq!(read(vec![Operator::Compose, Operator::Compose]), "(. a (. b c))");
    let input = vec![mi("a"), MathExpression::Mo(Operator::Add), mi("b"), MathExpression::Mo(Operator::Factorial)];
    assert_eq!(expr(input).to_string(), "(+ a (! b))");
}

#[test]
fn asking_before_writing() {
    let sum = MathExpressionTree::Cons(Operator::Add, vec![atom("a"), atom("b")]);
    assert!(sum.has_latex() && sum.has_cmml() && sum.has_infix());
    let short = MathExpressionTree::Cons(Operator::Divide, vec![atom("a")]);
    assert!(!short.has_latex());
    assert!(short.has_cmml() && short.has_infix());
    let text = MathExpressionTree::Atom(MathExpression::Mtext("t".to_string()));
    assert!(text.has_latex() && text.has_infix() && !text.has_cmml());
    let odd = MathExpressionTree::Atom(MathExpression::Mo(Operator::Add));
    assert!(!odd.has_latex() && !odd.has_cmml() && !odd.has_infix());
    let vector = MathExpressionTree::Cons(Operator::Vector, vec![]);
    assert!(vector.has_latex());
    assert_eq!(vector.to_latex(), "Contain unsupported operators.");
    assert_eq!(MathExpressionTree::Cons(Operator::Other("?".to_string()), vec![atom("a")]).to_latex(), "Contain unsupported operators.");
}

#[test]
fn orders_of_derivatives_are_written_in_decimal() {
    let d = |order: u8| {
        Operator::Derivative(mathml::ast::Derivative {
            order,
            var_index: 1,
            bound_var: name("t"),
            notation: mathml::ast::DerivativeNotation::LeibnizPartialStandard,
        })
    };
    assert_eq!(d(1).to_string(), "PD(1, t)");
    assert_eq!(d(12).to_string(), "PD(12, t)");
    assert_eq!(d(105).to_string(), "PD(105, t)");
    assert_eq!(d(255).to_string(), "PD(255, t)");
}

#[test]
fn character_references() {
    assert_eq!(replace_unicode_with_symbols("a&#x3b1;b&#x3B2;&#x;&#xg;"), "a\u{3b1}b\u{3b2}&#x;&#xg;");
    assert_eq!(replace_unicode_with_symbols("&#x110000;&#xD800;&#x10FFFF;"), "&#x110000;&#xD800;\u{10ffff}");
    assert_eq!(replace_unicode_with_symbols("&#x00000000003b1;"), "\u{3b1}");
    assert_eq!(replace_unicode_with_symbols("&#x100000000;"), "&#x100000000;");
    assert_eq!(unicode_to_latex("&#x3c2;\u{3c2}"), "\\unicode{U+3C2}\\varsigma");
    assert_eq!(unicode_to_latex("&#xabcdef;"), "\\unicode{U+ABCDEF}");
    assert_eq!(unicode_to_latex("&#x100000000;"), "&#x100000000;");
    assert_eq!(unicode_to_latex("Epsilon upsilon xpsilon beta"), "\\Epsilon \\upsilon x\\psilon \\beta");
    assert_eq!(unicode_to_latex("plain"), "plain");
}
