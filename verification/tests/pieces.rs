use mathml::ast::{Ci, MathExpression, Operator};
use mathml::interpret::{interpret, meaning, trim};
use mathml::latex::{
    is_unary_operator, process_atoms_cons_parentheses, process_expression_parentheses, process_math_expression,
};
use mathml::lexer::{insert_multiple_between_paren, Lexer};
use mathml::parsing::parse;
use mathml::pratt::{
    infix_binding_power, is_other_operator, is_prefix_operator, postfix_binding_power, prefix_binding_power,
};
use mathml::text::{rewrite_match, Rewrite};
use mathml::translate::interpreted_math;
use mathml::tree::{MathExpressionTree, Token};

fn mi(text: &str) -> MathExpression {
    MathExpression::Mi(text.to_string())
}

fn op(o: Operator) -> MathExpression {
    MathExpression::Mo(o)
}

fn atom(text: &str) -> MathExpressionTree {
    MathExpressionTree::Atom(mi(text))
}

fn tokens_of(mut lexer: Lexer) -> Vec<Token> {
    let mut out = vec![];
    while !lexer.is_empty() {
        out.push(lexer.next());
    }
    out
}

#[test]
fn a_fraction_becomes_a_division_in_brackets() {
    let frac = MathExpression::Mfrac(Box::new(mi("a")), Box::new(mi("b")));
    let mut tokens = vec![mi("x")];
    frac.flatten(&mut tokens);
    assert_eq!(
        tokens,
        vec![
            mi("x"),
            op(Operator::Lparen),
            mi("a"),
            op(Operator::Rparen),
            op(Operator::Divide),
            op(Operator::Lparen),
            mi("b"),
            op(Operator::Rparen),
        ]
    );
}

#[test]
fn rows_roots_and_powers_open_up() {
    let mut tokens = vec![];
    MathExpression::Mrow(vec![mi("a"), mi("b")]).flatten(&mut tokens);
    assert_eq!(tokens, vec![op(Operator::Lparen), mi("a"), mi("b"), op(Operator::Rparen)]);
    let mut tokens = vec![];
    MathExpression::Msqrt(Box::new(mi("a"))).flatten(&mut tokens);
    assert_eq!(
        tokens,
        vec![
            op(Operator::Lparen),
            op(Operator::Sqrt),
            op(Operator::Lparen),
            mi("a"),
            op(Operator::Rparen),
            op(Operator::Rparen)
        ]
    );
    let mut tokens = vec![];
    MathExpression::Msup(Box::new(mi("a")), Box::new(mi("n"))).flatten(&mut tokens);
    assert_eq!(
        tokens,
        vec![mi("a"), op(Operator::Power), op(Operator::Lparen), mi("n"), op(Operator::Rparen)]
    );
    let e = MathExpression::Ci(Ci { content: Box::new(mi("e")), func_of: None, notation: None });
    let mut tokens = vec![];
    MathExpression::Msup(Box::new(e), Box::new(mi("n"))).flatten(&mut tokens);
    assert_eq!(tokens, vec![op(Operator::Exp), op(Operator::Lparen), mi("n"), op(Operator::Rparen)]);
    let mut tokens = vec![];
    MathExpression::Mover(Box::new(mi("a")), Box::new(mi("b"))).flatten(&mut tokens);
    assert_eq!(tokens, vec![]);
}

#[test]
fn names_of_functions_in_a_row_become_operators() {
    let cos = MathExpression::Ci(Ci {
        content: Box::new(mi("cos")),
        func_of: Some(vec![Ci { content: Box::new(mi("x")), func_of: None, notation: None }]),
        notation: None,
    });
    let mut tokens = vec![];
    MathExpression::Mrow(vec![cos.clone()]).flatten(&mut tokens);
    assert_eq!(tokens.len(), 4);
    assert_eq!(tokens[1], op(Operator::Cos));
    let mut tokens = vec![];
    cos.flatten(&mut tokens);
    assert_eq!(tokens, vec![cos]);
}

#[test]
fn multiplication_is_written_where_it_is_meant() {
    let line = tokens_of(Lexer::new(vec![mi("a"), mi("b"), op(Operator::Lparen), mi("c"), op(Operator::Rparen), mi("d")]));
    assert_eq!(
        line,
        vec![
            Token::Atom(mi("a")),
            Token::Op(Operator::Multiply),
            Token::Atom(mi("b")),
            Token::Op(Operator::Multiply),
            Token::Op(Operator::Lparen),
            Token::Atom(mi("c")),
            Token::Op(Operator::Rparen),
            Token::Op(Operator::Multiply),
            Token::Atom(mi("d")),
        ]
    );
    let line = tokens_of(Lexer::new(vec![op(Operator::Sin), mi("a"), op(Operator::Add), op(Operator::Lparen)]));
    assert_eq!(line.len(), 4);
    let line = tokens_of(Lexer::new(vec![
        op(Operator::Lparen),
        mi("a"),
        op(Operator::Rparen),
        op(Operator::Lparen),
        mi("b"),
        op(Operator::Rparen),
    ]));
    assert_eq!(
        line,
        vec![
            Token::Op(Operator::Lparen),
            Token::Atom(mi("a")),
            Token::Op(Operator::Rparen),
            Token::Op(Operator::Multiply),
            Token::Op(Operator::Lparen),
            Token::Atom(mi("b")),
            Token::Op(Operator::Rparen),
        ]
    );
}

#[test]
fn brackets_that_meet_get_a_multiplication() {
    let input = vec![op(Operator::Lparen), mi("a"), op(Operator::Rparen), op(Operator::Lparen), mi("b"), op(Operator::Rparen)];
    let mut lexer = Lexer::new(input);
    insert_multiple_between_paren(&mut lexer);
    let line = tokens_of(lexer);
    assert_eq!(line.len(), 7);
    assert_eq!(line[3], Token::Op(Operator::Multiply));
    let mut empty = Lexer::new(vec![]);
    insert_multiple_between_paren(&mut empty);
    assert!(empty.is_empty());
}

#[test]
fn binding_powers() {
    assert_eq!(prefix_binding_power(&Operator::Add), 9);
    assert_eq!(prefix_binding_power(&Operator::Subtract), 9);
    assert_eq!(prefix_binding_power(&Operator::Sin), 21);
    assert_eq!(prefix_binding_power(&Operator::Cos), 21);
    assert_eq!(prefix_binding_power(&Operator::Tan), 21);
    assert_eq!(prefix_binding_power(&Operator::Exp), 21);
    assert_eq!(prefix_binding_power(&Operator::Min), 25);
    assert_eq!(prefix_binding_power(&Operator::Sqrt), 25);
    assert_eq!(prefix_binding_power(&Operator::Abs), 25);
    assert!(is_prefix_operator(&Operator::Laplacian));
    assert!(!is_prefix_operator(&Operator::Multiply));
    assert!(!is_prefix_operator(&Operator::Equals));
    assert!(!is_prefix_operator(&Operator::Rparen));
    assert_eq!(postfix_binding_power(&Operator::Factorial), Some(11));
    assert_eq!(postfix_binding_power(&Operator::Add), None);
    assert_eq!(infix_binding_power(&Operator::Equals), Some((1, 2)));
    assert_eq!(infix_binding_power(&Operator::Add), Some((3, 4)));
    assert_eq!(infix_binding_power(&Operator::Subtract), Some((5, 6)));
    assert_eq!(infix_binding_power(&Operator::Multiply), Some((7, 8)));
    assert_eq!(infix_binding_power(&Operator::Divide), Some((9, 10)));
    assert_eq!(infix_binding_power(&Operator::Compose), Some((14, 13)));
    assert_eq!(infix_binding_power(&Operator::Comma), Some((14, 13)));
    assert_eq!(infix_binding_power(&Operator::Min), Some((14, 13)));
    assert_eq!(infix_binding_power(&Operator::Power), Some((15, 16)));
    assert_eq!(infix_binding_power(&Operator::Dot), Some((17, 18)));
    assert_eq!(infix_binding_power(&Operator::Cross), Some((17, 18)));
    assert_eq!(infix_binding_power(&Operator::Sin), None);
    assert!(is_other_operator(&Operator::Other("?".to_string())));
    assert!(!is_other_operator(&Operator::Add));
}

#[test]
fn operands_are_set_in_brackets_where_their_place_asks_for_it() {
    let sum = MathExpressionTree::Cons(Operator::Add, vec![atom("a"), atom("b")]);
    let product = MathExpressionTree::Cons(Operator::Multiply, vec![atom("a"), atom("b")]);
    let root = MathExpressionTree::Cons(Operator::Sqrt, vec![atom("a")]);
    let mut text = String::from("x");
    process_expression_parentheses(&mut text, &sum);
    process_expression_parentheses(&mut text, &product);
    process_expression_parentheses(&mut text, &root);
    process_expression_parentheses(&mut text, &atom("c"));
    assert_eq!(text, "x(a+b)a*b\\sqrt{a}c");
    let mut text = String::new();
    process_atoms_cons_parentheses(&mut text, &sum);
    process_atoms_cons_parentheses(&mut text, &product);
    process_atoms_cons_parentheses(&mut text, &root);
    process_atoms_cons_parentheses(&mut text, &atom("c"));
    assert_eq!(text, "(a+b)(a*b)\\sqrt{a}c");
    assert!(is_unary_operator(&Operator::Sqrt));
    assert!(is_unary_operator(&Operator::Power));
    assert!(!is_unary_operator(&Operator::Add));
    assert!(!is_unary_operator(&Operator::Multiply));
    assert_eq!(
        MathExpressionTree::Cons(Operator::Multiply, vec![sum.clone(), MathExpressionTree::Cons(Operator::Dot, vec![atom("u"), atom("v")])]).to_latex(),
        "(a+b)*u \\cdot v"
    );
    assert_eq!(MathExpressionTree::Cons(Operator::Subtract, vec![sum.clone()]).to_latex(), "-(a+b)");
    assert_eq!(MathExpressionTree::Cons(Operator::Subtract, vec![atom("a"), sum, atom("c")]).to_latex(), "a-(a+b)-c");
}

#[test]
fn leaves_in_latex() {
    let mut text = String::from(">");
    process_math_expression(&mi("alpha"), &mut text);
    assert_eq!(text, ">\\alpha");
    let f = MathExpression::Ci(Ci {
        content: Box::new(mi("f")),
        func_of: Some(vec![
            Ci { content: Box::new(mi("x")), func_of: None, notation: None },
            Ci { content: Box::new(mi("\u{3bb}")), func_of: None, notation: None },
        ]),
        notation: Some(mathml::ast::VectorNotation::Bold),
    });
    let mut text = String::new();
    process_math_expression(&f, &mut text);
    assert_eq!(text, "\\bold{f}(x,\\lambda)");
    let frac = MathExpression::Mfrac(Box::new(MathExpression::Mn("1".to_string())), Box::new(MathExpression::Msqrt(Box::new(mi("x")))));
    let mut text = String::new();
    process_math_expression(&frac, &mut text);
    assert_eq!(text, "\\frac{1}{\\sqrt{x}}");
    let under = MathExpression::Munder(Box::new(mi("a")), Box::new(mi("b")));
    let over = MathExpression::Mover(Box::new(mi("a")), Box::new(mi("b")));
    let mut text = String::new();
    process_math_expression(&under, &mut text);
    process_math_expression(&over, &mut text);
    assert_eq!(text, "\\underset{b}{a}\\overset{b}{a}");
}

#[test]
fn texts_lose_the_white_space_at_their_ends() {
    assert_eq!(trim("  a b \t"), "a b");
    assert_eq!(trim("\u{a0}x\u{3000}"), "x");
    assert_eq!(trim("   "), "");
    assert_eq!(trim(""), "");
    assert_eq!(trim("x"), "x");
}

#[test]
fn what_nodes_mean() {
    assert_eq!(meaning(&MathExpression::Mo(Operator::Other(" + ".to_string()))), op(Operator::Add));
    assert_eq!(meaning(&MathExpression::Mo(Operator::Other("\u{2212}".to_string()))), op(Operator::Subtract));
    assert_eq!(meaning(&MathExpression::Mo(Operator::Other("[".to_string()))), op(Operator::Lparen));
    assert_eq!(meaning(&MathExpression::Mo(Operator::Other("?".to_string()))), op(Operator::Other("?".to_string())));
    assert_eq!(
        meaning(&mi(" x ")),
        MathExpression::Ci(Ci { content: Box::new(mi("x")), func_of: None, notation: None })
    );
    assert_eq!(meaning(&mi("min")), op(Operator::Min));
    let (_, math) = parse("<math><mi>f</mi><mo>(</mo><mi>x</mi><mo>,</mo><mi>y</mi><mo>)</mo><mo>+</mo><mn>1</mn></math>").unwrap();
    let nodes = interpret(&math.content);
    assert_eq!(nodes.len(), 3);
    match &nodes[0] {
        MathExpression::Ci(c) => assert_eq!(c.func_of.as_ref().unwrap().len(), 2),
        other => panic!("{:?}", other),
    }
    assert_eq!(nodes, interpreted_math("<math><mi>f</mi><mo>(</mo><mi>x</mi><mo>,</mo><mi>y</mi><mo>)</mo><mo>+</mo><mn>1</mn></math>").unwrap());
}

#[test]
fn what_is_put_in_the_place_of_a_match() {
    assert_eq!(rewrite_match(Rewrite::TagGap, ">  <"), "><");
    assert_eq!(rewrite_match(Rewrite::GreekName, "beta"), "\\beta");
    assert_eq!(rewrite_match(Rewrite::GreekSymbol, "\u{3a9}"), "\\Omega");
    assert_eq!(rewrite_match(Rewrite::GreekSymbol, "x"), "x");
    assert_eq!(rewrite_match(Rewrite::Character, "&#x41;"), "A");
    assert_eq!(rewrite_match(Rewrite::Character, "&#x41"), "&#x41");
    assert_eq!(rewrite_match(Rewrite::GreekCode, "&#x3A9;"), "\\Omega");
    assert_eq!(rewrite_match(Rewrite::GreekCode, "&#x41;"), "&#x41;");
    assert_eq!(rewrite_match(Rewrite::UnicodeCommand, "&#x0041;"), "\\unicode{U+41}");
    assert_eq!(rewrite_match(Rewrite::UnicodeCommand, "&#x0;"), "\\unicode{U+0}");
}
