use mathml::ast::{Math, MathExpression, Operator};
use mathml::parsing::{attribute, math_expression, mi as identifier, mfrac, mn as number, mo as operator, mrow, parse};

fn mi(text: &str) -> MathExpression {
    MathExpression::Mi(text.to_string())
}

fn mn(text: &str) -> MathExpression {
    MathExpression::Mn(text.to_string())
}

fn mo(text: &str) -> MathExpression {
    MathExpression::Mo(Operator::Other(text.to_string()))
}

#[test]
fn test_mi() {
    assert_eq!(identifier("<mi k=\"v\" m1=\"n\">x</mi>").unwrap().1, mi("x"))
}

#[test]
fn test_mo() {
    assert_eq!(operator("<mo>=</mo>").unwrap().1, mo("="))
}

#[test]
fn test_mn() {
    assert_eq!(number("<mn>1</mn>").unwrap().1, mn("1"));
}

#[test]
fn test_mrow() {
    assert_eq!(
        mrow("<mrow><mo>-</mo><mi>b</mi></mrow>").unwrap().1,
        MathExpression::Mrow(vec![mo("-"), mi("b")]),
    )
}

#[test]
fn test_attribute() {
    assert_eq!(attribute("key=\"value\"").unwrap().1, ("key".to_string(), "value".to_string()))
}

#[test]
fn parsing_test_mfrac() {
    let frac = mfrac("<mfrac><mn>1</mn><mn>2</mn></mfrac>").unwrap().1;
    assert_eq!(frac, MathExpression::Mfrac(Box::new(mn("1")), Box::new(mn("2"))),)
}

#[test]
fn test_math_expression() {
    assert_eq!(
        math_expression("<mrow><mo>-</mo><mi>b</mi></mrow>").unwrap().1,
        MathExpression::Mrow(vec![mo("-"), mi("b")]),
    )
}

#[test]
fn test_math() {
    let (rest, math) = parse(
        "<math>
                <mrow>
                    <mo>-</mo>
                    <mi>b</mi>
                </mrow>
            </math>",
    )
    .unwrap();
    assert_eq!(math, Math { content: vec![MathExpression::Mrow(vec![mo("-"), mi("b")])] });
    assert_eq!(rest.fragment, "");
}

#[test]
fn leaf_text_is_kept_as_it_stands() {
    assert_eq!(math_expression("<mtext>sno </mtext>").unwrap().1, MathExpression::Mtext("sno ".to_string()));
    assert_eq!(math_expression(" <mi> x </mi> rest").unwrap().0.fragment, "rest");
}

#[test]
fn elements_hold_as_many_as_they_may() {
    assert!(math_expression("<mfrac><mn>1</mn></mfrac>").is_none());
    assert!(math_expression("<mfrac><mn>1</mn><mn>2</mn><mn>3</mn></mfrac>").is_none());
    assert!(math_expression("<msup><mn>1</mn></msup>").is_none());
    assert!(math_expression("<munderover><mn>1</mn><mn>2</mn></munderover>").is_none());
    assert_eq!(
        math_expression("<msqrt><mn>4</mn></msqrt>").unwrap().1,
        MathExpression::Msqrt(Box::new(mn("4"))),
    );
    assert_eq!(
        math_expression("<msubsup><mi>a</mi><mi>b</mi><mi>c</mi></msubsup>").unwrap().1,
        MathExpression::Msubsup(Box::new(mi("a")), Box::new(mi("b")), Box::new(mi("c"))),
    );
    assert_eq!(
        math_expression("<mover><mi>a</mi><mo>^</mo></mover>").unwrap().1,
        MathExpression::Mover(Box::new(mi("a")), Box::new(mo("^"))),
    );
}

#[test]
fn empty_document() {
    let (rest, math) = parse("<math></math>").unwrap();
    assert_eq!(math.content.len(), 0);
    assert_eq!(rest.offset, 13);
    assert_eq!(rest.line, 1);
}

#[test]
fn several_expressions_side_by_side() {
    let (_, math) = parse("<math><mi>a</mi><mo>=</mo><mfrac><mi>b</mi><mi>c</mi></mfrac></math>").unwrap();
    assert_eq!(math.content.len(), 3);
}

#[test]
fn missing_closing_tag_is_an_error_with_its_place() {
    let err = parse("<math>\n<mi>x</mi>\n<mfrac><mi>a</mi></mfrac></math>").unwrap_err();
    assert_eq!(err.line(), 3);
    assert_eq!(err.offset(), 18);
    assert_eq!(err.message(), "Parse error Tag");
    assert_eq!(err.span().fragment, "<mfrac><mi>a</mi></mfrac></math>");
}

#[test]
fn offsets_count_bytes() {
    let err = parse("<math><mi>\u{3b2}</mi><mi>x</math>").unwrap_err();
    assert_eq!(err.offset(), 17);
    assert_eq!(err.line(), 1);
}

#[test]
fn not_a_document() {
    let err = parse("  <mi>x</mi>").unwrap_err();
    assert_eq!(err.offset(), 3);
    let err = parse("x").unwrap_err();
    assert_eq!(err.offset(), 0);
    let err = parse("<math><mi>x</mi></mat>").unwrap_err();
    assert_eq!(err.offset(), 18);
}

#[test]
fn a_root_holds_something() {
    assert!(math_expression("<msqrt></msqrt>").is_none());
    assert_eq!(
        math_expression("<msqrt><mn>4</mn><mi>a</mi></msqrt>").unwrap().1,
        MathExpression::Msqrt(Box::new(MathExpression::Mrow(vec![mn("4"), mi("a")]))),
    );
}

#[test]
fn each_parser_reads_its_own_element() {
    assert!(identifier("<mn>1</mn>").is_none());
    assert!(operator("<mover><mi>a</mi><mo>^</mo></mover>").is_none());
    assert!(mrow("<mi>x</mi>").is_none());
    assert_eq!(attribute(" a1 = \"b c\" rest").unwrap().0.fragment, "rest");
    assert!(attribute("=\"v\"").is_none());
    assert!(attribute("k=\"v").is_none());
}
