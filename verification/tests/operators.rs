use mathml::tree::MathExpressionTree;

#[test]
fn test_vector_invariant_form() {
    let input = "<math>
    <msub>
    <mi>∂</mi>
    <mi>t</mi>
    </msub>
    <mi>u</mi>
    <mo>+</mo>
    <mo>(</mo>
    <mi>ζ</mi>
    <mrow>
    <mover>
    <mi>z</mi>
    <mo>^</mo>
    </mover>
    </mrow>
    <mo>+</mo>
    <mi>f</mi>
    <mo>)</mo>
    <mo>×</mo>
    <mi>u</mi>
    <mo>=</mo>
    <mo>−</mo>
    <mi>&#x2207;</mi>
    <mrow>
    <mo>[</mo>
    <mi>g</mi>
    <mo>(</mo>
    <mi>h</mi>
    <mo>+</mo>
    <mi>b</mi>
    <mo>)</mo>
    <mo>+</mo>
    <mfrac>
    <mn>1</mn>
    <mn>2</mn>
    </mfrac>
    <mi>u</mi>
    <mo>⋅</mo>
    <mi>u</mi>
    <mo>]</mo>
    </mrow>
    </math>";
    let exp = input.parse::<MathExpressionTree>().unwrap();
    let s_exp = exp.to_string();
    //assert_eq!(s_exp, "(= (+ (PD(1, t) u) (× (+ (Hat(z) ζ) f) u)) (- (Grad (+ (* g (+ h b)) (* (/ 1 2) (⋅ u u))))))");
    assert_eq!(s_exp, "(= (+ (∂_{t}) u) (× (+ (* ζ Hat(z)) f) u)) (- (Grad (+ (* g (+ h b)) (* (/ 1 2) (⋅ u u))))))");
}

#[test]
fn test_mi_dot_gradient() {
    let input = "<math>
    <mo>(</mo>
    <mi>v</mi>
    <mo>&#x22c5;</mo>
    <mi>&#x2207;</mi>
    <mo>)</mo>
    <mi>u</mi>
    </math>";
    let exp = input.parse::<MathExpressionTree>().unwrap();
    let s_exp = exp.to_string();
    assert_eq!(s_exp, "(* (⋅ v Grad) u)");
}

#[test]
fn test_gradient_sub() {
    let input = "<math>
    <msub>
    <mi>∇</mi>
    <mi>h</mi>
    </msub>
    <mo>(</mo>
    <mi>p</mi>
    <mo>+</mo>
    <mi>g</mi>
    <mi>η</mi>
    <mo>)</mo>
    </math>";
    let exp = input.parse::<MathExpressionTree>().unwrap();
    let s_exp = exp.to_string();
    assert_eq!(s_exp, "(Grad_h (+ p (* g η)))");
    assert_eq!(exp.to_latex(), "\\nabla_{h}{(p+g*\\eta)}");
}

#[test]
fn test_momentum_conservation() {
    let input = "<math>
    <msub>
    <mi>∂</mi>
    <mi>t</mi>
    </msub>
    <mi>u</mi>
    <mo>=</mo>
    <mo>−</mo>
    <mo>(</mo>
    <mi>v</mi>
    <mo>⋅</mo>
    <mi>∇</mi>
    <mo>)</mo>
    <mi>u</mi>
    <mo>−</mo>
    <mi>f</mi>
    <mo>&#x00D7;</mo>
    <mi>u</mi>
    <mo>−</mo>
    <msub>
    <mi>∇</mi>
    <mi>h</mi>
    </msub>
    <mo>(</mo>
    <mi>p</mi>
    <mo>+</mo>
    <mi>g</mi>
    <mi>η</mi>
    <mo>)</mo>
    <mo>−</mo>
    <mi>∇</mi>
    <mo>⋅</mo>
    <mi>τ</mi>
    <mo>+</mo>
    <msub>
    <mi>F</mi>
    <mrow>
    <mi>u</mi>
    </mrow>
    </msub>
    </math>";
    let exp = input.parse::<MathExpressionTree>().unwrap();
    let s_exp = exp.to_string();
    assert_eq!(s_exp, "(= (∂_{t}) u) (+ (- (- (- (* (- (⋅ v Grad)) u) (× f u)) (Grad_h (+ p (* g η)))) (Div τ)) F_{u}))");
}

#[test]
fn test_down_arrow() {
    let input = "<math>
    <msup>
        <mi>I</mi>
        <mo>&#x2193;</mo>
      </msup>
    </math>";
    let exp = input.parse::<MathExpressionTree>().unwrap();
    println!("exp={:?}", exp);
    let s_exp = exp.to_string();
    assert_eq!(s_exp, "I^\\downarrow");
    assert_eq!(exp.to_latex(), "I^\\downarrow");
}

#[test]
fn test_down_arrow2() {
    let input = "<math>
    <msup>
        <mi>I</mi>
        <mo>&#x2193;</mo>
      </msup>
      <mo>(</mo>
      <mi>λ</mi>
      <mo>)</mo>
    </math>";
    let exp = input.parse::<MathExpressionTree>().unwrap();
    let s_exp = exp.to_string();
    assert_eq!(s_exp, "I^\\downarrow");
    assert_eq!(exp.to_latex(), "I^\\downarrow(\\lambda)");
}

#[test]
fn test_integral1() {
    let input = "<math>
    <msubsup>
        <mo>&#x222b;</mo>
        <mrow>
          <msub>
            <mi>λ</mi>
            <mn>1</mn>
          </msub>
        </mrow>
        <mrow>
          <msub>
            <mi>λ</mi>
            <mn>2</mn>
          </msub>
        </mrow>
      </msubsup>
    <msup>
    <mi>x</mi>
    <mn>2</mn>
    </msup>
    <mi>d</mi>
    <mi>x</mi>
    </math>";
    let exp = input.parse::<MathExpressionTree>().unwrap();
    println!("exp={:?}", exp);
    let s_exp = exp.to_string();
    println!("s_exp={:?}", s_exp);
    assert_eq!(s_exp, "(Int_{λ_{1}}^{λ_{2}}(x) (^ x 2))");
    println!("exp.to_latex()={:?}", exp.to_latex());
    assert_eq!(
        exp.to_latex(),
        "\\int_{\\lambda_{1}}^{\\lambda_{2}}x^{2} dx"
    );
}

#[test]
fn test_integral2() {
    let input = "<math>
    <mrow>
      <msubsup>
        <mo>&#x222b;</mo>
        <mrow>
          <msub>
            <mi>λ</mi>
            <mn>1</mn>
          </msub>
        </mrow>
        <mrow>
          <msub>
            <mi>λ</mi>
            <mn>2</mn>
          </msub>
        </mrow>
      </msubsup>
      <mi>ω</mi>
      <mo>(</mo>
      <mi>λ</mi>
      <mo>)</mo>
        <mi>I</mi>
      <mo>(</mo>
      <mi>λ</mi>
      <mo>)</mo>
      <msub>
        <mi>α</mi>
        <mrow>
          <mtext>sno </mtext>
        </mrow>
      </msub>
      <mo>(</mo>
      <mi>λ</mi>
      <mo>)</mo>
        <mi>d</mi>
      <mi>λ</mi>
    </mrow>
    </math>";
    let exp = input.parse::<MathExpressionTree>().unwrap();
    println!("exp={:?}", exp);
    let s_exp = exp.to_string();
    println!("s_exp={:?}", s_exp);
    assert_eq!(s_exp, "(Int_{λ_{1}}^{λ_{2}}(λ) (* (* ω I) α_{sno}))");
    println!("exp.to_latex()={:?}", exp.to_latex());
    assert_eq!(exp.to_latex(), "\\int_{\\lambda_{1}}^{\\lambda_{2}}\\omega(\\lambda)*I(\\lambda)*\\alpha_{sno}(\\lambda) dλ");
}

#[test]
fn test_snowpack_optics() {
    let input = "<math>
    <mrow>
    <mover>
      <mi>ω</mi>
      <mo>¯</mo>
    </mover>
  </mrow>
  <mo>=</mo>
  <mfrac>
    <mrow>
      <msubsup>
        <mo>&#x222b;</mo>
        <mrow>
          <msub>
            <mi>λ</mi>
            <mn>1</mn>
          </msub>
        </mrow>
        <mrow>
          <msub>
            <mi>λ</mi>
            <mn>2</mn>
          </msub>
        </mrow>
      </msubsup>
      <mi>ω</mi>
      <mo>(</mo>
      <mi>λ</mi>
      <mo>)</mo>
      <msup>
        <mi>I</mi>
        <mo>&#x2193;</mo>
      </msup>
      <mo>(</mo>
      <mi>λ</mi>
      <mo>)</mo>
      <msub>
        <mi>α</mi>
        <mrow>
          <mtext>sno </mtext>
        </mrow>
      </msub>
      <mo>(</mo>
      <mi>λ</mi>
      <mo>)</mo>
        <mi>d</mi>
      <mi>λ</mi>
    </mrow>
    <mrow>
      <msubsup>
        <mo>&#x222b;</mo>
        <mrow>
          <msub>
            <mi>λ</mi>
            <mn>1</mn>
          </msub>
        </mrow>
        <mrow>
          <msub>
            <mi>λ</mi>
            <mn>2</mn>
          </msub>
        </mrow>
      </msubsup>
      <msup>
        <mi>I</mi>
        <mo>&#x2193;</mo>
      </msup>
      <mo>(</mo>
      <mi>λ</mi>
      <mo>)</mo>
      <msub>
        <mi>α</mi>
        <mrow>
          <mtext>sno </mtext>
        </mrow>
      </msub>
      <mo>(</mo>
      <mi>λ</mi>
      <mo>)</mo>
        <mi>d</mi>
      <mi>λ</mi>
    </mrow>
  </mfrac>
    </math>";
    let exp = input.parse::<MathExpressionTree>().unwrap();
    let s_exp = exp.to_string();
    assert_eq!(s_exp, "(= (Mean ω) (/ (Int_{λ_{1}}^{λ_{2}}(λ) (* (* ω I^\\downarrow) α_{sno})) (Int_{λ_{1}}^{λ_{2}}(λ) (* I^\\downarrow α_{sno}))))");
    assert_eq!(exp.to_latex(), "\\langle \\omega \\rangle=\\frac{\\int_{\\lambda_{1}}^{\\lambda_{2}}\\omega(\\lambda)*I^\\downarrow(\\lambda)*\\alpha_{sno}(\\lambda) dλ}{\\int_{\\lambda_{1}}^{\\lambda_{2}}I^\\downarrow(\\lambda)*\\alpha_{sno}(\\lambda) dλ}");
}

#[test]
fn test_laplacian() {
    let input = "<math>
    <msup><mi>&#x2207;</mi><mn>2</mn></msup>
    <mi>T</mi>
    </math>";
    let exp = input.parse::<MathExpressionTree>().unwrap();
    let s_exp = exp.to_string();
    assert_eq!(s_exp, "(Laplacian T)");
    assert_eq!(exp.to_latex(), "\\nabla^2 T");
}

#[test]
fn test_fourier_law_heat_equation_1_1() {
    let input = "<math>
    <mi>Q</mi>
    <mo>=</mo>
    <mfrac><msub><mi>k</mi><mi>T</mi></msub><mi>&#x03C1;</mi></mfrac>
    <msup><mi>&#x2207;</mi><mn>2</mn></msup>
    <mi>T</mi>
    </math>";
    let exp = input.parse::<MathExpressionTree>().unwrap();
    let s_exp = exp.to_string();
    assert_eq!(s_exp, "(= Q (* (/ k_{T} ρ) (Laplacian T)))");
    assert_eq!(exp.to_latex(), "Q=\\frac{k_{T}}{\\rho}*\\nabla^2 T");
}

#[test]
fn test_closed_surface_integral() {
    let input = "<math>
    <msubsup><mtext>∯</mtext><mi>S</mi></msubsup>
    <mrow><mi>&#x2207;</mi><mi>T</mi></mrow>
    <mo>&#x22C5;</mo><mi>T</mi>
    <mi>d</mi><mi>S</mi>
    </math>";
    let exp = input.parse::<MathExpressionTree>().unwrap();
    let s_exp = exp.to_string();
    assert_eq!(s_exp, "(SurfaceInt (* (⋅ (Grad T) T) dS))");
    assert_eq!(exp.to_latex(), "\\oiint_S \\nabla{T} \\cdot T*dS");
}

#[test]
fn test_fourier_law_heat_equation_2() {
    let input = "<math>
    <mfrac><mrow><mi>&#x2202;</mi><mi>Q</mi></mrow><mrow><mi>&#x2202;</mi><mi>t</mi></mrow></mfrac>
    <mo>=</mo>
    <mo>&#x2212;</mo><mi>k</mi>
    <msubsup><mtext>∯</mtext><mi>S</mi></msubsup>
    <mrow><mi>&#x2207;</mi><mi>T</mi></mrow>
    <mo>&#x22C5;</mo><mi>d</mi><mi>S</mi>
    </math>";
    let exp = input.parse::<MathExpressionTree>().unwrap();
    let s_exp = exp.to_string();
    assert_eq!(
        s_exp,
        "(= (PD(1, t) Q) (* (- k) (SurfaceInt (⋅ (Grad T) dS))))"
    );
    assert_eq!(
        exp.to_latex(),
        "\\frac{\\partial Q}{\\partial t}=(-k)*\\oiint_S \\nabla{T} \\cdot dS"
    );
}

#[test]
fn test_fourier_law_heat_equation_1_2() {
    let input = "<math>
    <mi>Q</mi>
    <mo>=</mo>
    <mfrac><msub><mi>k</mi><mi>T</mi></msub><mi>&#x03C1;</mi></mfrac>
    <mrow>
    <mo>(</mo>
    <mfrac>
    <mrow><msup><mi>&#x2202;</mi><mn>2</mn></msup><mi>T</mi></mrow>
    <mrow><mi>&#x2202;</mi><msup><mi>x</mi><mn>2</mn></msup></mrow>
    </mfrac>
    <mo>+</mo>
    <mfrac>
    <mrow><msup><mi>&#x2202;</mi><mn>2</mn></msup><mi>T</mi></mrow>
    <mrow><mi>&#x2202;</mi><msup><mi>y</mi><mn>2</mn></msup></mrow>
    </mfrac>
    <mo>+</mo>
    <mfrac>
    <mrow><msup><mi>&#x2202;</mi><mn>2</mn></msup><mi>T</mi></mrow>
    <mrow><mi>&#x2202;</mi><msup><mi>z</mi><mn>2</mn></msup></mrow>
    </mfrac>
    <mo>)</mo>
    </mrow>
    </math>";
    let exp = input.parse::<MathExpressionTree>().unwrap();
    let s_exp = exp.to_string();
    assert_eq!(
        s_exp,
        "(= Q (* (/ k_{T} ρ) (+ (+ (PD(2, x) T) (PD(2, y) T)) (PD(2, z) T))))"
    );
    assert_eq!(exp.to_latex(), "Q=\\frac{k_{T}}{\\rho}*(\\frac{\\partial^2 T}{\\partial x^2}+\\frac{\\partial^2 T}{\\partial y^2}+\\frac{\\partial^2 T}{\\partial z^2})");
}

#[test]
fn test_second_order_derivative() {
    let input = "<math>
    <mfrac>
    <mrow><msup><mi>&#x2202;</mi><mn>2</mn></msup><mi>T</mi></mrow>
    <mrow><mi>&#x2202;</mi><msup><mi>x</mi><mn>2</mn></msup></mrow>
    </mfrac>
    </math>";
    let exp = input.parse::<MathExpressionTree>().unwrap();
    let s_exp = exp.to_string();
    assert_eq!(s_exp, "(PD(2, x) T)");
    assert_eq!(exp.to_latex(), "\\frac{\\partial^2 T}{\\partial x^2}");
}

#[test]
fn test_fourier_law_heat_equation_3() {
    let input = "<math>
    <mfrac><mrow><mi>&#x2202;</mi><mi>T</mi></mrow><mrow><mi>&#x2202;</mi><mi>t</mi></mrow></mfrac>
    <mo>=</mo>
    <mi>&#x03B1;</mi>
    <mrow>
    <mo>(</mo>
    <mfrac>
    <mrow><msup><mi>&#x2202;</mi><mn>2</mn></msup><mi>T</mi></mrow>
    <mrow><mi>&#x2202;</mi><msup><mi>x</mi><mn>2</mn></msup></mrow>
    </mfrac>
    <mo>+</mo>
    <mfrac>
    <mrow><msup><mi>&#x2202;</mi><mn>2</mn></msup><mi>T</mi></mrow>
    <mrow><mi>&#x2202;</mi><msup><mi>y</mi><mn>2</mn></msup></mrow>
    </mfrac>
    <mo>+</mo>
    <mfrac>
    <mrow><msup><mi>&#x2202;</mi><mn>2</mn></msup><mi>T</mi></mrow>
    <mrow><mi>&#x2202;</mi><msup><mi>z</mi><mn>2</mn></msup></mrow>
    </mfrac>
    <mo>)</mo>
    </mrow>
    </math>";
    let exp = input.parse::<MathExpressionTree>().unwrap();
    let s_exp = exp.to_string();
    assert_eq!(
        s_exp,
        "(= (PD(1, t) T) (* α (+ (+ (PD(2, x) T) (PD(2, y) T)) (PD(2, z) T))))"
    );
    assert_eq!(exp.to_latex(), "\\frac{\\partial T}{\\partial t}=\\alpha*(\\frac{\\partial^2 T}{\\partial x^2}+\\frac{\\partial^2 T}{\\partial y^2}+\\frac{\\partial^2 T}{\\partial z^2})");
}

#[test]
fn test_conservation_of_momentum_fluid_equation_1() {
    let input = "<math>
    <mfrac>
    <mrow><mi>D</mi><mi>u</mi></mrow>
    <mrow><mi>D</mi><mi>t</mi></mrow>
    </mfrac>
    <mo>&#x2212;</mo>
    <mi>f</mi>
    <mi>v</mi>
    <mo>=</mo>
    <mo>&#x2212;</mo>
    <mi>g</mi>
    <mfrac>
    <mrow><mi>&#x2202;</mi><mi>&#x03B7;</mi></mrow>
    <mrow><mi>&#x2202;</mi><mi>x</mi></mrow>
    </mfrac>
    </math>";
    let exp = input.parse::<MathExpressionTree>().unwrap();
    let s_exp = exp.to_string();
    assert_eq!(s_exp, "(= (- (D(1, t) u) (* f v)) (* (- g) (PD(1, x) η)))");
    assert_eq!(
        exp.to_latex(),
        "\\frac{D u}{Dt}-f*v=(-g)*\\frac{\\partial \\eta}{\\partial x}"
    );
}

#[test]
fn test_vector_notation() {
    let input = "
    <math>
    <mover><mi>v</mi><mo>&#x2192;</mo></mover>
    </math>";
    let exp = input.parse::<MathExpressionTree>().unwrap();
    println!("exp={:?}", exp);
    let s_exp = exp.to_string();
    assert_eq!(s_exp, "v");
    assert_eq!(exp.to_latex(), "\\vec{v}");
}

#[test]
fn test_conservation_of_mass_equation_2() {
    let input = "<math>
    <mfrac>
    <mrow><mi>&#x2202;</mi><mi>&#x03C1;</mi></mrow>
    <mrow><mi>&#x2202;</mi><mi>t</mi></mrow>
    </mfrac>
    <mo>=</mo>
    <mo>&#x2212;</mo>
    <mi>&#x2207;</mi>
    <mo>&#x22C5;</mo>
    <mo>(</mo>
    <mi>&#x03C1;</mi>
    <mrow><mover><mi>&#x03BC;</mi><mo>&#x2192;</mo></mover></mrow>
    <mo>)</mo>
    </math>";
    let exp = input.parse::<MathExpressionTree>().unwrap();
    let s_exp = exp.to_string();
    assert_eq!(s_exp, "(= (PD(1, t) ρ) (- (Div (* ρ μ))))");
    assert_eq!(
        exp.to_latex(),
        "\\frac{\\partial \\rho}{\\partial t}=-\\nabla \\cdot {(\\rho*\\vec{\\mu})}"
    );
}

#[test]
fn test_new_equation1() {
    let input = "<math>
    <msub><mi>p</mi><mrow><mi>i</mi><mi>j</mi></mrow></msub><mo>=</mo><mrow><mi>R</mi></mrow><mo>(</mo><msub><mi>t</mi><mi>j</mi></msub><mo>)</mo><mi>w</mi><mo>(</mo><msub><mi>t</mi><mi>i</mi></msub><mo>&#x2212;</mo><msub><mi>t</mi><mi>j</mi></msub><mo>)</mo><mo>/</mo><mi>&#x03BB;</mi><mo>(</mo><msub><mi>t</mi><mi>i</mi></msub><mo>)</mo>
    </math>";
    let exp = input.parse::<MathExpressionTree>().unwrap();
    let s_exp = exp.to_string();
    assert_eq!(s_exp, "(= p_{ij} (* (* R w) (/ (- t_{i} t_{j}) λ)))");
    assert_eq!(
        exp.to_latex(),
        "p_{ij}=R(t_{j})*w*\\frac{t_{i}-t_{j}}{\\lambda(t_{i})}"
    );
}

#[test]
fn test_minimize() {
    let input = "<math>
  <mi>min</mi>
  <mo>&#x2061;</mo>
  <mo>(</mo>
  <msub>
    <mi>A</mi>
    <mi>c</mi>
  </msub>
  <mo>,</mo>
  <msub>
    <mi>A</mi>
    <mi>j</mi>
  </msub>
  <mo>,</mo>
  <msub>
    <mi>A</mi>
    <mi>p</mi>
  </msub>
  <mo>)</mo>
  <mo>.</mo>
    </math>";
    let exp = input.parse::<MathExpressionTree>().unwrap();
    println!("exp={:?}", exp);
    let s_exp = exp.to_string();
    assert_eq!(s_exp, "(Min A_{j} A_{p} A_{c})");
    //assert_eq!(s_exp, "(= A_{n} (- (Min A_{c} A_{j} A_{p}) R_{d}))");
    assert_eq!(exp.to_latex(), "\\min \\{ A_{j},A_{p},A_{c}\\}");
}

#[test]
fn test_minimize_mi() {
    let input = "<math>
  <mi>min</mi>
  <mo>&#x2061;</mo>
  <mo>(</mo>
    <mi>A</mi>
  <mo>,</mo>
    <mi>B</mi>
  <mo>,</mo>
    <mi>C</mi>
  <mo>)</mo>
  <mo>.</mo>
    </math>";
    let exp = input.parse::<MathExpressionTree>().unwrap();
    println!("exp={:?}", exp);
    let s_exp = exp.to_string();
    assert_eq!(s_exp, "(Min B C A)");
    //assert_eq!(s_exp, "(= A_{n} (- (Min A_{c} A_{j} A_{p}) R_{d}))");
    assert_eq!(exp.to_latex(), "\\min \\{ B,C,A\\}");
}

#[test]
fn test_clm4_5_8_2() {
    let input = "<math>
  <msub>
    <mi>A</mi>
    <mi>n</mi>
  </msub>
  <mo>=</mo>
  <mi>min</mi>
  <mo>&#x2061;</mo>
  <mo>(</mo>
  <msub>
    <mi>A</mi>
    <mi>c</mi>
  </msub>
  <mo>,</mo>
  <msub>
    <mi>A</mi>
    <mi>j</mi>
  </msub>
  <mo>,</mo>
  <msub>
    <mi>A</mi>
    <mi>p</mi>
  </msub>
  <mo>)</mo>
  <mo>&#x2212;</mo>
  <msub>
    <mi>R</mi>
    <mi>d</mi>
  </msub>
  <mo>.</mo>
    </math>";
    let exp = input.parse::<MathExpressionTree>().unwrap();
    println!("exp={:?}", exp);
    let s_exp = exp.to_string();
    assert_eq!(s_exp, "(= A_{n} (- (Min A_{j} A_{p} A_{c}) R_{d}))");
    assert_eq!(
        exp.to_latex(),
        "A_{n}=(\\min \\{ A_{j},A_{p},A_{c}\\})-R_{d}"
    );
}

#[test]
fn test_clm4_5_8_12_3() {
    let input = "<math>
  <msub>
    <mi>f</mi>
    <mi>L</mi>
  </msub>
  <mo>(</mo>
  <msub>
    <mi>T</mi>
    <mi>v</mi>
  </msub>
  <mo>)</mo>
  <mo>=</mo>
  <mn>1</mn>
  <mo>+</mo>
  <mi>exp</mi>
  <mo>[</mo>
  <msub>
    <mi>s</mi>
    <mn>3</mn>
  </msub>
  <mo>(</mo>
  <msub>
    <mi>s</mi>
    <mn>4</mn>
  </msub>
  <mo>&#x2212;</mo>
  <msub>
    <mi>T</mi>
    <mi>v</mi>
  </msub>
  <mo>)</mo>
  <mo>]</mo>
    </math>";
    let exp = input.parse::<MathExpressionTree>().unwrap();
    println!("exp={:?}", exp);
    let s_exp = exp.to_string();
    assert_eq!(s_exp, "(= f_{L} (+ 1 (exp (* s_{3} (- s_{4} T_{v})))))");
    assert_eq!(
        exp.to_latex(),
        "f_{L}(T_{v})=1+\\mathrm{exp}{s_{3}*(s_{4}-T_{v})}"
    );
}

#[test]
fn test_log() {
    let input = "<math>
  <mrow><mi>log</mi><mi>x</mi></mrow>
    </math>";
    let exp = input.parse::<MathExpressionTree>().unwrap();
    println!("exp={:?}", exp);
    let s_exp = exp.to_string();
    assert_eq!(s_exp, "(Log x)");
    assert_eq!(exp.to_latex(), "\\log x");
}

#[test]
fn test_ln() {
    let input = "<math>
  <mrow><mi>ln</mi><mi>x</mi></mrow>
    </math>";
    let exp = input.parse::<MathExpressionTree>().unwrap();
    println!("exp={:?}", exp);
    let s_exp = exp.to_string();
    assert_eq!(s_exp, "(Ln x)");
    assert_eq!(exp.to_latex(), "\\ln x");
}

#[test]
fn test_log_10base() {
    let input = "<math>
    <msub><mi>log</mi><mn>10</mn></msub><mi>x</mi>
    </math>";
    let exp = input.parse::<MathExpressionTree>().unwrap();
    println!("exp={:?}", exp);
    let s_exp = exp.to_string();
    assert_eq!(s_exp, "(Log_{10} x)");
    assert_eq!(exp.to_latex(), "\\log_{10}x");
}

#[test]
fn test_conservation_of_mass_5() {
    let input = "<math>
    <mfrac><mi>d</mi><mrow><mi>d</mi><mi>t</mi></mrow></mfrac>
    <mi>ln</mi><mo>&#x2061;</mo>
    <mo>(</mo>
    <mrow><mi>d</mi><mi>M</mi></mrow>
    <mo>)</mo>
    <mo>=</mo>
    <mn>0</mn>
    </math>";
    let exp = input.parse::<MathExpressionTree>().unwrap();
    println!("exp={:?}", exp);
    let s_exp = exp.to_string();
    assert_eq!(s_exp, "(= (D(1, t) (Ln dM)) 0)");
    assert_eq!(exp.to_latex(), "\\frac{d \\ln dM}{dt}=0");
}

#[test]
fn test_msup_with_perp() {
    let input = "<math>
    <msup><mi>u</mi><mrow><mi>&#x22A5;</mi></mrow></msup>
    </math>";
    let exp = input.parse::<MathExpressionTree>().unwrap();
    let s_exp = exp.to_string();
    assert_eq!(s_exp, "(^ u ⊥)");
    assert_eq!(exp.to_latex(), "u^{⊥}");
}

#[test]
fn test_msubsup_msub_content() {
    let input = "<math>
    <msubsup>
    <mi>β</mi>
    <mrow>
      <mi>c</mi>
      <mi>W</mi>
    </mrow>
    <mrow>
      <mi>A</mi>
      <mi>e</mi>
      <mi>r</mi>
      <mi>o</mi>
    </mrow>
    </msubsup>
    <mo>+</mo>
    <msub>
    <mi>A</mi>
    <mi>n</mi>
    </msub>
    </math>";
    let exp = input.parse::<MathExpressionTree>().unwrap();
    println!("exp={:?}", exp);
    let s_exp = exp.to_string();
    let content = exp.to_cmml();
    println!("content={:?}", content);
    assert_eq!(s_exp, "(+ β_{cW}^{Aero} A_{n})");
    assert_eq!(exp.to_latex(), "\\beta_{cW}^{Aero}+A_{n}");
}

#[test]
fn test_new_eval_test() {
    let input = "<math>
    <mfrac><mrow><mi>d</mi><msub><mi>s</mi><mrow><mi>c</mi></mrow></msub></mrow><mrow><mi>d</mi><mi>t</mi></mrow></mfrac>
    <mo>=</mo>
    <mi>α</mi>
    <mo>∗</mo>
    <msub><mi>r</mi><mrow><mi>c</mi></mrow></msub>
    <mo>−</mo>
    <msub><mi>s</mi><mrow><mi>c</mi></mrow></msub><mo>∗</mo>
    <mo>(</mo>
    <msubsup><mi>β</mi><mrow><mi>c</mi><mi>c</mi></mrow><mrow><mi>D</mi><mi>c</mi></mrow></msubsup>
    <mo>∗</mo>
    <msub><mi>i</mi><mrow><mi>c</mi></mrow></msub>
    <mo>+</mo>
    <msubsup>
    <mi>β</mi>
    <mrow><mi>c</mi><mi>c</mi></mrow>
    <mrow><mi>A</mi><mi>e</mi><mi>r</mi><mi>o</mi></mrow>
    </msubsup>
    <mo>∗</mo>
    <msub><mi>i</mi><mrow><mi>c</mi></mrow></msub>
    <mo>+</mo>
    <msubsup>
    <mi>β</mi>
    <mrow><mi>c</mi><mi>W</mi></mrow>
    <mrow><mi>A</mi><mi>e</mi><mi>r</mi><mi>o</mi></mrow>
    </msubsup>
    <mo>∗</mo>
    <msub><mi>i</mi><mrow><mi>W</mi></mrow></msub>
    <mo>+</mo>
    <msubsup><mi>β</mi><mrow><mi>c</mi><mi>W</mi></mrow><mrow><mi>D</mi><mi>c</mi></mrow></msubsup>
    <mo>∗</mo>
    <msub><mi>i</mi><mrow><mi>W</mi></mrow></msub>
    <mo>+</mo>
    <msubsup><mi>β</mi><mrow><mi>H</mi><mi>c</mi></mrow><mrow><mi>A</mi><mi>e</mi><mi>r</mi><mi>o</mi></mrow></msubsup>
    <mo>∗</mo>
    <msub><mi>i</mi><mrow><mi>H</mi></mrow></msub>
    <mo>)</mo>
    </math>";
    let exp = input.parse::<MathExpressionTree>().unwrap();
    println!("exp={:?}", exp);
    let s_exp = exp.to_string();
    let content = exp.to_cmml();
    println!("content={:?}", content);
    assert_eq!(s_exp, "(= (D(1, t) s_{c}) (- (* α r_{c}) (* s_{c} (+ (+ (+ (+ (* β_{cc}^{Dc} i_{c}) (* β_{cc}^{Aero} i_{c})) (* β_{cW}^{Aero} i_{W})) (* β_{cW}^{Dc} i_{W})) (* β_{Hc}^{Aero} i_{H})))))");
    assert_eq!(exp.to_latex(), "\\frac{d s_{c}}{dt}=\\alpha*r_{c}-s_{c}*(\\beta_{cc}^{Dc}*i_{c}+\\beta_{cc}^{Aero}*i_{c}+\\beta_{cW}^{Aero}*i_{W}+\\beta_{cW}^{Dc}*i_{W}+\\beta_{Hc}^{Aero}*i_{H})");
}
