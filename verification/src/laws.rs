//! What holds of the library as a whole, proved from the contracts of its functions.
use crate::ast::{view_exprs, CiView, ExprView, MathExpression, OpView};
use crate::display::{display_expr, display_lower, display_upper};
use crate::latex::{latex_at, latex_expr, latex_tree, piece_at, Grouping};
use crate::translate::displayed;
use crate::lexer::{between_brackets, flatten, flatten_all, lexed, lp, multiplies, rp, to_token, with_multiply};
use crate::pratt::{
    expressions_of, following, infix_bp, line_of, min_flat, min_flat_all, min_operands, parse_bp, parse_loop,
    postfix_bp, prefix_bp, product, tree_of, ExprError,
};
use crate::text::{match_len, normalized, replaced, replaced_from, space_run, without_newlines, Rewrite};
use crate::tree::{TokenView, TreeView};
use vstd::prelude::*;

verus! {

// ------------------------------------------------------------------ white space between tags

/// The rewriting of gaps between tags, told of a text and its tails.
spec fn collapse(s: Seq<char>) -> Seq<char>
    decreases s.len(),
{
    if s.len() == 0 {
        Seq::empty()
    } else {
        match match_len(Rewrite::TagGap, s, 0) {
            Some(n) => if n >= 1 && n <= s.len() {
                "><"@ + collapse(s.skip(n as int))
            } else {
                seq![s[0]] + collapse(s.skip(1))
            },
            None => seq![s[0]] + collapse(s.skip(1)),
        }
    }
}

/// Whether a text begins with white space, if any, and then `<`.
spec fn opens_tag(s: Seq<char>) -> bool {
    let k = space_run(s, 0);
    k < s.len() && s[k as int] == '<'
}

spec fn no_newline(s: Seq<char>) -> bool {
    forall|i: int| 0 <= i < s.len() ==> s[i] != '\n'
}

proof fn lemma_space_run_shift(t: Seq<char>, i: int, j: int)
    requires
        0 <= i <= j,
        i <= t.len(),
    ensures
        space_run(t, j) == space_run(t.skip(i), j - i),
    decreases t.len() - j,
{
    if j < t.len() {
        assert(t.skip(i)[j - i] == t[j]);
        if crate::text::is_space(t[j]) {
            lemma_space_run_shift(t, i, j + 1);
        }
    }
}

proof fn lemma_match_shift(t: Seq<char>, i: int)
    requires
        0 <= i < t.len(),
    ensures
        match_len(Rewrite::TagGap, t, i) == match_len(Rewrite::TagGap, t.skip(i), 0),
        match_len(Rewrite::TagGap, t, i) is Some ==> i + match_len(Rewrite::TagGap, t, i)->0 <= t.len(),
{
    lemma_space_run_shift(t, i, i + 1);
    let k = space_run(t, i + 1);
    let s = t.skip(i);
    assert(s[0] == t[i]);
    if i + 1 + k < t.len() {
        assert(s[1 + k as int] == t[i + 1 + k]);
    }
}

proof fn lemma_replaced_is_collapse(t: Seq<char>, i: int)
    requires
        0 <= i <= t.len(),
    ensures
        replaced_from(Rewrite::TagGap, t, i) == collapse(t.skip(i)),
    decreases t.len() - i,
{
    let s = t.skip(i);
    if i < t.len() {
        lemma_match_shift(t, i);
        assert(s[0] == t[i]);
        match match_len(Rewrite::TagGap, t, i) {
            Some(n) => {
                if n >= 1 && i + n <= t.len() {
                    lemma_replaced_is_collapse(t, i + n);
                    assert(s.skip(n as int) =~= t.skip(i + n));
                } else {
                    lemma_replaced_is_collapse(t, i + 1);
                    assert(s.skip(1) =~= t.skip(i + 1));
                }
            },
            None => {
                lemma_replaced_is_collapse(t, i + 1);
                assert(s.skip(1) =~= t.skip(i + 1));
            },
        }
    }
}

proof fn lemma_collapse_first(s: Seq<char>)
    requires
        s.len() > 0,
    ensures
        collapse(s).len() > 0,
        collapse(s)[0] == s[0],
{
    reveal_strlit("><");
}

/// Whether a gap starts at the head of a text is told by the head and by what follows it.
proof fn lemma_match_head(y: Seq<char>)
    requires
        y.len() > 0,
    ensures
        match_len(Rewrite::TagGap, y, 0) is Some <==> (y[0] == '>' && opens_tag(y.skip(1))),
        match_len(Rewrite::TagGap, y, 0) is Some ==> 2 <= match_len(Rewrite::TagGap, y, 0)->0 <= y.len(),
{
    lemma_space_run_shift(y, 1, 1);
    let k = space_run(y, 1);
    if 1 + k < y.len() {
        assert(y.skip(1)[k as int] == y[1 + k as int]);
    }
}

proof fn lemma_collapse_opens(s: Seq<char>)
    ensures
        opens_tag(collapse(s)) == opens_tag(s),
    decreases s.len(),
{
    if s.len() > 0 {
        let u = collapse(s);
        lemma_collapse_first(s);
        if crate::text::is_space(s[0]) {
            let r = collapse(s.skip(1));
            assert(u == seq![s[0]] + r);
            lemma_collapse_opens(s.skip(1));
            lemma_space_run_shift(s, 1, 1);
            lemma_space_run_shift(u, 1, 1);
            assert(u.skip(1) =~= r);
            let k = space_run(s.skip(1), 0);
            let k2 = space_run(r, 0);
            assert(space_run(s, 0) == 1 + k);
            assert(space_run(u, 0) == 1 + k2);
            if k < s.skip(1).len() {
                assert(s.skip(1)[k as int] == s[1 + k as int]);
            }
            if k2 < r.len() {
                assert(r[k2 as int] == u[1 + k2 as int]);
            }
        }
    }
}

proof fn lemma_collapse_idempotent(s: Seq<char>)
    ensures
        collapse(collapse(s)) == collapse(s),
    decreases s.len(),
{
    if s.len() > 0 {
        let u = collapse(s);
        lemma_match_head(s);
        lemma_collapse_first(s);
        reveal_strlit("><");
        if match_len(Rewrite::TagGap, s, 0) is Some {
            let n = match_len(Rewrite::TagGap, s, 0)->0;
            let r = collapse(s.skip(n as int));
            assert(u == "><"@ + r);
            lemma_collapse_idempotent(s.skip(n as int));
            assert(u[0] == '>' && u[1] == '<');
            assert(space_run(u, 1) == 0);
            assert(match_len(Rewrite::TagGap, u, 0) == Some(2nat));
            assert(u.skip(2) =~= r);
        } else {
            let r = collapse(s.skip(1));
            assert(u == seq![s[0]] + r);
            lemma_collapse_idempotent(s.skip(1));
            lemma_collapse_opens(s.skip(1));
            lemma_match_head(u);
            assert(u.skip(1) =~= r);
            assert(match_len(Rewrite::TagGap, u, 0) is None);
        }
    }
}

proof fn lemma_collapse_no_newline(s: Seq<char>)
    requires
        no_newline(s),
    ensures
        no_newline(collapse(s)),
    decreases s.len(),
{
    if s.len() > 0 {
        lemma_match_head(s);
        reveal_strlit("><");
        if match_len(Rewrite::TagGap, s, 0) is Some {
            let n = match_len(Rewrite::TagGap, s, 0)->0;
            lemma_collapse_no_newline(s.skip(n as int));
        } else {
            lemma_collapse_no_newline(s.skip(1));
        }
    }
}

proof fn lemma_filter_keeps(s: Seq<char>)
    requires
        no_newline(s),
    ensures
        without_newlines(s) == s,
    decreases s.len(),
{
    reveal(Seq::filter);
    if s.len() > 0 {
        lemma_filter_keeps(s.drop_last());
        assert(s.drop_last().push(s.last()) =~= s);
    }
}

proof fn lemma_filter_has_none(s: Seq<char>)
    ensures
        no_newline(without_newlines(s)),
    decreases s.len(),
{
    reveal(Seq::filter);
    if s.len() > 0 {
        lemma_filter_has_none(s.drop_last());
    }
}

/// Normalising a text twice gives what normalising it once gives.
pub proof fn lemma_normalized_idempotent(t: Seq<char>)
    ensures
        normalized(normalized(t)) == normalized(t),
{
    let w = without_newlines(t);
    let c = replaced(Rewrite::TagGap, w);
    lemma_replaced_is_collapse(w, 0);
    assert(w.skip(0) =~= w);
    lemma_filter_has_none(t);
    lemma_collapse_no_newline(w);
    lemma_filter_keeps(c);
    lemma_replaced_is_collapse(c, 0);
    assert(c.skip(0) =~= c);
    lemma_collapse_idempotent(w);
}

// ------------------------------------------------------------------ flattening

/// Under an operator that is no minimum, one operand is flattened where it stands.
proof fn lemma_flat_one(a: TreeView)
    requires
        min_flat(a) is Some,
    ensures
        min_flat_all(seq![a], 1) == Some(seq![min_flat(a)->0]),
{
    let v = seq![a];
    assert(min_flat_all(v, 0) == Some(Seq::<TreeView>::empty()));
    assert(Seq::<TreeView>::empty().push(min_flat(a)->0) =~= seq![min_flat(a)->0]);
}

/// Under an operator that is no minimum, two operands are flattened where they stand.
proof fn lemma_flat_pair(a: TreeView, b: TreeView)
    requires
        min_flat(a) is Some,
        min_flat(b) is Some,
    ensures
        min_flat_all(seq![a, b], 2) == Some(seq![min_flat(a)->0, min_flat(b)->0]),
{
    let v = seq![a, b];
    assert(min_flat_all(v, 0) == Some(Seq::<TreeView>::empty()));
    assert(Seq::<TreeView>::empty().push(min_flat(a)->0) =~= seq![min_flat(a)->0]);
    assert(min_flat_all(v, 1) == Some(seq![min_flat(a)->0]));
    assert(seq![min_flat(a)->0].push(min_flat(b)->0) =~= seq![min_flat(a)->0, min_flat(b)->0]);
}

/// A line that is read whole as one expression holds that expression and no other.
proof fn lemma_one_expression(input: Seq<ExprView>)
    requires
        parse_bp(line_of(input), 0) is Ok,
        parse_bp(line_of(input), 0)->Ok_0.1.len() == 0,
    ensures
        expressions_of(input) == Ok::<Seq<TreeView>, ExprError>(seq![parse_bp(line_of(input), 0)->Ok_0.0]),
        tree_of(input) is Ok ==> min_flat(parse_bp(line_of(input), 0)->Ok_0.0) == Some(tree_of(input)->Ok_0),
        tree_of(input) is Ok <==> min_flat(parse_bp(line_of(input), 0)->Ok_0.0) is Some,
{
}

// ------------------------------------------------------------------ precedence

/// An operator in front of an operand binds it more tightly than a sum does: the tokens
/// `f x + y` are read as the sum of `f x` and `y`, whatever operator `f` can stand in front.
pub proof fn lemma_prefix_binds_tighter(f: OpView, x: ExprView, y: ExprView)
    requires
        prefix_bp(f) is Some,
    ensures
        parse_bp(
            seq![TokenView::Op(f), TokenView::Atom(x), TokenView::Op(OpView::Add), TokenView::Atom(y)],
            0,
        ) == Ok::<(TreeView, Seq<TokenView>), ExprError>(
            (
                TreeView::Cons(
                    OpView::Add,
                    seq![TreeView::Cons(f, seq![TreeView::Atom(x)]), TreeView::Atom(y)],
                ),
                Seq::empty(),
            ),
        ),
{
    let s = seq![TokenView::Op(f), TokenView::Atom(x), TokenView::Op(OpView::Add), TokenView::Atom(y)];
    let s1 = seq![TokenView::Atom(x), TokenView::Op(OpView::Add), TokenView::Atom(y)];
    let s2 = seq![TokenView::Op(OpView::Add), TokenView::Atom(y)];
    let s3 = seq![TokenView::Atom(y)];
    let s4 = Seq::<TokenView>::empty();
    let r = prefix_bp(f)->0;
    assert(s.skip(1) =~= s1);
    assert(s1.skip(1) =~= s2);
    assert(s2.skip(1) =~= s3);
    assert(s3.skip(1) =~= s4);
    let fx = TreeView::Cons(f, seq![TreeView::Atom(x)]);
    let sum = TreeView::Cons(OpView::Add, seq![fx, TreeView::Atom(y)]);
    // the operand of the sum on the right
    assert(parse_loop(TreeView::Atom(y), s4, 4) == Ok::<(TreeView, Seq<TokenView>), ExprError>(
        (TreeView::Atom(y), s4),
    ));
    assert(parse_bp(s3, 4) == Ok::<(TreeView, Seq<TokenView>), ExprError>((TreeView::Atom(y), s4)));
    // the operand of `f` ends before the sign of the sum
    assert(r >= 9);
    assert(parse_loop(TreeView::Atom(x), s2, r) == Ok::<(TreeView, Seq<TokenView>), ExprError>(
        (TreeView::Atom(x), s2),
    ));
    assert(parse_bp(s1, r) == Ok::<(TreeView, Seq<TokenView>), ExprError>((TreeView::Atom(x), s2)));
    // the sum
    assert(parse_loop(sum, s4, 0) == Ok::<(TreeView, Seq<TokenView>), ExprError>((sum, s4)));
    assert(parse_loop(fx, s2, 0) == Ok::<(TreeView, Seq<TokenView>), ExprError>((sum, s4)));
    assert(!(f is Lparen));
}

/// The same of a document: the nodes `f x + y`, with `x` and `y` leaves that are no
/// operators and `f` no minimum, make the tree of the sum of `f x` and `y`.
pub proof fn lemma_prefix_binds_tighter_in_document(f: OpView, x: ExprView, y: ExprView)
    requires
        prefix_bp(f) is Some,
        !(f is Min),
        flatten(x) == seq![x],
        flatten(y) == seq![y],
        !(x is Mo),
        !(y is Mo),
    ensures
        tree_of(seq![ExprView::Mo(f), x, ExprView::Mo(OpView::Add), y]) == Ok::<TreeView, ExprError>(
            TreeView::Cons(OpView::Add, seq![TreeView::Cons(f, seq![TreeView::Atom(x)]), TreeView::Atom(y)]),
        ),
{
    let input = seq![ExprView::Mo(f), x, ExprView::Mo(OpView::Add), y];
    let tokens = seq![TokenView::Op(f), TokenView::Atom(x), TokenView::Op(OpView::Add), TokenView::Atom(y)];
    // flattening keeps the four nodes
    assert(flatten(ExprView::Mo(f)) == seq![ExprView::Mo(f)]);
    assert(flatten(ExprView::Mo(OpView::Add)) == seq![ExprView::Mo(OpView::Add)]);
    assert(flatten_all(input, 0) =~= Seq::<ExprView>::empty());
    assert(flatten_all(input, 1) =~= seq![ExprView::Mo(f)]);
    assert(flatten_all(input, 2) =~= seq![ExprView::Mo(f), x]);
    assert(flatten_all(input, 3) =~= seq![ExprView::Mo(f), x, ExprView::Mo(OpView::Add)]);
    assert(flatten_all(input, 4) =~= input);
    // no multiplication is meant anywhere
    assert(with_multiply(input, 1) =~= seq![TokenView::Op(f)]);
    assert(!multiplies(input[0], input[1]));
    assert(with_multiply(input, 2) =~= seq![TokenView::Op(f), TokenView::Atom(x)]);
    assert(with_multiply(input, 3) =~= seq![TokenView::Op(f), TokenView::Atom(x), TokenView::Op(OpView::Add)]);
    assert(!multiplies(input[2], input[3]));
    assert(with_multiply(input, 4) =~= tokens);
    assert(lexed(input) == tokens);
    assert(between_brackets(tokens, 1) =~= seq![TokenView::Op(f)]);
    assert(between_brackets(tokens, 2) =~= seq![TokenView::Op(f), TokenView::Atom(x)]);
    assert(between_brackets(tokens, 3) =~= seq![
        TokenView::Op(f),
        TokenView::Atom(x),
        TokenView::Op(OpView::Add),
    ]);
    assert(between_brackets(tokens, 4) =~= tokens);
    assert(line_of(input) == tokens);
    lemma_prefix_binds_tighter(f, x, y);
    let fx = TreeView::Cons(f, seq![TreeView::Atom(x)]);
    let sum = TreeView::Cons(OpView::Add, seq![fx, TreeView::Atom(y)]);
    // no minimum is in the tree
    assert(min_flat(TreeView::Atom(x)) == Some(TreeView::Atom(x)));
    assert(min_flat(TreeView::Atom(y)) == Some(TreeView::Atom(y)));
    lemma_flat_one(TreeView::Atom(x));
    assert(min_flat(fx) == Some(fx));
    lemma_flat_pair(fx, TreeView::Atom(y));
    assert(min_flat(sum) == Some(sum));
    lemma_one_expression(input);
}

// ------------------------------------------------------------------ fractions

/// Whether a closing bracket heads a line.
spec fn closes_first(suffix: Seq<TokenView>) -> bool {
    suffix.len() > 0 && suffix[0] == TokenView::Op(OpView::Rparen)
}

/// What is read from a line is read from it unchanged where a closing bracket and more
/// tokens follow the line.
proof fn lemma_frame_bp(s: Seq<TokenView>, min_bp: u8, suffix: Seq<TokenView>)
    requires
        parse_bp(s, min_bp) is Ok,
        closes_first(suffix),
    ensures
        parse_bp(s + suffix, min_bp) == Ok::<(TreeView, Seq<TokenView>), ExprError>(
            (parse_bp(s, min_bp)->Ok_0.0, parse_bp(s, min_bp)->Ok_0.1 + suffix),
        ),
    decreases s.len(), 1nat,
{
    let t = s + suffix;
    assert(s.len() > 0);
    assert(t[0] == s[0]);
    assert(t.skip(1) =~= s.skip(1) + suffix);
    match s[0] {
        TokenView::Eof => {},
        TokenView::Atom(e) => {
            lemma_frame_loop(TreeView::Atom(e), s.skip(1), min_bp, suffix);
        },
        TokenView::Op(OpView::Lparen) => {
            lemma_frame_bp(s.skip(1), 0, suffix);
            let inner = parse_bp(s.skip(1), 0)->Ok_0.0;
            let rest = parse_bp(s.skip(1), 0)->Ok_0.1;
            assert((rest + suffix)[0] == rest[0]);
            assert((rest + suffix).skip(1) =~= rest.skip(1) + suffix);
            lemma_frame_loop(inner, rest.skip(1), min_bp, suffix);
        },
        TokenView::Op(op) => {
            let r_bp = prefix_bp(op)->0;
            lemma_frame_bp(s.skip(1), r_bp, suffix);
            let rhs = parse_bp(s.skip(1), r_bp)->Ok_0.0;
            let rest = parse_bp(s.skip(1), r_bp)->Ok_0.1;
            lemma_frame_loop(TreeView::Cons(op, seq![rhs]), rest, min_bp, suffix);
        },
    }
}

proof fn lemma_frame_loop(lhs: TreeView, s: Seq<TokenView>, min_bp: u8, suffix: Seq<TokenView>)
    requires
        parse_loop(lhs, s, min_bp) is Ok,
        closes_first(suffix),
    ensures
        parse_loop(lhs, s + suffix, min_bp) == Ok::<(TreeView, Seq<TokenView>), ExprError>(
            (parse_loop(lhs, s, min_bp)->Ok_0.0, parse_loop(lhs, s, min_bp)->Ok_0.1 + suffix),
        ),
    decreases s.len(), 0nat,
{
    let t = s + suffix;
    if s.len() == 0 {
        assert(t =~= suffix);
        assert(s + suffix =~= suffix);
    } else {
        assert(t[0] == s[0]);
        assert(t.skip(1) =~= s.skip(1) + suffix);
        match s[0] {
            TokenView::Eof => {},
            TokenView::Atom(_) => {},
            TokenView::Op(op) => {
                match postfix_bp(op) {
                    Some(l_bp) => {
                        if l_bp >= min_bp {
                            lemma_frame_loop(TreeView::Cons(op, seq![lhs]), s.skip(1), min_bp, suffix);
                        }
                    },
                    None => {
                        match infix_bp(op) {
                            None => {},
                            Some((l_bp, r_bp)) => {
                                if l_bp >= min_bp {
                                    lemma_frame_bp(s.skip(1), r_bp, suffix);
                                    let rhs = parse_bp(s.skip(1), r_bp)->Ok_0.0;
                                    let rest = parse_bp(s.skip(1), r_bp)->Ok_0.1;
                                    lemma_frame_loop(TreeView::Cons(op, seq![lhs, rhs]), rest, min_bp, suffix);
                                }
                            },
                        }
                    },
                }
            },
        }
    }
}

/// A line with the multiplications that are meant written out.
spec fn multiplied(s: Seq<ExprView>) -> Seq<TokenView> {
    with_multiply(s, s.len())
}

/// A line with a multiplication between brackets that meet.
spec fn parted(t: Seq<TokenView>) -> Seq<TokenView> {
    between_brackets(t, t.len())
}

proof fn lemma_multiply_prefix(a: Seq<ExprView>, b: Seq<ExprView>, n: nat)
    requires
        n <= a.len(),
    ensures
        with_multiply(a + b, n) == with_multiply(a, n),
    decreases n,
{
    if n > 0 {
        lemma_multiply_prefix(a, b, (n - 1) as nat);
        assert((a + b)[n - 1] == a[n - 1]);
        if n > 1 {
            assert((a + b)[n - 2] == a[n - 2]);
        }
    }
}

/// Where no multiplication is meant between the last token of one line and the first of
/// the next, writing out the multiplications of both together is writing them out in each.
proof fn lemma_multiply_joined(a: Seq<ExprView>, b: Seq<ExprView>, k: nat)
    requires
        a.len() > 0,
        1 <= k <= b.len(),
        !multiplies(a.last(), b[0]),
    ensures
        with_multiply(a + b, a.len() + k) == multiplied(a) + with_multiply(b, k),
    decreases k,
{
    let s = a + b;
    let n = a.len() + k;
    assert(s[n - 1] == b[k - 1]);
    if k == 1 {
        lemma_multiply_prefix(a, b, a.len());
        assert(s[n - 2] == a.last());
    } else {
        lemma_multiply_joined(a, b, (k - 1) as nat);
        assert(s[n - 2] == b[k - 2]);
        let head = multiplied(a);
        let mid = with_multiply(b, (k - 1) as nat);
        if multiplies(b[k - 2], b[k - 1]) {
            assert(head + mid + seq![TokenView::Op(OpView::Multiply)] + seq![to_token(b[k - 1])] =~= head + (mid
                + seq![TokenView::Op(OpView::Multiply)] + seq![to_token(b[k - 1])]));
        } else {
            assert(head + mid + seq![to_token(b[k - 1])] =~= head + (mid + seq![to_token(b[k - 1])]));
        }
    }
}

proof fn lemma_multiplied_add(a: Seq<ExprView>, b: Seq<ExprView>)
    requires
        a.len() > 0 && b.len() > 0 ==> !multiplies(a.last(), b[0]),
    ensures
        multiplied(a + b) == multiplied(a) + multiplied(b),
{
    if a.len() == 0 {
        assert(a + b =~= b);
        assert(multiplied(a) + multiplied(b) =~= multiplied(b));
    } else if b.len() == 0 {
        assert(a + b =~= a);
        assert(multiplied(a) + multiplied(b) =~= multiplied(a));
    } else {
        lemma_multiply_joined(a, b, b.len());
    }
}

proof fn lemma_part_prefix(a: Seq<TokenView>, b: Seq<TokenView>, n: nat)
    requires
        n <= a.len(),
    ensures
        between_brackets(a + b, n) == between_brackets(a, n),
    decreases n,
{
    if n > 0 {
        lemma_part_prefix(a, b, (n - 1) as nat);
        assert((a + b)[n - 1] == a[n - 1]);
        if n > 1 {
            assert((a + b)[n - 2] == a[n - 2]);
        }
    }
}

proof fn lemma_part_joined(a: Seq<TokenView>, b: Seq<TokenView>, k: nat)
    requires
        a.len() > 0,
        1 <= k <= b.len(),
        !(a.last() == TokenView::Op(OpView::Rparen) && b[0] == TokenView::Op(OpView::Lparen)),
    ensures
        between_brackets(a + b, a.len() + k) == parted(a) + between_brackets(b, k),
    decreases k,
{
    let s = a + b;
    let n = a.len() + k;
    assert(s[n - 1] == b[k - 1]);
    if k == 1 {
        lemma_part_prefix(a, b, a.len());
        assert(s[n - 2] == a.last());
    } else {
        lemma_part_joined(a, b, (k - 1) as nat);
        assert(s[n - 2] == b[k - 2]);
        let head = parted(a);
        let mid = between_brackets(b, (k - 1) as nat);
        if b[k - 2] == TokenView::Op(OpView::Rparen) && b[k - 1] == TokenView::Op(OpView::Lparen) {
            assert(head + mid + seq![TokenView::Op(OpView::Multiply)] + seq![b[k - 1]] =~= head + (mid + seq![
                TokenView::Op(OpView::Multiply),
            ] + seq![b[k - 1]]));
        } else {
            assert(head + mid + seq![b[k - 1]] =~= head + (mid + seq![b[k - 1]]));
        }
    }
}

proof fn lemma_parted_add(a: Seq<TokenView>, b: Seq<TokenView>)
    requires
        a.len() > 0 && b.len() > 0 ==> !(a.last() == TokenView::Op(OpView::Rparen) && b[0] == TokenView::Op(
            OpView::Lparen,
        )),
    ensures
        parted(a + b) == parted(a) + parted(b),
{
    if a.len() == 0 {
        assert(a + b =~= b);
        assert(parted(a) + parted(b) =~= parted(b));
    } else if b.len() == 0 {
        assert(a + b =~= a);
        assert(parted(a) + parted(b) =~= parted(a));
    } else {
        lemma_part_joined(a, b, b.len());
    }
}

/// Whether the whole line of a document is read as its first expression.
pub open spec fn reads_whole(input: Seq<ExprView>) -> bool {
    parse_bp(line_of(input), 0) is Ok && parse_bp(line_of(input), 0)->Ok_0.1.len() == 0
}

proof fn lemma_line_of_one(x: ExprView)
    ensures
        line_of(seq![x]) == parted(multiplied(flatten(x))),
{
    let input = seq![x];
    assert(flatten_all(input, 0) =~= Seq::<ExprView>::empty());
    assert(flatten_all(input, 1) =~= flatten(x));
}

proof fn lemma_single_token(e: ExprView)
    ensures
        multiplied(seq![e]) == seq![to_token(e)],
        parted(seq![to_token(e)]) == seq![to_token(e)],
{
}

/// The line of a fraction: its numerator and its denominator in brackets, the sign of the
/// division between them.
proof fn lemma_line_of_fraction(n: ExprView, d: ExprView)
    ensures
        line_of(seq![ExprView::Mfrac(Box::new(n), Box::new(d))]) == seq![TokenView::Op(OpView::Lparen)] + line_of(
            seq![n],
        ) + seq![TokenView::Op(OpView::Rparen)] + seq![TokenView::Op(OpView::Divide)] + seq![
            TokenView::Op(OpView::Lparen),
        ] + line_of(seq![d]) + seq![TokenView::Op(OpView::Rparen)],
{
    let frac = ExprView::Mfrac(Box::new(n), Box::new(d));
    let div = ExprView::Mo(OpView::Divide);
    let num = flatten(n);
    let den = flatten(d);
    let open = TokenView::Op(OpView::Lparen);
    let close = TokenView::Op(OpView::Rparen);
    let over = TokenView::Op(OpView::Divide);
    lemma_line_of_one(frac);
    lemma_line_of_one(n);
    lemma_line_of_one(d);
    lemma_single_token(lp());
    lemma_single_token(rp());
    lemma_single_token(div);
    // the nodes
    let a1 = seq![lp()];
    let a2 = a1 + num;
    let a3 = a2 + seq![rp()];
    let a4 = a3 + seq![div];
    let a5 = a4 + seq![lp()];
    let a6 = a5 + den;
    let a7 = a6 + seq![rp()];
    assert(flatten(frac) == a7);
    lemma_multiplied_add(a1, num);
    lemma_multiplied_add(a2, seq![rp()]);
    lemma_multiplied_add(a3, seq![div]);
    assert(a4.last() == div);
    lemma_multiplied_add(a4, seq![lp()]);
    assert(a5.last() == lp());
    lemma_multiplied_add(a5, den);
    lemma_multiplied_add(a6, seq![rp()]);
    // the tokens
    let wn = multiplied(num);
    let wd = multiplied(den);
    let b1 = seq![open];
    let b2 = b1 + wn;
    let b3 = b2 + seq![close];
    let b4 = b3 + seq![over];
    let b5 = b4 + seq![open];
    let b6 = b5 + wd;
    let b7 = b6 + seq![close];
    assert(multiplied(a7) == b7);
    lemma_parted_add(b1, wn);
    lemma_parted_add(b2, seq![close]);
    lemma_parted_add(b3, seq![over]);
    assert(b4.last() == over);
    lemma_parted_add(b4, seq![open]);
    assert(b5.last() == open);
    lemma_parted_add(b5, wd);
    lemma_parted_add(b6, seq![close]);
}

/// A fraction is the division of what its numerator is by what its denominator is, however
/// many factors stand side by side in either: where the line of each is read whole as one
/// expression, the tree of the fraction is the division of their trees.
pub proof fn lemma_fraction_is_division(n: ExprView, d: ExprView)
    requires
        reads_whole(seq![n]),
        reads_whole(seq![d]),
        tree_of(seq![n]) is Ok,
        tree_of(seq![d]) is Ok,
    ensures
        tree_of(seq![ExprView::Mfrac(Box::new(n), Box::new(d))]) == Ok::<TreeView, ExprError>(
            TreeView::Cons(OpView::Divide, seq![tree_of(seq![n])->Ok_0, tree_of(seq![d])->Ok_0]),
        ),
{
    let frac = ExprView::Mfrac(Box::new(n), Box::new(d));
    let open = TokenView::Op(OpView::Lparen);
    let close = TokenView::Op(OpView::Rparen);
    let over = TokenView::Op(OpView::Divide);
    let ln = line_of(seq![n]);
    let ld = line_of(seq![d]);
    let pn = parse_bp(ln, 0)->Ok_0.0;
    let pd = parse_bp(ld, 0)->Ok_0.0;
    let none = Seq::<TokenView>::empty();
    assert(parse_bp(ln, 0)->Ok_0.1 =~= none);
    assert(parse_bp(ld, 0)->Ok_0.1 =~= none);
    lemma_line_of_fraction(n, d);
    let line = line_of(seq![frac]);
    let s3 = seq![open] + ld + seq![close];
    let s2 = seq![over] + s3;
    let s1 = seq![close] + s2;
    assert(line =~= seq![open] + (ln + s1));
    assert(line.skip(1) =~= ln + s1);
    // the numerator, up to its closing bracket
    lemma_frame_bp(ln, 0, s1);
    assert(none + s1 =~= s1);
    assert(parse_bp(ln + s1, 0) == Ok::<(TreeView, Seq<TokenView>), ExprError>((pn, s1)));
    assert(s1.skip(1) =~= s2);
    // the denominator, up to its closing bracket
    assert(s2.skip(1) =~= s3);
    assert(s3.skip(1) =~= ld + seq![close]);
    lemma_frame_bp(ld, 0, seq![close]);
    assert(none + seq![close] =~= seq![close]);
    assert(seq![close].skip(1) =~= none);
    assert(parse_loop(pd, none, 10) == Ok::<(TreeView, Seq<TokenView>), ExprError>((pd, none)));
    assert(parse_bp(s3, 10) == Ok::<(TreeView, Seq<TokenView>), ExprError>((pd, none)));
    // the division
    let whole = TreeView::Cons(OpView::Divide, seq![pn, pd]);
    assert(parse_loop(whole, none, 0) == Ok::<(TreeView, Seq<TokenView>), ExprError>((whole, none)));
    assert(parse_loop(pn, s2, 0) == Ok::<(TreeView, Seq<TokenView>), ExprError>((whole, none)));
    assert(parse_bp(line, 0) == Ok::<(TreeView, Seq<TokenView>), ExprError>((whole, none)));
    // minima are drawn together in the numerator and in the denominator
    lemma_one_expression(seq![n]);
    lemma_one_expression(seq![d]);
    lemma_one_expression(seq![frac]);
    lemma_flat_pair(pn, pd);
}

// ------------------------------------------------------------------ repeatability

/// The prefix form that `display_of` writes is told by the document alone: two documents
/// with the same nodes have the same form, or fail with the same error.
pub proof fn lemma_display_repeatable(a: Seq<MathExpression>, b: Seq<MathExpression>)
    requires
        view_exprs(a) == view_exprs(b),
    ensures
        displayed(view_exprs(a)) == displayed(view_exprs(b)),
{
}

// ------------------------------------------------------------------ the exponential

/// A power of the name `e` is the exponential of the exponent, no power: where the line of
/// the exponent is read whole as one expression, the tree of `e` with a superscript is the
/// exponential of the tree of the superscript.
pub proof fn lemma_power_of_e_is_exponential(e: CiView, x: ExprView)
    requires
        *e.content == ExprView::Mi("e"@),
        reads_whole(seq![x]),
        tree_of(seq![x]) is Ok,
    ensures
        tree_of(seq![ExprView::Msup(Box::new(ExprView::Ci(e)), Box::new(x))]) == Ok::<TreeView, ExprError>(
            TreeView::Cons(OpView::Exp, seq![tree_of(seq![x])->Ok_0]),
        ),
{
    let whole = ExprView::Msup(Box::new(ExprView::Ci(e)), Box::new(x));
    let exp = ExprView::Mo(OpView::Exp);
    let open = TokenView::Op(OpView::Lparen);
    let close = TokenView::Op(OpView::Rparen);
    let sign = TokenView::Op(OpView::Exp);
    let inner = flatten(x);
    lemma_line_of_one(whole);
    lemma_line_of_one(x);
    lemma_single_token(exp);
    lemma_single_token(lp());
    lemma_single_token(rp());
    // the nodes
    let a1 = seq![exp];
    let a2 = a1 + seq![lp()];
    let a3 = a2 + inner;
    let a4 = a3 + seq![rp()];
    assert(flatten(whole) == a4);
    lemma_multiplied_add(a1, seq![lp()]);
    assert(a2.last() == lp());
    lemma_multiplied_add(a2, inner);
    lemma_multiplied_add(a3, seq![rp()]);
    // the tokens
    let wx = multiplied(inner);
    let b1 = seq![sign];
    let b2 = b1 + seq![open];
    let b3 = b2 + wx;
    let b4 = b3 + seq![close];
    assert(multiplied(a4) == b4);
    lemma_parted_add(b1, seq![open]);
    assert(b2.last() == open);
    lemma_parted_add(b2, wx);
    lemma_parted_add(b3, seq![close]);
    let lx = line_of(seq![x]);
    let line = line_of(seq![whole]);
    assert(line == seq![sign] + seq![open] + lx + seq![close]);
    // reading the line
    let px = parse_bp(lx, 0)->Ok_0.0;
    let none = Seq::<TokenView>::empty();
    assert(parse_bp(lx, 0)->Ok_0.1 =~= none);
    let s1 = seq![open] + lx + seq![close];
    assert(line =~= seq![sign] + s1);
    assert(line.skip(1) =~= s1);
    assert(s1.skip(1) =~= lx + seq![close]);
    lemma_frame_bp(lx, 0, seq![close]);
    assert(none + seq![close] =~= seq![close]);
    assert(seq![close].skip(1) =~= none);
    assert(parse_loop(px, none, 21) == Ok::<(TreeView, Seq<TokenView>), ExprError>((px, none)));
    assert(parse_bp(s1, 21) == Ok::<(TreeView, Seq<TokenView>), ExprError>((px, none)));
    let tree = TreeView::Cons(OpView::Exp, seq![px]);
    assert(parse_loop(tree, none, 0) == Ok::<(TreeView, Seq<TokenView>), ExprError>((tree, none)));
    assert(parse_bp(line, 0) == Ok::<(TreeView, Seq<TokenView>), ExprError>((tree, none)));
    lemma_one_expression(seq![x]);
    lemma_one_expression(seq![whole]);
    lemma_flat_one(px);
}

// ------------------------------------------------------------------ integrals in LaTeX

/// The four forms of an integral in LaTeX. With both limits: the limits, the integrand, and
/// `d` with the variable. With one limit: that limit and the integrand. With none: the
/// integrand alone, in brackets where it is a sum.
pub proof fn lemma_integral_forms(
    lower: Option<Box<ExprView>>,
    upper: Option<Box<ExprView>>,
    variable: ExprView,
    v: Seq<TreeView>,
)
    ensures
        ({
            let t = TreeView::Cons(OpView::Int { lower, upper, variable: Box::new(variable) }, v);
            &&& lower is Some && upper is Some ==> latex_tree(t) == "\\int_{"@ + latex_expr(*lower->0) + "}^{"@
                + latex_expr(*upper->0) + "}"@ + latex_at(v, 0) + " d"@ + display_expr(variable)
            &&& lower is Some && upper is None ==> latex_tree(t) == "\\int"@ + ("_{"@ + display_expr(*lower->0)
                + "}"@) + Seq::<char>::empty() + latex_at(v, 0)
            &&& lower is None && upper is Some ==> latex_tree(t) == "\\int"@ + Seq::<char>::empty() + ("^{"@
                + display_expr(*upper->0) + "}"@) + latex_at(v, 0)
            &&& lower is None && upper is None ==> latex_tree(t) == "\\int "@ + piece_at(v, 0, Grouping::Grouped)
        }),
{
    let t = TreeView::Cons(OpView::Int { lower, upper, variable: Box::new(variable) }, v);
    assert(display_lower(None) == Seq::<char>::empty());
    assert(display_upper(None) == Seq::<char>::empty());
}

// ------------------------------------------------------------------ minima

/// The nodes of a minimum of the items from the `k`-th on: each item behind the sign of the
/// minimum.
pub open spec fn min_nodes(items: Seq<ExprView>, k: nat) -> Seq<ExprView>
    decreases items.len() - k,
{
    if k >= items.len() {
        Seq::empty()
    } else {
        seq![ExprView::Mo(OpView::Min)] + seq![items[k as int]] + min_nodes(items, k + 1)
    }
}

/// The items of a minimum as leaves of a tree.
pub open spec fn leaves(items: Seq<ExprView>) -> Seq<TreeView> {
    Seq::new(items.len(), |i: int| TreeView::Atom(items[i]))
}

spec fn min_tokens(items: Seq<ExprView>, k: nat) -> Seq<TokenView>
    decreases items.len() - k,
{
    if k >= items.len() {
        Seq::empty()
    } else {
        seq![TokenView::Op(OpView::Min)] + seq![TokenView::Atom(items[k as int])] + min_tokens(items, k + 1)
    }
}

/// The minimum of the items from the `k`-th on as the parser nests it: each in a minimum
/// with all that follow.
spec fn nested_min(items: Seq<ExprView>, k: nat) -> TreeView
    decreases items.len() - k,
{
    if k + 1 >= items.len() {
        TreeView::Atom(items[k as int])
    } else {
        TreeView::Cons(OpView::Min, seq![TreeView::Atom(items[k as int]), nested_min(items, k + 1)])
    }
}

/// Whether no item of a list is an operator.
pub open spec fn no_operators(items: Seq<ExprView>) -> bool {
    forall|i: int| 0 <= i < items.len() ==> !(#[trigger] items[i] is Mo)
}

proof fn lemma_min_line(items: Seq<ExprView>, k: nat)
    requires
        no_operators(items),
        k <= items.len(),
    ensures
        multiplied(min_nodes(items, k)) == min_tokens(items, k),
        parted(min_tokens(items, k)) == min_tokens(items, k),
        k < items.len() ==> min_nodes(items, k).len() > 0 && min_nodes(items, k)[0] == ExprView::Mo(OpView::Min)
            && min_nodes(items, k).last() == items.last(),
        k < items.len() ==> min_tokens(items, k).len() > 0 && min_tokens(items, k)[0] == TokenView::Op(OpView::Min)
            && min_tokens(items, k).last() == TokenView::Atom(items.last()),
    decreases items.len() - k,
{
    if k < items.len() {
        lemma_min_line(items, k + 1);
        let sign = ExprView::Mo(OpView::Min);
        let item = items[k as int];
        let head = seq![sign] + seq![item];
        let rest = min_nodes(items, k + 1);
        assert(!(item is Mo));
        lemma_single_token(sign);
        lemma_single_token(item);
        lemma_multiplied_add(seq![sign], seq![item]);
        assert(head.last() == item);
        lemma_multiplied_add(head, rest);
        let sign_token = TokenView::Op(OpView::Min);
        let item_token = TokenView::Atom(item);
        let head_tokens = seq![sign_token] + seq![item_token];
        let rest_tokens = min_tokens(items, k + 1);
        assert(parted(seq![sign_token]) == seq![sign_token]);
        assert(parted(seq![item_token]) == seq![item_token]);
        lemma_parted_add(seq![sign_token], seq![item_token]);
        assert(head_tokens.last() == item_token);
        lemma_parted_add(head_tokens, rest_tokens);
        if k + 1 == items.len() {
            assert(rest =~= Seq::<ExprView>::empty());
            assert(rest_tokens =~= Seq::<TokenView>::empty());
            assert(min_nodes(items, k) =~= head);
            assert(min_tokens(items, k) =~= head_tokens);
        }
    } else {
        assert(min_nodes(items, k) =~= Seq::<ExprView>::empty());
    }
}

/// The items from the `k`-th on, with the sign of the minimum between them, are read as the
/// nested minimum of them.
proof fn lemma_min_reads_nested(items: Seq<ExprView>, k: nat)
    requires
        k < items.len(),
    ensures
        parse_bp(seq![TokenView::Atom(items[k as int])] + min_tokens(items, k + 1), 13) == Ok::<
            (TreeView, Seq<TokenView>),
            ExprError,
        >((nested_min(items, k), Seq::empty())),
    decreases items.len() - k,
{
    let none = Seq::<TokenView>::empty();
    let rest = min_tokens(items, k + 1);
    let s = seq![TokenView::Atom(items[k as int])] + rest;
    assert(s.skip(1) =~= rest);
    if k + 1 >= items.len() {
        assert(rest =~= none);
        let leaf = TreeView::Atom(items[k as int]);
        assert(parse_loop(leaf, none, 13) == Ok::<(TreeView, Seq<TokenView>), ExprError>((leaf, none)));
    } else {
        lemma_min_reads_nested(items, k + 1);
        let next = seq![TokenView::Atom(items[k + 1 as int])] + min_tokens(items, k + 2);
        assert(rest =~= seq![TokenView::Op(OpView::Min)] + next);
        assert(rest.skip(1) =~= next);
        let leaf = TreeView::Atom(items[k as int]);
        let both = TreeView::Cons(OpView::Min, seq![leaf, nested_min(items, k + 1)]);
        assert(rest[0] == TokenView::Op(OpView::Min));
        assert(parse_bp(next, 13) == Ok::<(TreeView, Seq<TokenView>), ExprError>(
            (nested_min(items, k + 1), none),
        ));
        assert(parse_loop(both, none, 13) == Ok::<(TreeView, Seq<TokenView>), ExprError>((both, none)));
        assert(parse_loop(leaf, rest, 13) == Ok::<(TreeView, Seq<TokenView>), ExprError>((both, none)));
    }
}

/// Drawing a nested minimum of leaves together gives the minimum of all of them.
proof fn lemma_nested_min_flat(items: Seq<ExprView>, k: nat)
    requires
        k < items.len(),
    ensures
        k + 1 == items.len() ==> min_flat(nested_min(items, k)) == Some(TreeView::Atom(items[k as int])),
        k + 1 < items.len() ==> min_flat(nested_min(items, k)) == Some(
            TreeView::Cons(OpView::Min, leaves(items).skip(k as int)),
        ),
    decreases items.len() - k,
{
    if k + 1 < items.len() {
        lemma_nested_min_flat(items, k + 1);
        let first = TreeView::Atom(items[k as int]);
        let second = nested_min(items, k + 1);
        let y = seq![first, second];
        assert(nested_min(items, k) == TreeView::Cons(OpView::Min, y));
        if k + 2 == items.len() {
            assert(second == TreeView::Atom(items[k + 1 as int]));
            assert(y =~= leaves(items).skip(k as int));
        } else {
            let third = nested_min(items, k + 2);
            let inner = seq![TreeView::Atom(items[k + 1 as int]), third];
            assert(second == TreeView::Cons(OpView::Min, inner));
            assert(min_flat(inner[0]) == Some(inner[0]));
            if k + 3 == items.len() {
                assert(min_flat(third) == Some(third));
                assert(min_operands(third) == seq![third]);
                assert(y.remove(1).push(inner[0]) + seq![third] =~= leaves(items).skip(k as int));
            } else {
                lemma_nested_min_flat(items, k + 2);
                let flat = TreeView::Cons(OpView::Min, leaves(items).skip(k + 2 as int));
                assert(min_flat(third) == Some(flat));
                assert(min_operands(flat) == leaves(items).skip(k + 2 as int));
                assert(y.remove(1).push(inner[0]) + leaves(items).skip(k + 2 as int) =~= leaves(items).skip(k as int));
            }
        }
    }
}

/// A minimum of two or more leaves is one minimum of all of them, none lost and none
/// nested: the first leaf comes last, the others keep their order.
pub proof fn lemma_minimum_is_flat(op: ExprView, items: Seq<ExprView>)
    requires
        items.len() >= 2,
        no_operators(items),
    ensures
        tree_of(seq![ExprView::Minimize(Box::new(op), min_nodes(items, 0))]) == Ok::<TreeView, ExprError>(
            TreeView::Cons(OpView::Min, leaves(items).skip(1).push(TreeView::Atom(items[0]))),
        ),
{
    let whole = ExprView::Minimize(Box::new(op), min_nodes(items, 0));
    let open = TokenView::Op(OpView::Lparen);
    let close = TokenView::Op(OpView::Rparen);
    let none = Seq::<TokenView>::empty();
    let nodes = min_nodes(items, 0);
    let tokens = min_tokens(items, 0);
    lemma_line_of_one(whole);
    lemma_min_line(items, 0);
    lemma_single_token(lp());
    lemma_single_token(rp());
    // the line
    assert(flatten(whole) == seq![lp()] + nodes + seq![rp()]);
    lemma_multiplied_add(seq![lp()], nodes);
    lemma_multiplied_add(seq![lp()] + nodes, seq![rp()]);
    lemma_parted_add(seq![open], tokens);
    assert((seq![open] + tokens).last() == tokens.last());
    lemma_parted_add(seq![open] + tokens, seq![close]);
    let line = line_of(seq![whole]);
    assert(line == seq![open] + tokens + seq![close]);
    // the first item, under the sign in front of it
    let first = TreeView::Atom(items[0]);
    let under = TreeView::Cons(OpView::Min, seq![first]);
    let after = min_tokens(items, 1);
    let following = seq![TokenView::Atom(items[1])] + min_tokens(items, 2);
    assert(tokens =~= seq![TokenView::Op(OpView::Min)] + (seq![TokenView::Atom(items[0])] + after));
    assert(tokens.skip(1) =~= seq![TokenView::Atom(items[0])] + after);
    assert(tokens.skip(1).skip(1) =~= after);
    assert(after =~= seq![TokenView::Op(OpView::Min)] + following);
    assert(after.skip(1) =~= following);
    assert(parse_loop(first, after, 25) == Ok::<(TreeView, Seq<TokenView>), ExprError>((first, after)));
    assert(parse_bp(tokens.skip(1), 25) == Ok::<(TreeView, Seq<TokenView>), ExprError>((first, after)));
    // the others, nested
    lemma_min_reads_nested(items, 1);
    let nested = nested_min(items, 1);
    let chain = TreeView::Cons(OpView::Min, seq![under, nested]);
    assert(parse_loop(chain, none, 0) == Ok::<(TreeView, Seq<TokenView>), ExprError>((chain, none)));
    assert(parse_loop(under, after, 0) == Ok::<(TreeView, Seq<TokenView>), ExprError>((chain, none)));
    assert(parse_bp(tokens, 0) == Ok::<(TreeView, Seq<TokenView>), ExprError>((chain, none)));
    // in brackets
    assert(line =~= seq![open] + (tokens + seq![close]));
    assert(line.skip(1) =~= tokens + seq![close]);
    lemma_frame_bp(tokens, 0, seq![close]);
    assert(none + seq![close] =~= seq![close]);
    assert(seq![close].skip(1) =~= none);
    assert(parse_bp(line, 0) == Ok::<(TreeView, Seq<TokenView>), ExprError>((chain, none)));
    lemma_one_expression(seq![whole]);
    // drawn together
    lemma_nested_min_flat(items, 1);
    let y = seq![under, nested];
    let all = leaves(items);
    assert(min_flat(first) == Some(first));
    if items.len() == 2 {
        assert(nested == TreeView::Atom(items[1]));
        assert(y.remove(0).push(first) =~= all.skip(1).push(first));
    } else {
        let third = nested_min(items, 2);
        let inner = seq![TreeView::Atom(items[1]), third];
        assert(nested == TreeView::Cons(OpView::Min, inner));
        assert(min_flat(inner[0]) == Some(inner[0]));
        lemma_nested_min_flat(items, 2);
        if items.len() == 3 {
            assert(min_operands(third) == seq![third]);
            let moved = y.remove(1).push(inner[0]) + seq![third];
            assert(moved.remove(0).push(first) =~= all.skip(1).push(first));
        } else {
            let flat = TreeView::Cons(OpView::Min, all.skip(2));
            assert(min_operands(flat) == all.skip(2));
            let moved = y.remove(1).push(inner[0]) + all.skip(2);
            assert(moved.remove(0).push(first) =~= all.skip(1).push(first));
        }
    }
}

// ------------------------------------------------------------------ brackets that meet

/// Whether no closing bracket among the first `n` tokens of a line is followed at once by
/// an opening bracket.
pub open spec fn none_meet(t: Seq<TokenView>, n: nat) -> bool {
    forall|k: int|
        1 <= k < n ==> !(#[trigger] t[k - 1] == TokenView::Op(OpView::Rparen) && t[k] == TokenView::Op(
            OpView::Lparen,
        ))
}

proof fn lemma_parting_keeps(t: Seq<TokenView>, n: nat)
    requires
        n <= t.len(),
        none_meet(t, n),
    ensures
        between_brackets(t, n) == t.take(n as int),
    decreases n,
{
    if n == 0 {
        assert(t.take(0) =~= Seq::<TokenView>::empty());
    } else if n == 1 {
        assert(t.take(1) =~= seq![t[0]]);
    } else {
        assert(none_meet(t, (n - 1) as nat));
        lemma_parting_keeps(t, (n - 1) as nat);
        assert(!(t[n - 1 - 1] == TokenView::Op(OpView::Rparen) && t[n - 1] == TokenView::Op(OpView::Lparen)));
        assert(t.take(n - 1) + seq![t[n - 1]] =~= t.take(n as int));
    }
}

/// In a line with the multiplications written out, no closing bracket is followed at once
/// by an opening bracket.
proof fn lemma_multiplied_none_meet(s: Seq<ExprView>, n: nat)
    requires
        1 <= n <= s.len(),
    ensures
        with_multiply(s, n).len() >= 1,
        with_multiply(s, n).last() == to_token(s[n - 1]),
        none_meet(with_multiply(s, n), with_multiply(s, n).len()),
    decreases n,
{
    if n > 1 {
        lemma_multiplied_none_meet(s, (n - 1) as nat);
        let before = with_multiply(s, (n - 1) as nat);
        let sign = TokenView::Op(OpView::Multiply);
        let token = to_token(s[n - 1]);
        let line = with_multiply(s, n);
        let m = before.len() as int;
        assert(before.last() == to_token(s[n - 2]));
        if multiplies(s[n - 2], s[n - 1]) {
            assert(line == before + seq![sign] + seq![token]);
            assert forall|k: int| 1 <= k < line.len() implies !(#[trigger] line[k - 1] == TokenView::Op(
                OpView::Rparen,
            ) && line[k] == TokenView::Op(OpView::Lparen)) by {
                if k < m {
                    assert(line[k - 1] == before[k - 1] && line[k] == before[k]);
                } else if k == m {
                    assert(line[k] == sign);
                } else {
                    assert(line[k - 1] == sign);
                }
            }
        } else {
            assert(line == before + seq![token]);
            assert forall|k: int| 1 <= k < line.len() implies !(#[trigger] line[k - 1] == TokenView::Op(
                OpView::Rparen,
            ) && line[k] == TokenView::Op(OpView::Lparen)) by {
                if k < m {
                    assert(line[k - 1] == before[k - 1] && line[k] == before[k]);
                } else {
                    assert(line[k - 1] == to_token(s[n - 2]) && line[k] == token);
                    if line[k - 1] == TokenView::Op(OpView::Rparen) && line[k] == TokenView::Op(OpView::Lparen) {
                        assert(s[n - 2] == rp());
                        assert(s[n - 1] == lp());
                    }
                }
            }
        }
    }
}

/// The line that `Lexer::new` makes has every multiplication between brackets that meet:
/// writing them out once more changes nothing.
pub proof fn lemma_line_needs_no_parting(input: Seq<ExprView>)
    ensures
        line_of(input) == lexed(input),
        none_meet(lexed(input), lexed(input).len()),
{
    let flat = flatten_all(input, input.len());
    let line = lexed(input);
    if flat.len() >= 1 {
        lemma_multiplied_none_meet(flat, flat.len());
    }
    lemma_parting_keeps(line, line.len());
    assert(line.take(line.len() as int) =~= line);
}

// ------------------------------------------------------------------ expressions side by side

/// Two expressions that stand side by side with no operator joining them are the factors
/// of one product, the first one first: the nodes `x f y`, with `x` and `y` leaves that are
/// no operators and `f` an operator that stands in front of its operand and nowhere else,
/// make the product of `x` and `f y`.
pub proof fn lemma_side_by_side_is_product(f: OpView, x: ExprView, y: ExprView)
    requires
        prefix_bp(f) is Some,
        infix_bp(f) is None,
        flatten(x) == seq![x],
        flatten(y) == seq![y],
        !(x is Mo),
        !(y is Mo),
    ensures
        tree_of(seq![x, ExprView::Mo(f), y]) == Ok::<TreeView, ExprError>(
            TreeView::Cons(
                OpView::Multiply,
                seq![TreeView::Atom(x), TreeView::Cons(f, seq![TreeView::Atom(y)])],
            ),
        ),
{
    let input = seq![x, ExprView::Mo(f), y];
    let tokens = seq![TokenView::Atom(x), TokenView::Op(f), TokenView::Atom(y)];
    let none = Seq::<TokenView>::empty();
    assert(flatten(ExprView::Mo(f)) == seq![ExprView::Mo(f)]);
    assert(flatten_all(input, 0) =~= Seq::<ExprView>::empty());
    assert(flatten_all(input, 1) =~= seq![x]);
    assert(flatten_all(input, 2) =~= seq![x, ExprView::Mo(f)]);
    assert(flatten_all(input, 3) =~= input);
    assert(with_multiply(input, 1) =~= seq![TokenView::Atom(x)]);
    assert(!multiplies(input[0], input[1]));
    assert(with_multiply(input, 2) =~= seq![TokenView::Atom(x), TokenView::Op(f)]);
    assert(!multiplies(input[1], input[2]));
    assert(with_multiply(input, 3) =~= tokens);
    assert(lexed(input) == tokens);
    lemma_line_needs_no_parting(input);
    assert(line_of(input) == tokens);
    // the first expression ends before `f`
    let first = TreeView::Atom(x);
    let s1 = seq![TokenView::Op(f), TokenView::Atom(y)];
    let s2 = seq![TokenView::Atom(y)];
    assert(tokens.skip(1) =~= s1);
    assert(s1.skip(1) =~= s2);
    assert(s2.skip(1) =~= none);
    assert(parse_loop(first, s1, 0) == Ok::<(TreeView, Seq<TokenView>), ExprError>((first, s1)));
    assert(parse_bp(tokens, 0) == Ok::<(TreeView, Seq<TokenView>), ExprError>((first, s1)));
    // the second starts with it
    let r = prefix_bp(f)->0;
    let leaf = TreeView::Atom(y);
    let second = TreeView::Cons(f, seq![leaf]);
    assert(parse_loop(leaf, none, r) == Ok::<(TreeView, Seq<TokenView>), ExprError>((leaf, none)));
    assert(parse_bp(s2, r) == Ok::<(TreeView, Seq<TokenView>), ExprError>((leaf, none)));
    assert(parse_loop(second, none, 0) == Ok::<(TreeView, Seq<TokenView>), ExprError>((second, none)));
    assert(parse_bp(s1, 0) == Ok::<(TreeView, Seq<TokenView>), ExprError>((second, none)));
    assert(seq![first].push(second) =~= seq![first, second]);
    assert(following(none, seq![first, second]) == Ok::<Seq<TreeView>, ExprError>(seq![first, second]));
    assert(following(s1, seq![first]) == Ok::<Seq<TreeView>, ExprError>(seq![first, second]));
    assert(expressions_of(input) == Ok::<Seq<TreeView>, ExprError>(seq![first, second]));
    // no minimum is in the product
    lemma_flat_one(leaf);
    assert(min_flat(second) == Some(second));
    lemma_flat_pair(first, second);
}

// ------------------------------------------------------------------ what flattening keeps

/// Whether every tree of a list is a leaf.
pub open spec fn all_leaves(v: Seq<TreeView>) -> bool {
    forall|i: int| 0 <= i < v.len() ==> #[trigger] v[i] is Atom
}

proof fn lemma_leaves_stay(v: Seq<TreeView>, n: nat)
    requires
        all_leaves(v),
        n <= v.len(),
    ensures
        min_flat_all(v, n) == Some(v.take(n as int)),
    decreases n,
{
    if n == 0 {
        assert(v.take(0) =~= Seq::<TreeView>::empty());
    } else {
        lemma_leaves_stay(v, (n - 1) as nat);
        assert(v[n - 1] is Atom);
        assert(min_flat(v[n - 1]) == Some(v[n - 1]));
        assert(min_flat_all(v, (n - 1) as nat) == Some(v.take(n - 1)));
        assert(v.take(n - 1).push(v[n - 1]) =~= v.take(n as int));
    }
}

/// Under an operator that is no minimum, leaves stay where they stand, however many.
pub proof fn lemma_operands_keep_their_places(op: OpView, v: Seq<TreeView>)
    requires
        !(op is Min),
        v.len() >= 1,
        all_leaves(v),
    ensures
        min_flat(TreeView::Cons(op, v)) == Some(TreeView::Cons(op, v)),
{
    lemma_leaves_stay(v, v.len());
    assert(v.take(v.len() as int) =~= v);
}

/// A minimum whose first operand is a minimum of two leaves keeps both of them: the minimum
/// of `p` and `q`, and `r`, is the minimum of `r`, `p` and `q`.
pub proof fn lemma_minimum_in_first_place(p: ExprView, q: ExprView, r: ExprView)
    ensures
        min_flat(
            TreeView::Cons(
                OpView::Min,
                seq![
                    TreeView::Cons(OpView::Min, seq![TreeView::Atom(p), TreeView::Atom(q)]),
                    TreeView::Atom(r),
                ],
            ),
        ) == Some(
            TreeView::Cons(OpView::Min, seq![TreeView::Atom(r), TreeView::Atom(p), TreeView::Atom(q)]),
        ),
{
    let inner = TreeView::Cons(OpView::Min, seq![TreeView::Atom(p), TreeView::Atom(q)]);
    let y = seq![inner, TreeView::Atom(r)];
    assert(min_flat(inner) == Some(inner));
    assert(min_operands(inner) == seq![TreeView::Atom(p), TreeView::Atom(q)]);
    assert(y.remove(0) + seq![TreeView::Atom(p), TreeView::Atom(q)] =~= seq![
        TreeView::Atom(r),
        TreeView::Atom(p),
        TreeView::Atom(q),
    ]);
}

} // verus!
