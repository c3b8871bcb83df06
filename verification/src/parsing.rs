//! The layout parser: MathML markup read into the tree of its elements.
use crate::ast::{view_exprs, ExprView, Math, MathExpression, OpView};
use crate::text::{push_char, stands_at};
use vstd::prelude::*;
use vstd::std_specs::iter::IteratorSpec;

verus! {

/// The elements that the parser knows, in the order in which it tries them.
#[derive(Debug, PartialEq, Eq, Clone, Copy, Structural)]
pub enum Tag {
    Mi,
    Mo,
    Mn,
    Mtext,
    Mspace,
    Msup,
    Msubsup,
    Msub,
    Msqrt,
    Mfrac,
    Munderover,
    Munder,
    Mover,
    Mstyle,
    Mrow,
}

/// How many elements the parser knows.
pub open spec fn tag_count() -> nat {
    15
}

/// The `k`-th element that the parser tries.
pub open spec fn tag_at(k: nat) -> Tag {
    if k == 0 {
        Tag::Mi
    } else if k == 1 {
        Tag::Mo
    } else if k == 2 {
        Tag::Mn
    } else if k == 3 {
        Tag::Mtext
    } else if k == 4 {
        Tag::Mspace
    } else if k == 5 {
        Tag::Msup
    } else if k == 6 {
        Tag::Msubsup
    } else if k == 7 {
        Tag::Msub
    } else if k == 8 {
        Tag::Msqrt
    } else if k == 9 {
        Tag::Mfrac
    } else if k == 10 {
        Tag::Munderover
    } else if k == 11 {
        Tag::Munder
    } else if k == 12 {
        Tag::Mover
    } else if k == 13 {
        Tag::Mstyle
    } else {
        Tag::Mrow
    }
}

/// The name of an element in the markup.
pub open spec fn tag_name(t: Tag) -> Seq<char> {
    match t {
        Tag::Mi => "mi"@,
        Tag::Mo => "mo"@,
        Tag::Mn => "mn"@,
        Tag::Mtext => "mtext"@,
        Tag::Mspace => "mspace"@,
        Tag::Msup => "msup"@,
        Tag::Msubsup => "msubsup"@,
        Tag::Msub => "msub"@,
        Tag::Msqrt => "msqrt"@,
        Tag::Mfrac => "mfrac"@,
        Tag::Munderover => "munderover"@,
        Tag::Munder => "munder"@,
        Tag::Mover => "mover"@,
        Tag::Mstyle => "mstyle"@,
        Tag::Mrow => "mrow"@,
    }
}

/// Whether an element holds text and no elements.
pub open spec fn is_leaf(t: Tag) -> bool {
    t is Mi || t is Mo || t is Mn || t is Mtext || t is Mspace
}

// ------------------------------------------------------------------ the grammar

/// White space between the parts of the markup.
pub open spec fn is_blank(c: char) -> bool {
    c == ' ' || c == '\t' || c == '\r' || c == '\n'
}

/// The place of the first character from `p` on that is no white space.
pub open spec fn skip_blank(s: Seq<char>, p: int) -> int
    decreases s.len() - p,
{
    if 0 <= p < s.len() && is_blank(s[p]) {
        skip_blank(s, p + 1)
    } else {
        p
    }
}

/// A letter or a digit of ASCII.
pub open spec fn is_alnum(c: char) -> bool {
    ('0' <= c <= '9') || ('a' <= c <= 'z') || ('A' <= c <= 'Z')
}

/// How many characters from `p` on are letters or digits.
pub open spec fn alnum_run(s: Seq<char>, p: int) -> nat
    decreases s.len() - p,
{
    if 0 <= p < s.len() && is_alnum(s[p]) {
        1 + alnum_run(s, p + 1)
    } else {
        0
    }
}

/// The first place from `p` on where `lit` stands.
pub open spec fn find(s: Seq<char>, p: int, lit: Seq<char>) -> Option<int>
    decreases s.len() - p,
{
    if !(0 <= p <= s.len()) {
        None
    } else if stands_at(s, p, lit) {
        Some(p)
    } else if p == s.len() {
        None
    } else {
        find(s, p + 1, lit)
    }
}

/// One attribute `key = "value"` at `p`, white space around its parts: the key, the value,
/// and the place behind the attribute.
pub open spec fn attribute_parts(s: Seq<char>, p: int) -> Option<(Seq<char>, Seq<char>, int)> {
    let p1 = skip_blank(s, p);
    let k = alnum_run(s, p1);
    let p2 = skip_blank(s, p1 + k);
    let p3 = skip_blank(s, p2 + 1);
    if k == 0 || !(0 <= p2 < s.len() && s[p2] == '=') || !(0 <= p3 < s.len() && s[p3] == '"') {
        None
    } else {
        match find(s, p3 + 1, "\""@) {
            None => None,
            Some(q) => Some((s.subrange(p1, p1 + k), s.subrange(p3 + 1, q), skip_blank(s, q + 1))),
        }
    }
}

/// The place behind one attribute at `p`.
pub open spec fn attribute_end(s: Seq<char>, p: int) -> Option<int> {
    match attribute_parts(s, p) {
        Some(parts) => Some(parts.2),
        None => None,
    }
}

/// The place behind the attributes that stand at `p`.
pub open spec fn attributes(s: Seq<char>, p: int) -> int
    decreases s.len() - p,
{
    match attribute_end(s, p) {
        Some(q) => if p < q <= s.len() {
            attributes(s, q)
        } else {
            p
        },
        None => p,
    }
}

/// The place behind the opening tag of the element `name` at `p`.
pub open spec fn open_tag(s: Seq<char>, p: int, name: Seq<char>) -> Option<int> {
    let q = attributes(s, p + 1 + name.len());
    if stands_at(s, p, "<"@) && stands_at(s, p + 1, name) && 0 <= q < s.len() && s[q] == '>' {
        Some(q + 1)
    } else {
        None
    }
}

/// The place behind the closing tag of the element `name` at `p`.
pub open spec fn close_tag(s: Seq<char>, p: int, name: Seq<char>) -> Option<int> {
    if stands_at(s, p, "</"@) && stands_at(s, p + 2, name) && stands_at(s, p + 2 + name.len(), ">"@) {
        Some(p + 3 + name.len())
    } else {
        None
    }
}

/// The closing tag of an element, as text.
pub open spec fn end_text(name: Seq<char>) -> Seq<char> {
    "</"@ + name + ">"@
}

/// An element that holds text: the text as it stands, and the place behind the element and
/// the white space that follows it.
pub open spec fn leaf(s: Seq<char>, p: int, name: Seq<char>) -> Option<(Seq<char>, int)> {
    match open_tag(s, skip_blank(s, p), name) {
        None => None,
        Some(q) => match find(s, q, end_text(name)) {
            None => None,
            Some(e) => if q <= e {
                Some((s.subrange(q, e), skip_blank(s, e + name.len() + 3)))
            } else {
                None
            },
        },
    }
}

/// The node of an element that holds text.
pub open spec fn leaf_node(t: Tag, text: Seq<char>) -> ExprView {
    match t {
        Tag::Mi => ExprView::Mi(text),
        Tag::Mo => ExprView::Mo(OpView::Other(text)),
        Tag::Mn => ExprView::Mn(text),
        Tag::Mtext => ExprView::Mtext(text),
        _ => ExprView::Mspace(text),
    }
}

/// The node of an element that holds elements, where it holds as many as it may: a
/// fraction, a superscript, a subscript, an underscript and an overscript two, a node with
/// both an underscript and an overscript three, a node with both a subscript and a
/// superscript three or, the superscript missing, two, a root at least one, a row any number.
pub open spec fn build(t: Tag, kids: Seq<ExprView>) -> Option<ExprView> {
    match t {
        Tag::Mrow => Some(ExprView::Mrow(kids)),
        Tag::Mstyle => Some(ExprView::Mrow(kids)),
        Tag::Msqrt => if kids.len() == 0 {
            None
        } else if kids.len() == 1 {
            Some(ExprView::Msqrt(Box::new(kids[0])))
        } else {
            Some(ExprView::Msqrt(Box::new(ExprView::Mrow(kids))))
        },
        Tag::Msup => if kids.len() == 2 {
            Some(ExprView::Msup(Box::new(kids[0]), Box::new(kids[1])))
        } else {
            None
        },
        Tag::Msub => if kids.len() == 2 {
            Some(ExprView::Msub(Box::new(kids[0]), Box::new(kids[1])))
        } else {
            None
        },
        Tag::Mfrac => if kids.len() == 2 {
            Some(ExprView::Mfrac(Box::new(kids[0]), Box::new(kids[1])))
        } else {
            None
        },
        Tag::Munder => if kids.len() == 2 {
            Some(ExprView::Munder(Box::new(kids[0]), Box::new(kids[1])))
        } else {
            None
        },
        Tag::Mover => if kids.len() == 2 {
            Some(ExprView::Mover(Box::new(kids[0]), Box::new(kids[1])))
        } else {
            None
        },
        Tag::Msubsup => if kids.len() == 3 {
            Some(ExprView::Msubsup(Box::new(kids[0]), Box::new(kids[1]), Box::new(kids[2])))
        } else if kids.len() == 2 {
            Some(ExprView::Msub(Box::new(kids[0]), Box::new(kids[1])))
        } else {
            None
        },
        Tag::Munderover => if kids.len() == 3 {
            Some(ExprView::Munderover(Box::new(kids[0]), Box::new(kids[1]), Box::new(kids[2])))
        } else {
            None
        },
        _ => None,
    }
}

/// The elements that stand one after the other from `p` on, and the place behind them.
pub open spec fn elements(s: Seq<char>, p: int) -> (Seq<ExprView>, int)
    decreases s.len() - p, 5nat, 0nat,
{
    match element(s, p) {
        Some((e, q)) => if p < q <= s.len() {
            (seq![e] + elements(s, q).0, elements(s, q).1)
        } else {
            (Seq::empty(), p)
        },
        None => (Seq::empty(), p),
    }
}

/// One element at `p`, white space before and behind it, and the place behind that.
pub open spec fn element(s: Seq<char>, p: int) -> Option<(ExprView, int)>
    decreases s.len() - p, 4nat, 0nat,
{
    let p1 = skip_blank(s, p);
    if !(0 <= p <= p1 <= s.len()) {
        None
    } else {
        match alternatives(s, p1, 0) {
            Some((e, q)) => Some((e, skip_blank(s, q))),
            None => None,
        }
    }
}

/// The first of the elements, from the `k`-th on, that stands at `p`.
pub open spec fn alternatives(s: Seq<char>, p: int, k: nat) -> Option<(ExprView, int)>
    decreases s.len() - p, 3nat, tag_count() - k,
{
    if k >= tag_count() {
        None
    } else {
        match alternative(s, p, tag_at(k)) {
            Some(r) => Some(r),
            None => alternatives(s, p, k + 1),
        }
    }
}

/// The element `t` at `p`: its opening tag, what it holds, its closing tag.
pub open spec fn alternative(s: Seq<char>, p: int, t: Tag) -> Option<(ExprView, int)>
    decreases s.len() - p, 2nat, 0nat,
{
    if is_leaf(t) {
        match leaf(s, p, tag_name(t)) {
            Some((text, q)) => Some((leaf_node(t, text), q)),
            None => None,
        }
    } else {
        match open_tag(s, skip_blank(s, p), tag_name(t)) {
            None => None,
            Some(q) => if !(p < q <= s.len()) {
                None
            } else {
                let inner = elements(s, q);
                match (close_tag(s, inner.1, tag_name(t)), build(t, inner.0)) {
                    (Some(q2), Some(e)) => Some((e, skip_blank(s, q2))),
                    _ => None,
                }
            },
        }
    }
}

/// A document: the expressions under `math` and the place behind the document, or the
/// place where a part of the `math` element is missing.
pub open spec fn document(s: Seq<char>) -> Result<(Seq<ExprView>, int), int> {
    let p = skip_blank(s, 0);
    let q = attributes(s, p + 5);
    let inner = elements(s, q + 1);
    let c = inner.1;
    if !stands_at(s, p, "<"@) {
        Err(p)
    } else if !stands_at(s, p + 1, "math"@) {
        Err(p + 1)
    } else if !stands_at(s, q, ">"@) {
        Err(q)
    } else if !stands_at(s, c, "</"@) {
        Err(c)
    } else if !stands_at(s, c + 2, "math"@) {
        Err(c + 2)
    } else if !stands_at(s, c + 6, ">"@) {
        Err(c + 6)
    } else {
        Ok((inner.0, skip_blank(s, c + 7)))
    }
}

// ------------------------------------------------------------------ reading characters

/// The characters of a text.
pub fn chars_of(input: &str) -> (r: Vec<char>)
    ensures
        r@ == input@,
{
    broadcast use vstd::string::group_string_axioms;

    let mut r: Vec<char> = Vec::new();
    let mut it = input.chars();
    let ghost all = input@;
    loop
        invariant
            all == input@,
            r@ + it.remaining() == all,
            it.obeys_prophetic_iter_laws(),
            it.decrease() is Some,
        decreases it.decrease()->0,
    {
        match it.next() {
            Some(c) => {
                r.push(c);
                assert(r@ + it.remaining() =~= all);
            },
            None => {
                assert(r@ + it.remaining() =~= r@);
                return r;
            },
        }
    }
}

/// The characters from `a` up to `b`, as a text.
fn text_of(chars: &Vec<char>, a: usize, b: usize) -> (r: String)
    requires
        a <= b <= chars@.len(),
    ensures
        r@ == chars@.subrange(a as int, b as int),
{
    let mut r = String::new();
    let mut i: usize = a;
    while i < b
        invariant
            a <= i <= b <= chars@.len(),
            r@ == chars@.subrange(a as int, i as int),
        decreases b - i,
    {
        push_char(&mut r, chars[i]);
        assert(chars@.subrange(a as int, i as int).push(chars@[i as int]) =~= chars@.subrange(
            a as int,
            i + 1,
        ));
        i += 1;
    }
    r
}

fn blank(c: char) -> (r: bool)
    ensures
        r == is_blank(c),
{
    c == ' ' || c == '\t' || c == '\r' || c == '\n'
}

fn alnum(c: char) -> (r: bool)
    ensures
        r == is_alnum(c),
{
    ('0' <= c && c <= '9') || ('a' <= c && c <= 'z') || ('A' <= c && c <= 'Z')
}

fn skip(chars: &Vec<char>, p: usize) -> (r: usize)
    requires
        p <= chars@.len(),
    ensures
        r == skip_blank(chars@, p as int),
        p <= r <= chars@.len(),
{
    let mut i: usize = p;
    while i < chars.len() && blank(chars[i])
        invariant
            p <= i <= chars@.len(),
            skip_blank(chars@, p as int) == skip_blank(chars@, i as int),
        decreases chars@.len() - i,
    {
        i += 1;
    }
    i
}

fn letters(chars: &Vec<char>, p: usize) -> (r: usize)
    requires
        p <= chars@.len(),
    ensures
        r == alnum_run(chars@, p as int),
        p + r <= chars@.len(),
{
    let mut i: usize = p;
    while i < chars.len() && alnum(chars[i])
        invariant
            p <= i <= chars@.len(),
            alnum_run(chars@, p as int) == (i - p) + alnum_run(chars@, i as int),
        decreases chars@.len() - i,
    {
        i += 1;
    }
    i - p
}

/// Whether `lit` stands in the text at `p`.
fn stands(chars: &Vec<char>, p: usize, lit: &str) -> (r: bool)
    ensures
        r == stands_at(chars@, p as int, lit@),
{
    let n = lit.unicode_len();
    let len = chars.len();
    if p > len || n > len - p {
        return false;
    }
    let mut j: usize = 0;
    while j < n
        invariant
            len == chars@.len(),
            j <= n,
            n == lit@.len(),
            p + n <= chars@.len(),
            forall|k: int| 0 <= k < j ==> chars@[p + k] == lit@[k],
        decreases n - j,
    {
        if chars[p + j] != lit.get_char(j) {
            assert(chars@.subrange(p as int, p + n)[j as int] != lit@[j as int]);
            return false;
        }
        j += 1;
    }
    assert(chars@.subrange(p as int, p + n) =~= lit@);
    true
}

fn find_at(chars: &Vec<char>, p: usize, lit: &str) -> (r: Option<usize>)
    requires
        p <= chars@.len(),
    ensures
        r is Some ==> find(chars@, p as int, lit@) == Some(r->0 as int) && p <= r->0 <= chars@.len()
            && stands_at(chars@, r->0 as int, lit@),
        r is None ==> find(chars@, p as int, lit@) is None,
{
    let mut i: usize = p;
    loop
        invariant
            p <= i <= chars@.len(),
            find(chars@, p as int, lit@) == find(chars@, i as int, lit@),
        decreases chars@.len() - i,
    {
        if stands(chars, i, lit) {
            return Some(i);
        }
        if i == chars.len() {
            return None;
        }
        i += 1;
    }
}

/// The places of the parts of an attribute at `p`: where its key starts and ends, where its
/// value starts and ends, and the place behind it.
fn attribute_places(chars: &Vec<char>, p: usize) -> (r: Option<(usize, usize, usize, usize, usize)>)
    requires
        p <= chars@.len(),
    ensures
        r is Some <==> attribute_parts(chars@, p as int) is Some,
        r is Some ==> ({
            let (a, b, c, d, e) = r.unwrap();
            &&& a <= b <= c <= d < e <= chars@.len()
            &&& p < e
            &&& attribute_parts(chars@, p as int) == Some(
                (chars@.subrange(a as int, b as int), chars@.subrange(c as int, d as int), e as int),
            )
        }),
{
    let len = chars.len();
    let p1 = skip(chars, p);
    let k = letters(chars, p1);
    if k == 0 {
        return None;
    }
    let p2 = skip(chars, p1 + k);
    if !(p2 < chars.len() && chars[p2] == '=') {
        return None;
    }
    let p3 = skip(chars, p2 + 1);
    if !(p3 < chars.len() && chars[p3] == '"') {
        return None;
    }
    match find_at(chars, p3 + 1, "\"") {
        None => None,
        Some(q) => {
            proof {
                reveal_strlit("\"");
            }
            Some((p1, p1 + k, p3 + 1, q, skip(chars, q + 1)))
        },
    }
}

fn attribute_at(chars: &Vec<char>, p: usize) -> (r: Option<usize>)
    requires
        p <= chars@.len(),
    ensures
        r is Some ==> attribute_end(chars@, p as int) == Some(r->0 as int) && p < r->0 <= chars@.len(),
        r is None ==> attribute_end(chars@, p as int) is None,
{
    match attribute_places(chars, p) {
        Some(places) => Some(places.4),
        None => None,
    }
}

fn attributes_at(chars: &Vec<char>, p: usize) -> (r: usize)
    requires
        p <= chars@.len(),
    ensures
        r == attributes(chars@, p as int),
        p <= r <= chars@.len(),
{
    let mut i: usize = p;
    loop
        invariant
            p <= i <= chars@.len(),
            attributes(chars@, p as int) == attributes(chars@, i as int),
        decreases chars@.len() - i,
    {
        match attribute_at(chars, i) {
            Some(q) => {
                i = q;
            },
            None => {
                return i;
            },
        }
    }
}

fn open_tag_at(chars: &Vec<char>, p: usize, name: &str) -> (r: Option<usize>)
    requires
        p <= chars@.len(),
    ensures
        r is Some ==> open_tag(chars@, p as int, name@) == Some(r->0 as int) && p < r->0 <= chars@.len(),
        r is None ==> open_tag(chars@, p as int, name@) is None,
{
    let len = chars.len();
    proof {
        reveal_strlit("<");
    }
    if !stands(chars, p, "<") {
        return None;
    }
    if !stands(chars, p + 1, name) {
        return None;
    }
    let n = name.unicode_len();
    let q = attributes_at(chars, p + 1 + n);
    if q < chars.len() && chars[q] == '>' {
        Some(q + 1)
    } else {
        None
    }
}

fn close_tag_at(chars: &Vec<char>, p: usize, name: &str) -> (r: Option<usize>)
    requires
        p <= chars@.len(),
    ensures
        r is Some ==> close_tag(chars@, p as int, name@) == Some(r->0 as int) && p < r->0 <= chars@.len(),
        r is None ==> close_tag(chars@, p as int, name@) is None,
{
    let len = chars.len();
    proof {
        reveal_strlit("</");
        reveal_strlit(">");
    }
    if !stands(chars, p, "</") {
        return None;
    }
    if !stands(chars, p + 2, name) {
        return None;
    }
    let n = name.unicode_len();
    if !stands(chars, p + 2 + n, ">") {
        return None;
    }
    Some(p + 3 + n)
}

fn name_str(t: Tag) -> (r: &'static str)
    ensures
        r@ == tag_name(t),
{
    match t {
        Tag::Mi => "mi",
        Tag::Mo => "mo",
        Tag::Mn => "mn",
        Tag::Mtext => "mtext",
        Tag::Mspace => "mspace",
        Tag::Msup => "msup",
        Tag::Msubsup => "msubsup",
        Tag::Msub => "msub",
        Tag::Msqrt => "msqrt",
        Tag::Mfrac => "mfrac",
        Tag::Munderover => "munderover",
        Tag::Munder => "munder",
        Tag::Mover => "mover",
        Tag::Mstyle => "mstyle",
        Tag::Mrow => "mrow",
    }
}

fn tag_of(k: usize) -> (r: Tag)
    ensures
        r == tag_at(k as nat),
{
    if k == 0 {
        Tag::Mi
    } else if k == 1 {
        Tag::Mo
    } else if k == 2 {
        Tag::Mn
    } else if k == 3 {
        Tag::Mtext
    } else if k == 4 {
        Tag::Mspace
    } else if k == 5 {
        Tag::Msup
    } else if k == 6 {
        Tag::Msubsup
    } else if k == 7 {
        Tag::Msub
    } else if k == 8 {
        Tag::Msqrt
    } else if k == 9 {
        Tag::Mfrac
    } else if k == 10 {
        Tag::Munderover
    } else if k == 11 {
        Tag::Munder
    } else if k == 12 {
        Tag::Mover
    } else if k == 13 {
        Tag::Mstyle
    } else {
        Tag::Mrow
    }
}

fn holds_text(t: Tag) -> (r: bool)
    ensures
        r == is_leaf(t),
{
    match t {
        Tag::Mi | Tag::Mo | Tag::Mn | Tag::Mtext | Tag::Mspace => true,
        _ => false,
    }
}

fn leaf_at(chars: &Vec<char>, p: usize, name: &str) -> (r: Option<(String, usize)>)
    requires
        p <= chars@.len(),
    ensures
        r is Some <==> leaf(chars@, p as int, name@) is Some,
        r is Some ==> r.unwrap().0@ == leaf(chars@, p as int, name@).unwrap().0 && r.unwrap().1 == leaf(
            chars@,
            p as int,
            name@,
        ).unwrap().1 && p < r.unwrap().1 <= chars@.len(),
{
    let len = chars.len();
    let p1 = skip(chars, p);
    let q = match open_tag_at(chars, p1, name) {
        Some(q) => q,
        None => {
            return None;
        },
    };
    let mut end = String::from_str("</");
    end.append(name);
    end.append(">");
    proof {
        reveal_strlit("</");
        reveal_strlit(">");
    }
    match find_at(chars, q, end.as_str()) {
        None => None,
        Some(e) => {
            let text = text_of(chars, q, e);
            let n = name.unicode_len();
            assert(end@.len() == n + 3);
            assert(e + end@.len() <= chars@.len());
            Some((text, skip(chars, e + n + 3)))
        },
    }
}

fn node_of_leaf(t: Tag, text: String) -> (r: MathExpression)
    ensures
        r@ == leaf_node(t, text@),
{
    match t {
        Tag::Mi => MathExpression::Mi(text),
        Tag::Mo => crate::nodes::mo(crate::nodes::other(text)),
        Tag::Mn => MathExpression::Mn(text),
        Tag::Mtext => MathExpression::Mtext(text),
        _ => MathExpression::Mspace(text),
    }
}

/// The last of a list, taken off it.
fn take_last(kids: &mut Vec<MathExpression>) -> (r: MathExpression)
    requires
        old(kids)@.len() > 0,
    ensures
        final(kids)@ == old(kids)@.drop_last(),
        r@ == view_exprs(old(kids)@)[old(kids)@.len() - 1],
        view_exprs(final(kids)@) == view_exprs(old(kids)@).drop_last(),
{
    assert(view_exprs(kids@.drop_last()) =~= view_exprs(kids@).drop_last());
    match kids.pop() {
        Some(e) => e,
        None => MathExpression::Mrow(Vec::new()),
    }
}

fn pair_node(t: Tag, a: MathExpression, b: MathExpression) -> (r: MathExpression)
    requires
        t is Msup || t is Msub || t is Mfrac || t is Munder || t is Mover || t is Msubsup,
    ensures
        r@ == build(t, seq![a@, b@])->0,
        build(t, seq![a@, b@]) is Some,
{
    match t {
        Tag::Msup => MathExpression::Msup(Box::new(a), Box::new(b)),
        Tag::Msub => MathExpression::Msub(Box::new(a), Box::new(b)),
        Tag::Msubsup => MathExpression::Msub(Box::new(a), Box::new(b)),
        Tag::Mfrac => MathExpression::Mfrac(Box::new(a), Box::new(b)),
        Tag::Munder => MathExpression::Munder(Box::new(a), Box::new(b)),
        _ => MathExpression::Mover(Box::new(a), Box::new(b)),
    }
}

fn triple_node(t: Tag, a: MathExpression, b: MathExpression, c: MathExpression) -> (r: MathExpression)
    requires
        t is Msubsup || t is Munderover,
    ensures
        r@ == build(t, seq![a@, b@, c@])->0,
        build(t, seq![a@, b@, c@]) is Some,
{
    match t {
        Tag::Msubsup => MathExpression::Msubsup(Box::new(a), Box::new(b), Box::new(c)),
        _ => MathExpression::Munderover(Box::new(a), Box::new(b), Box::new(c)),
    }
}

fn build_node(t: Tag, kids: Vec<MathExpression>) -> (r: Option<MathExpression>)
    ensures
        r is Some <==> build(t, view_exprs(kids@)) is Some,
        r is Some ==> r->0@ == build(t, view_exprs(kids@))->0,
{
    let mut rest = kids;
    let ghost all = view_exprs(kids@);
    assert(all.len() == kids@.len());
    let n = rest.len();
    let two = match t {
        Tag::Msup | Tag::Msub | Tag::Mfrac | Tag::Munder | Tag::Mover | Tag::Msubsup => true,
        _ => false,
    };
    let three = match t {
        Tag::Msubsup | Tag::Munderover => true,
        _ => false,
    };
    if holds_text(t) {
        None
    } else if t == Tag::Mrow || t == Tag::Mstyle {
        Some(MathExpression::Mrow(rest))
    } else if t == Tag::Msqrt {
        if n == 0 {
            None
        } else if n == 1 {
            let a = take_last(&mut rest);
            assert(a@ == all[0]);
            Some(MathExpression::Msqrt(Box::new(a)))
        } else {
            Some(MathExpression::Msqrt(Box::new(crate::nodes::row(rest))))
        }
    } else if three && n == 3 {
        let c = take_last(&mut rest);
        let b = take_last(&mut rest);
        let a = take_last(&mut rest);
        assert(all =~= seq![a@, b@, c@]);
        Some(triple_node(t, a, b, c))
    } else if two && n == 2 {
        let b = take_last(&mut rest);
        let a = take_last(&mut rest);
        assert(all =~= seq![a@, b@]);
        Some(pair_node(t, a, b))
    } else {
        None
    }
}

fn prepend(e: MathExpression, rest: Vec<MathExpression>) -> (r: Vec<MathExpression>)
    ensures
        view_exprs(r@) == seq![e@] + view_exprs(rest@),
{
    let mut tail = rest;
    let mut r: Vec<MathExpression> = Vec::new();
    r.push(e);
    r.append(&mut tail);
    assert(view_exprs(r@) =~= seq![e@] + view_exprs(rest@));
    r
}

// ------------------------------------------------------------------ reading elements

fn elements_at(chars: &Vec<char>, p: usize) -> (r: (Vec<MathExpression>, usize))
    requires
        p <= chars@.len(),
    ensures
        view_exprs(r.0@) == elements(chars@, p as int).0,
        r.1 == elements(chars@, p as int).1,
        p <= r.1 <= chars@.len(),
    decreases chars@.len() - p, 5nat, 0nat,
{
    match element_at(chars, p) {
        Some((e, q)) => {
            let (rest, end) = elements_at(chars, q);
            (prepend(e, rest), end)
        },
        None => {
            let r: Vec<MathExpression> = Vec::new();
            assert(view_exprs(r@) =~= Seq::<ExprView>::empty());
            (r, p)
        },
    }
}

fn element_at(chars: &Vec<char>, p: usize) -> (r: Option<(MathExpression, usize)>)
    requires
        p <= chars@.len(),
    ensures
        r is Some <==> element(chars@, p as int) is Some,
        r is Some ==> r.unwrap().0@ == element(chars@, p as int).unwrap().0 && r.unwrap().1 == element(
            chars@,
            p as int,
        ).unwrap().1 && p < r.unwrap().1 <= chars@.len(),
    decreases chars@.len() - p, 4nat, 0nat,
{
    let p1 = skip(chars, p);
    match alternatives_at(chars, p1, 0) {
        Some((e, q)) => Some((e, skip(chars, q))),
        None => None,
    }
}

fn alternatives_at(chars: &Vec<char>, p: usize, k: usize) -> (r: Option<(MathExpression, usize)>)
    requires
        p <= chars@.len(),
    ensures
        r is Some <==> alternatives(chars@, p as int, k as nat) is Some,
        r is Some ==> r.unwrap().0@ == alternatives(chars@, p as int, k as nat).unwrap().0 && r.unwrap().1
            == alternatives(chars@, p as int, k as nat).unwrap().1 && p < r.unwrap().1 <= chars@.len(),
    decreases chars@.len() - p, 3nat, 15 - k,
{
    if k >= 15 {
        return None;
    }
    match alternative_at(chars, p, tag_of(k)) {
        Some(r) => Some(r),
        None => alternatives_at(chars, p, k + 1),
    }
}

fn alternative_at(chars: &Vec<char>, p: usize, t: Tag) -> (r: Option<(MathExpression, usize)>)
    requires
        p <= chars@.len(),
    ensures
        r is Some <==> alternative(chars@, p as int, t) is Some,
        r is Some ==> r.unwrap().0@ == alternative(chars@, p as int, t).unwrap().0 && r.unwrap().1
            == alternative(chars@, p as int, t).unwrap().1 && p < r.unwrap().1 <= chars@.len(),
    decreases chars@.len() - p, 2nat, 0nat,
{
    let name = name_str(t);
    if holds_text(t) {
        match leaf_at(chars, p, name) {
            Some((text, q)) => Some((node_of_leaf(t, text), q)),
            None => None,
        }
    } else {
        let p1 = skip(chars, p);
        let q = match open_tag_at(chars, p1, name) {
            Some(q) => q,
            None => {
                return None;
            },
        };
        let (kids, end) = elements_at(chars, q);
        let q2 = match close_tag_at(chars, end, name) {
            Some(q2) => q2,
            None => {
                return None;
            },
        };
        match build_node(t, kids) {
            Some(e) => Some((e, skip(chars, q2))),
            None => None,
        }
    }
}

// ------------------------------------------------------------------ places and errors

/// A place in a text: how many bytes and lines stand before it, and the text from it on.
#[derive(Debug, PartialEq, Eq)]
pub struct Span {
    pub offset: usize,
    pub line: u32,
    pub fragment: String,
}

/// The model of a place.
pub struct SpanView {
    pub offset: nat,
    pub line: nat,
    pub fragment: Seq<char>,
}

impl View for Span {
    type V = SpanView;

    open spec fn view(&self) -> SpanView {
        SpanView { offset: self.offset as nat, line: self.line as nat, fragment: self.fragment@ }
    }
}

impl Clone for Span {
    fn clone(&self) -> (r: Self)
        ensures
            r@ == self@,
    {
        Span { offset: self.offset, line: self.line, fragment: self.fragment.clone() }
    }
}

/// Why a text is no document, and where.
#[derive(Debug, PartialEq, Eq)]
pub struct ParseError {
    span: Span,
    message: String,
}

/// The model of an error of the parser.
pub struct ParseErrorView {
    pub span: SpanView,
    pub message: Seq<char>,
}

impl View for ParseError {
    type V = ParseErrorView;

    closed spec fn view(&self) -> ParseErrorView {
        ParseErrorView { span: self.span@, message: self.message@ }
    }
}

impl ParseError {
    /// An error with the given message at the given place.
    pub fn new(message: String, span: Span) -> (r: Self)
        ensures
            r@ == (ParseErrorView { span: span@, message: message@ }),
    {
        ParseError { span, message }
    }

    /// The place of the error.
    pub fn span(&self) -> (r: &Span)
        ensures
            r@ == self@.span,
    {
        &self.span
    }

    /// The line of the error, the first line being line one.
    pub fn line(&self) -> (r: u32)
        ensures
            r == self@.span.line,
    {
        self.span.line
    }

    /// How many bytes of the text stand before the error.
    pub fn offset(&self) -> (r: usize)
        ensures
            r == self@.span.offset,
    {
        self.span.offset
    }

    /// What is wrong.
    pub fn message(&self) -> (r: String)
        ensures
            r@ == self@.message,
    {
        self.message.clone()
    }
}

/// How many bytes a character takes in UTF-8.
pub open spec fn utf8_len(c: char) -> nat {
    if (c as u32) < 0x80 {
        1
    } else if (c as u32) < 0x800 {
        2
    } else if (c as u32) < 0x10000 {
        3
    } else {
        4
    }
}

/// How many bytes the first `p` characters of a text take.
pub open spec fn bytes_before(s: Seq<char>, p: int) -> nat
    decreases p,
{
    if p <= 0 || p > s.len() {
        0
    } else {
        bytes_before(s, p - 1) + utf8_len(s[p - 1])
    }
}

/// How many line feeds are among the first `p` characters of a text.
pub open spec fn lines_before(s: Seq<char>, p: int) -> nat
    decreases p,
{
    if p <= 0 || p > s.len() {
        0
    } else if s[p - 1] == '\n' {
        lines_before(s, p - 1) + 1
    } else {
        lines_before(s, p - 1)
    }
}

/// A number, or the greatest that is allowed where it is greater.
pub open spec fn at_most(n: nat, max: nat) -> nat {
    if n > max {
        max
    } else {
        n
    }
}

/// The place `p` of a text; the counts stop at the greatest number that their type holds.
pub open spec fn span_at(s: Seq<char>, p: int) -> SpanView {
    SpanView {
        offset: at_most(bytes_before(s, p), usize::MAX as nat),
        line: at_most(1 + lines_before(s, p), u32::MAX as nat),
        fragment: s.subrange(p, s.len() as int),
    }
}

/// The error that a missing tag at `p` gives.
pub open spec fn error_at(s: Seq<char>, p: int) -> ParseErrorView {
    ParseErrorView { span: span_at(s, p), message: "Parse error Tag"@ }
}

fn locate(chars: &Vec<char>, p: usize) -> (r: Span)
    requires
        p <= chars@.len(),
    ensures
        r@ == span_at(chars@, p as int),
{
    let mut offset: usize = 0;
    let mut line: u32 = 1;
    let mut i: usize = 0;
    while i < p
        invariant
            i <= p <= chars@.len(),
            offset == at_most(bytes_before(chars@, i as int), usize::MAX as nat),
            line == at_most(1 + lines_before(chars@, i as int), u32::MAX as nat),
        decreases p - i,
    {
        let c = chars[i];
        let n = c as u32;
        let w: usize = if n < 0x80 {
            1
        } else if n < 0x800 {
            2
        } else if n < 0x10000 {
            3
        } else {
            4
        };
        offset = if offset > usize::MAX - w {
            usize::MAX
        } else {
            offset + w
        };
        if c == '\n' && line < u32::MAX {
            line = line + 1;
        }
        i += 1;
    }
    Span { offset, line, fragment: text_of(chars, p, chars.len()) }
}

fn fail<T>(chars: &Vec<char>, p: usize) -> (r: Result<T, ParseError>)
    requires
        p <= chars@.len(),
    ensures
        r is Err,
        r->Err_0@ == error_at(chars@, p as int),
{
    Err(ParseError::new(String::from_str("Parse error Tag"), locate(chars, p)))
}

/// Reads a document: the expressions that stand under `math`, and the place behind it.
pub fn parse(input: &str) -> (r: Result<(Span, Math), ParseError>)
    ensures
        match document(input@) {
            Ok((kids, rest)) => r is Ok && r->Ok_0.1@ == kids && r->Ok_0.0@ == span_at(input@, rest),
            Err(p) => r is Err && r->Err_0@ == error_at(input@, p),
        },
{
    let chars = chars_of(input);
    let len = chars.len();
    proof {
        reveal_strlit("<");
        reveal_strlit("math");
        reveal_strlit(">");
        reveal_strlit("</");
    }
    let p = skip(&chars, 0);
    if !stands(&chars, p, "<") {
        return fail(&chars, p);
    }
    if !stands(&chars, p + 1, "math") {
        return fail(&chars, p + 1);
    }
    let q = attributes_at(&chars, p + 5);
    if !stands(&chars, q, ">") {
        return fail(&chars, q);
    }
    let (kids, c) = elements_at(&chars, q + 1);
    if !stands(&chars, c, "</") {
        return fail(&chars, c);
    }
    if !stands(&chars, c + 2, "math") {
        return fail(&chars, c + 2);
    }
    if !stands(&chars, c + 6, ">") {
        return fail(&chars, c + 6);
    }
    let rest = skip(&chars, c + 7);
    Ok((locate(&chars, rest), Math { content: kids }))
}

/// Reads one element that stands at the front of a text, and the place behind it.
pub fn math_expression(input: &str) -> (r: Option<(Span, MathExpression)>)
    ensures
        match element(input@, 0) {
            Some((e, rest)) => r is Some && r.unwrap().1@ == e && r.unwrap().0@ == span_at(input@, rest),
            None => r is None,
        },
{
    let chars = chars_of(input);
    match element_at(&chars, 0) {
        Some((e, rest)) => Some((locate(&chars, rest), e)),
        None => None,
    }
}

/// Reads one attribute `key = "value"` that stands at the front of a text: the place behind
/// it, its key and its value.
pub fn attribute(input: &str) -> (r: Option<(Span, (String, String))>)
    ensures
        match attribute_parts(input@, 0) {
            Some((key, value, rest)) => r is Some && ({
                let (span, pair) = r.unwrap();
                span@ == span_at(input@, rest) && pair.0@ == key && pair.1@ == value
            }),
            None => r is None,
        },
{
    let chars = chars_of(input);
    match attribute_places(&chars, 0) {
        Some((a, b, c, d, e)) => Some((locate(&chars, e), (text_of(&chars, a, b), text_of(&chars, c, d)))),
        None => None,
    }
}

/// Reads the element `tag` that stands at the front of a text, and the place behind it.
pub fn tagged(input: &str, tag: Tag) -> (r: Option<(Span, MathExpression)>)
    ensures
        match alternative(input@, 0, tag) {
            Some((e, rest)) => r is Some && r.unwrap().1@ == e && r.unwrap().0@ == span_at(input@, rest),
            None => r is None,
        },
{
    let chars = chars_of(input);
    match alternative_at(&chars, 0, tag) {
        Some((e, rest)) => Some((locate(&chars, rest), e)),
        None => None,
    }
}

/// An identifier at the front of a text, and the place behind it.
pub fn mi(input: &str) -> (r: Option<(Span, MathExpression)>)
    ensures
        match alternative(input@, 0, Tag::Mi) {
            Some((e, rest)) => r is Some && r.unwrap().1@ == e && r.unwrap().0@ == span_at(input@, rest),
            None => r is None,
        },
{
    tagged(input, Tag::Mi)
}

/// An operator token at the front of a text, and the place behind it.
pub fn mo(input: &str) -> (r: Option<(Span, MathExpression)>)
    ensures
        match alternative(input@, 0, Tag::Mo) {
            Some((e, rest)) => r is Some && r.unwrap().1@ == e && r.unwrap().0@ == span_at(input@, rest),
            None => r is None,
        },
{
    tagged(input, Tag::Mo)
}

/// A number at the front of a text, and the place behind it.
pub fn mn(input: &str) -> (r: Option<(Span, MathExpression)>)
    ensures
        match alternative(input@, 0, Tag::Mn) {
            Some((e, rest)) => r is Some && r.unwrap().1@ == e && r.unwrap().0@ == span_at(input@, rest),
            None => r is None,
        },
{
    tagged(input, Tag::Mn)
}

/// A row at the front of a text, and the place behind it.
pub fn mrow(input: &str) -> (r: Option<(Span, MathExpression)>)
    ensures
        match alternative(input@, 0, Tag::Mrow) {
            Some((e, rest)) => r is Some && r.unwrap().1@ == e && r.unwrap().0@ == span_at(input@, rest),
            None => r is None,
        },
{
    tagged(input, Tag::Mrow)
}

/// A fraction at the front of a text, and the place behind it.
pub fn mfrac(input: &str) -> (r: Option<(Span, MathExpression)>)
    ensures
        match alternative(input@, 0, Tag::Mfrac) {
            Some((e, rest)) => r is Some && r.unwrap().1@ == e && r.unwrap().0@ == span_at(input@, rest),
            None => r is None,
        },
{
    tagged(input, Tag::Mfrac)
}

/// A superscript at the front of a text, and the place behind it.
pub fn msup(input: &str) -> (r: Option<(Span, MathExpression)>)
    ensures
        match alternative(input@, 0, Tag::Msup) {
            Some((e, rest)) => r is Some && r.unwrap().1@ == e && r.unwrap().0@ == span_at(input@, rest),
            None => r is None,
        },
{
    tagged(input, Tag::Msup)
}

/// A subscript at the front of a text, and the place behind it.
pub fn msub(input: &str) -> (r: Option<(Span, MathExpression)>)
    ensures
        match alternative(input@, 0, Tag::Msub) {
            Some((e, rest)) => r is Some && r.unwrap().1@ == e && r.unwrap().0@ == span_at(input@, rest),
            None => r is None,
        },
{
    tagged(input, Tag::Msub)
}

/// A square root at the front of a text, and the place behind it.
pub fn msqrt(input: &str) -> (r: Option<(Span, MathExpression)>)
    ensures
        match alternative(input@, 0, Tag::Msqrt) {
            Some((e, rest)) => r is Some && r.unwrap().1@ == e && r.unwrap().0@ == span_at(input@, rest),
            None => r is None,
        },
{
    tagged(input, Tag::Msqrt)
}

} // verus!
