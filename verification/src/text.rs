//! Text before parsing and names after it: character references, white space between tags,
//! Greek letters as LaTeX commands.
use crate::parsing::chars_of;
use regex::Regex;
use vstd::prelude::*;

verus! {

/// What a match of a pattern is replaced by.
#[derive(Debug, PartialEq, Eq, Clone, Copy, Structural)]
pub enum Rewrite {
    /// White space between two tags goes.
    TagGap,
    /// A character reference becomes the character.
    Character,
    /// A Greek letter's name in English becomes its command.
    GreekName,
    /// A character reference to a Greek letter becomes its command.
    GreekCode,
    /// A character reference becomes a `\unicode` command.
    UnicodeCommand,
    /// A Greek letter becomes its command.
    GreekSymbol,
}

// ------------------------------------------------------------------ characters

/// White space as Unicode defines it.
pub open spec fn is_space(c: char) -> bool {
    let n = c as u32;
    (0x9 <= n <= 0xd) || n == 0x20 || n == 0x85 || n == 0xa0 || n == 0x1680 || (0x2000 <= n <= 0x200a) || n
        == 0x2028 || n == 0x2029 || n == 0x202f || n == 0x205f || n == 0x3000
}

/// A digit of base sixteen.
pub open spec fn is_hex_digit(c: char) -> bool {
    ('0' <= c <= '9') || ('a' <= c <= 'f') || ('A' <= c <= 'F')
}

/// The number that a digit of base sixteen stands for.
pub open spec fn hex_digit_value(c: char) -> nat {
    if '0' <= c <= '9' {
        (c as u32 - '0' as u32) as nat
    } else if 'a' <= c <= 'f' {
        (c as u32 - 'a' as u32 + 10) as nat
    } else {
        (c as u32 - 'A' as u32 + 10) as nat
    }
}

/// The number that the first `n` digits of `s` write in base sixteen.
pub open spec fn hex_value(s: Seq<char>, n: nat) -> nat
    decreases n,
{
    if n == 0 || n > s.len() {
        0
    } else {
        hex_value(s, (n - 1) as nat) * 16 + hex_digit_value(s[n - 1])
    }
}

/// A digit of base sixteen, in capitals.
pub open spec fn hex_char(d: nat) -> Seq<char> {
    if d == 0 {
        "0"@
    } else if d == 1 {
        "1"@
    } else if d == 2 {
        "2"@
    } else if d == 3 {
        "3"@
    } else if d == 4 {
        "4"@
    } else if d == 5 {
        "5"@
    } else if d == 6 {
        "6"@
    } else if d == 7 {
        "7"@
    } else if d == 8 {
        "8"@
    } else if d == 9 {
        "9"@
    } else if d == 10 {
        "A"@
    } else if d == 11 {
        "B"@
    } else if d == 12 {
        "C"@
    } else if d == 13 {
        "D"@
    } else if d == 14 {
        "E"@
    } else {
        "F"@
    }
}

/// A number in base sixteen, capitals, no leading zero.
pub open spec fn upper_hex(n: nat) -> Seq<char>
    decreases n,
{
    if n < 16 {
        hex_char(n)
    } else {
        upper_hex(n / 16) + hex_char(n % 16)
    }
}

/// Whether a number is a Unicode scalar value.
pub open spec fn is_scalar(n: nat) -> bool {
    n <= 0xd7ff || (0xe000 <= n <= 0x10ffff)
}

/// The command of a Greek letter, by its code point.
pub open spec fn greek_letter(code: nat) -> Option<Seq<char>> {
    if code == 0x391 {
        Some("\\Alpha"@)
    } else if code == 0x3b1 {
        Some("\\alpha"@)
    } else if code == 0x392 {
        Some("\\Beta"@)
    } else if code == 0x3b2 {
        Some("\\beta"@)
    } else if code == 0x393 {
        Some("\\Gamma"@)
    } else if code == 0x3b3 {
        Some("\\gamma"@)
    } else if code == 0x394 {
        Some("\\Delta"@)
    } else if code == 0x3b4 {
        Some("\\delta"@)
    } else if code == 0x395 {
        Some("\\Epsilon"@)
    } else if code == 0x3b5 {
        Some("\\epsilon"@)
    } else if code == 0x396 {
        Some("\\Zeta"@)
    } else if code == 0x3b6 {
        Some("\\zeta"@)
    } else if code == 0x397 {
        Some("\\Eta"@)
    } else if code == 0x3b7 {
        Some("\\eta"@)
    } else if code == 0x398 {
        Some("\\Theta"@)
    } else if code == 0x3b8 {
        Some("\\theta"@)
    } else if code == 0x399 {
        Some("\\Iota"@)
    } else if code == 0x3b9 {
        Some("\\iota"@)
    } else if code == 0x39a {
        Some("\\Kappa"@)
    } else if code == 0x3ba {
        Some("\\kappa"@)
    } else if code == 0x39b {
        Some("\\Lambda"@)
    } else if code == 0x3bb {
        Some("\\lambda"@)
    } else if code == 0x39c {
        Some("\\Mu"@)
    } else if code == 0x3bc {
        Some("\\mu"@)
    } else if code == 0x39d {
        Some("\\Nu"@)
    } else if code == 0x3bd {
        Some("\\nu"@)
    } else if code == 0x39e {
        Some("\\Xi"@)
    } else if code == 0x3be {
        Some("\\xi"@)
    } else if code == 0x39f {
        Some("\\Omicron"@)
    } else if code == 0x3bf {
        Some("\\omicron"@)
    } else if code == 0x3a0 {
        Some("\\Pi"@)
    } else if code == 0x3c0 {
        Some("\\pi"@)
    } else if code == 0x3a1 {
        Some("\\Rho"@)
    } else if code == 0x3c1 {
        Some("\\rho"@)
    } else if code == 0x3a3 {
        Some("\\Sigma"@)
    } else if code == 0x3c3 {
        Some("\\sigma"@)
    } else if code == 0x3a4 {
        Some("\\Tau"@)
    } else if code == 0x3c4 {
        Some("\\tau"@)
    } else if code == 0x3a5 {
        Some("\\Upsilon"@)
    } else if code == 0x3c5 {
        Some("\\upsilon"@)
    } else if code == 0x3a6 {
        Some("\\Phi"@)
    } else if code == 0x3c6 {
        Some("\\phi"@)
    } else if code == 0x3a7 {
        Some("\\Chi"@)
    } else if code == 0x3c7 {
        Some("\\chi"@)
    } else if code == 0x3a8 {
        Some("\\Psi"@)
    } else if code == 0x3c8 {
        Some("\\psi"@)
    } else if code == 0x3a9 {
        Some("\\Omega"@)
    } else if code == 0x3c9 {
        Some("\\omega"@)
    } else {
        None
    }
}

// ------------------------------------------------------------------ patterns

/// A `>`, white space, a `<`.
pub open spec fn gap_pattern() -> Seq<char> {
    ">\\s*<"@
}

/// A character reference in base sixteen.
pub open spec fn reference_pattern() -> Seq<char> {
    "&#x([0-9A-Fa-f]+);"@
}

/// The English names of the Greek letters.
pub open spec fn name_pattern() -> Seq<char> {
    "Lambda|lambda|Alpha|alpha|Beta|beta|Gamma|gamma|Delta|delta|Epsilon|epsilon|Zeta|zeta|Eta|eta|Theta|theta|Iota|iota|Kappa|kappa|Lambda|lambda|Mu|mu|Nu|nu|Xi|xi|Omicron|omicron|Pi|pi|Rho|rho|Sigma|sigma|Tau|tau|Upsilon|upsilon|Phi|phi|Chi|chi|Psi|psi|Omega|omega"@
}

/// The Greek letters.
pub open spec fn symbol_pattern() -> Seq<char> {
    "\u{39b}|\u{3bb}|\u{391}|\u{3b1}|\u{392}|\u{3b2}|\u{393}|\u{3b3}|\u{394}|\u{3b4}|\u{395}|\u{3b5}|\u{396}|\u{3b6}|\u{397}|\u{3b7}|\u{398}|\u{3b8}|\u{399}|\u{3b9}|\u{39a}|\u{3ba}|\u{39b}|\u{3bb}|\u{39c}|\u{3bc}|\u{39d}|\u{3bd}|\u{39e}|\u{3be}|\u{39f}|\u{3bf}|\u{3a0}|\u{3c0}|\u{3a1}|\u{3c1}|\u{3a3}|\u{3c3}|\u{3c2}|\u{3a4}|\u{3c4}|\u{3a5}|\u{3c5}|\u{3a6}|\u{3c6}|\u{3a7}|\u{3c7}|\u{3a8}|\u{3c8}|\u{3a9}|\u{3c9}"@
}

/// The regular expression whose matches a rule rewrites.
pub open spec fn pattern_of(rule: Rewrite) -> Seq<char> {
    match rule {
        Rewrite::TagGap => gap_pattern(),
        Rewrite::Character => reference_pattern(),
        Rewrite::GreekName => name_pattern(),
        Rewrite::GreekCode => reference_pattern(),
        Rewrite::UnicodeCommand => reference_pattern(),
        Rewrite::GreekSymbol => symbol_pattern(),
    }
}

/// The names that the name pattern lists, in its order.
pub open spec fn greek_names() -> Seq<Seq<char>> {
    seq![
        "Lambda"@,
        "lambda"@,
        "Alpha"@,
        "alpha"@,
        "Beta"@,
        "beta"@,
        "Gamma"@,
        "gamma"@,
        "Delta"@,
        "delta"@,
        "Epsilon"@,
        "epsilon"@,
        "Zeta"@,
        "zeta"@,
        "Eta"@,
        "eta"@,
        "Theta"@,
        "theta"@,
        "Iota"@,
        "iota"@,
        "Kappa"@,
        "kappa"@,
        "Lambda"@,
        "lambda"@,
        "Mu"@,
        "mu"@,
        "Nu"@,
        "nu"@,
        "Xi"@,
        "xi"@,
        "Omicron"@,
        "omicron"@,
        "Pi"@,
        "pi"@,
        "Rho"@,
        "rho"@,
        "Sigma"@,
        "sigma"@,
        "Tau"@,
        "tau"@,
        "Upsilon"@,
        "upsilon"@,
        "Phi"@,
        "phi"@,
        "Chi"@,
        "chi"@,
        "Psi"@,
        "psi"@,
        "Omega"@,
        "omega"@,
    ]
}

/// Whether `p` stands in `t` at `i`.
pub open spec fn stands_at(t: Seq<char>, i: int, p: Seq<char>) -> bool {
    0 <= i && i + p.len() <= t.len() && t.subrange(i, i + p.len()) == p
}

/// How many characters from `i` on are white space.
pub open spec fn space_run(t: Seq<char>, i: int) -> nat
    decreases t.len() - i,
{
    if 0 <= i < t.len() && is_space(t[i]) {
        1 + space_run(t, i + 1)
    } else {
        0
    }
}

/// How many characters from `i` on are digits of base sixteen.
pub open spec fn hex_run(t: Seq<char>, i: int) -> nat
    decreases t.len() - i,
{
    if 0 <= i < t.len() && is_hex_digit(t[i]) {
        1 + hex_run(t, i + 1)
    } else {
        0
    }
}

/// The first name, from the `k`-th on, that stands in `t` at `i`.
pub open spec fn name_at(t: Seq<char>, i: int, k: nat) -> Option<Seq<char>>
    decreases greek_names().len() - k,
{
    if k >= greek_names().len() {
        None
    } else if stands_at(t, i, greek_names()[k as int]) {
        Some(greek_names()[k as int])
    } else {
        name_at(t, i, k + 1)
    }
}

/// The length of the match of the rule's pattern that starts at `i`, if one starts there.
pub open spec fn match_len(rule: Rewrite, t: Seq<char>, i: int) -> Option<nat> {
    if !(0 <= i < t.len()) {
        None
    } else {
        match rule {
            Rewrite::TagGap => {
                let k = space_run(t, i + 1);
                if t[i] == '>' && i + 1 + k < t.len() && t[i + 1 + k] == '<' {
                    Some(k + 2)
                } else {
                    None
                }
            },
            Rewrite::GreekName => match name_at(t, i, 0) {
                Some(name) => Some(name.len()),
                None => None,
            },
            Rewrite::GreekSymbol => if greek_letter(t[i] as nat) is Some || t[i] == '\u{3c2}' {
                Some(1)
            } else {
                None
            },
            _ => {
                let k = hex_run(t, i + 3);
                if stands_at(t, i, "&#x"@) && k >= 1 && i + 3 + k < t.len() && t[i + 3 + k] == ';' {
                    Some(k + 4)
                } else {
                    None
                }
            },
        }
    }
}

/// What a character reference `&#x..;` says: the number between its ends.
pub open spec fn reference_value(whole: Seq<char>) -> nat {
    hex_value(whole.subrange(3, whole.len() - 1), (whole.len() - 4) as nat)
}

/// Whether a text has the shape of a character reference.
pub open spec fn is_reference(whole: Seq<char>) -> bool {
    &&& whole.len() >= 5
    &&& whole[0] == '&'
    &&& whole[1] == '#'
    &&& whole[2] == 'x'
    &&& whole[whole.len() - 1] == ';'
    &&& forall|j: int| 3 <= j < whole.len() - 1 ==> is_hex_digit(#[trigger] whole[j])
}

/// What a rule puts in the place of a match.
pub open spec fn rewritten(rule: Rewrite, whole: Seq<char>) -> Seq<char> {
    match rule {
        Rewrite::TagGap => "><"@,
        Rewrite::GreekName => "\\"@ + whole,
        Rewrite::GreekSymbol => if whole.len() == 1 && whole[0] == '\u{3c2}' {
            "\\varsigma"@
        } else if whole.len() == 1 && greek_letter(whole[0] as nat) is Some {
            greek_letter(whole[0] as nat)->0
        } else {
            whole
        },
        Rewrite::Character => if is_reference(whole) && is_scalar(reference_value(whole)) {
            seq![reference_value(whole) as char]
        } else {
            whole
        },
        Rewrite::GreekCode => if is_reference(whole) && greek_letter(reference_value(whole)) is Some {
            greek_letter(reference_value(whole))->0
        } else {
            whole
        },
        Rewrite::UnicodeCommand => if is_reference(whole) && reference_value(whole) <= u32::MAX {
            "\\unicode{U+"@ + upper_hex(reference_value(whole)) + "}"@
        } else {
            whole
        },
    }
}

/// The text from `i` on, with every match rewritten: matches are looked for from left to
/// right, and the next one after the end of the last.
pub open spec fn replaced_from(rule: Rewrite, t: Seq<char>, i: int) -> Seq<char>
    decreases t.len() - i,
{
    if !(0 <= i < t.len()) {
        Seq::empty()
    } else {
        match match_len(rule, t, i) {
            Some(n) => if n >= 1 && i + n <= t.len() {
                rewritten(rule, t.subrange(i, i + n)) + replaced_from(rule, t, i + n)
            } else {
                seq![t[i]] + replaced_from(rule, t, i + 1)
            },
            None => seq![t[i]] + replaced_from(rule, t, i + 1),
        }
    }
}

/// The whole text with every match rewritten.
pub open spec fn replaced(rule: Rewrite, t: Seq<char>) -> Seq<char> {
    replaced_from(rule, t, 0)
}

// ------------------------------------------------------------------ outside calls

/// `String::push`: the character is added at the end.
#[verifier::external_body]
pub(crate) fn push_char(s: &mut String, c: char)
    ensures
        final(s)@ == old(s)@.push(c),
{
    s.push(c)
}

/// `char::from_u32`: the character with that number, where the number is a scalar value.
#[verifier::external_body]
fn char_of(n: u32) -> (r: Option<char>)
    ensures
        is_scalar(n as nat) ==> r == Some(n as char),
        !is_scalar(n as nat) ==> r is None,
{
    char::from_u32(n)
}

/// `Regex::new` with the pattern of a rule, then `Regex::replace_all` with a closure that
/// hands each whole match to `rewrite_match`. The contract says of the four patterns what the
/// regex syntax gives them: which text each matches (`match_len`), that matches are taken
/// from left to right without overlap, and that the rest of the text stays (`replaced`).
#[verifier::external_body]
fn regex_replace_all(pattern: &str, text: &str, rule: Rewrite) -> (r: String)
    requires
        pattern@ == pattern_of(rule),
    ensures
        r@ == replaced(rule, text@),
{
    let re = Regex::new(pattern).unwrap();
    re.replace_all(text, |c: &regex::Captures| rewrite_match(rule, &c[0])).into_owned()
}

// ------------------------------------------------------------------ the rules

/// A text without its line feeds.
pub open spec fn without_newlines(t: Seq<char>) -> Seq<char> {
    t.filter(|c: char| c != '\n')
}

/// Taking the line feeds out of one character more.
proof fn lemma_without_newlines_step(t: Seq<char>, i: int)
    requires
        0 <= i < t.len(),
    ensures
        without_newlines(t.take(0)) == Seq::<char>::empty(),
        t[i] != '\n' ==> without_newlines(t.take(i + 1)) == without_newlines(t.take(i)).push(t[i]),
        t[i] == '\n' ==> without_newlines(t.take(i + 1)) == without_newlines(t.take(i)),
{
    reveal(Seq::filter);
    assert(t.take(i + 1).drop_last() =~= t.take(i));
    assert(t.take(0).len() == 0);
}

/// Takes the line feeds out of a text.
fn remove_newlines(text: &str) -> (r: String)
    ensures
        r@ == without_newlines(text@),
{
    let chars = chars_of(text);
    let mut r = String::new();
    let mut i: usize = 0;
    proof {
        reveal(Seq::filter);
        assert(chars@.take(0).len() == 0);
    }
    while i < chars.len()
        invariant
            i <= chars.len(),
            chars@ == text@,
            r@ == without_newlines(chars@.take(i as int)),
        decreases chars.len() - i,
    {
        proof {
            lemma_without_newlines_step(chars@, i as int);
        }
        if chars[i] != '\n' {
            push_char(&mut r, chars[i]);
        }
        i += 1;
    }
    assert(chars@.take(chars@.len() as int) =~= chars@);
    r
}

/// A text without line feeds and without white space between `>` and `<`.
pub open spec fn normalized(t: Seq<char>) -> Seq<char> {
    replaced(Rewrite::TagGap, without_newlines(t))
}

/// A text with Greek letters, their names and their character references as commands,
/// and every other character reference as a `\unicode` command.
pub open spec fn latex_names(t: Seq<char>) -> Seq<char> {
    replaced(
        Rewrite::GreekSymbol,
        replaced(Rewrite::UnicodeCommand, replaced(Rewrite::GreekCode, replaced(Rewrite::GreekName, t))),
    )
}

fn hex_digit_of(c: char) -> (r: Option<u32>)
    ensures
        r is Some <==> is_hex_digit(c),
        r is Some ==> r->0 == hex_digit_value(c) && r->0 < 16,
{
    if '0' <= c && c <= '9' {
        Some(c as u32 - '0' as u32)
    } else if 'a' <= c && c <= 'f' {
        Some(c as u32 - 'a' as u32 + 10)
    } else if 'A' <= c && c <= 'F' {
        Some(c as u32 - 'A' as u32 + 10)
    } else {
        None
    }
}

fn hex_char_str(d: u32) -> (r: &'static str)
    requires
        d < 16,
    ensures
        r@ == hex_char(d as nat),
{
    if d == 0 {
        "0"
    } else if d == 1 {
        "1"
    } else if d == 2 {
        "2"
    } else if d == 3 {
        "3"
    } else if d == 4 {
        "4"
    } else if d == 5 {
        "5"
    } else if d == 6 {
        "6"
    } else if d == 7 {
        "7"
    } else if d == 8 {
        "8"
    } else if d == 9 {
        "9"
    } else if d == 10 {
        "A"
    } else if d == 11 {
        "B"
    } else if d == 12 {
        "C"
    } else if d == 13 {
        "D"
    } else if d == 14 {
        "E"
    } else {
        "F"
    }
}

fn upper_hex_string(n: u32) -> (r: String)
    ensures
        r@ == upper_hex(n as nat),
    decreases n,
{
    if n < 16 {
        String::from_str(hex_char_str(n))
    } else {
        let mut r = upper_hex_string(n / 16);
        r.append(hex_char_str(n % 16));
        r
    }
}

fn greek_letter_str(code: u32) -> (r: Option<&'static str>)
    ensures
        r is Some <==> greek_letter(code as nat) is Some,
        r is Some ==> r->0@ == greek_letter(code as nat)->0,
{
    if code == 0x391 {
        Some("\\Alpha")
    } else if code == 0x3b1 {
        Some("\\alpha")
    } else if code == 0x392 {
        Some("\\Beta")
    } else if code == 0x3b2 {
        Some("\\beta")
    } else if code == 0x393 {
        Some("\\Gamma")
    } else if code == 0x3b3 {
        Some("\\gamma")
    } else if code == 0x394 {
        Some("\\Delta")
    } else if code == 0x3b4 {
        Some("\\delta")
    } else if code == 0x395 {
        Some("\\Epsilon")
    } else if code == 0x3b5 {
        Some("\\epsilon")
    } else if code == 0x396 {
        Some("\\Zeta")
    } else if code == 0x3b6 {
        Some("\\zeta")
    } else if code == 0x397 {
        Some("\\Eta")
    } else if code == 0x3b7 {
        Some("\\eta")
    } else if code == 0x398 {
        Some("\\Theta")
    } else if code == 0x3b8 {
        Some("\\theta")
    } else if code == 0x399 {
        Some("\\Iota")
    } else if code == 0x3b9 {
        Some("\\iota")
    } else if code == 0x39a {
        Some("\\Kappa")
    } else if code == 0x3ba {
        Some("\\kappa")
    } else if code == 0x39b {
        Some("\\Lambda")
    } else if code == 0x3bb {
        Some("\\lambda")
    } else if code == 0x39c {
        Some("\\Mu")
    } else if code == 0x3bc {
        Some("\\mu")
    } else if code == 0x39d {
        Some("\\Nu")
    } else if code == 0x3bd {
        Some("\\nu")
    } else if code == 0x39e {
        Some("\\Xi")
    } else if code == 0x3be {
        Some("\\xi")
    } else if code == 0x39f {
        Some("\\Omicron")
    } else if code == 0x3bf {
        Some("\\omicron")
    } else if code == 0x3a0 {
        Some("\\Pi")
    } else if code == 0x3c0 {
        Some("\\pi")
    } else if code == 0x3a1 {
        Some("\\Rho")
    } else if code == 0x3c1 {
        Some("\\rho")
    } else if code == 0x3a3 {
        Some("\\Sigma")
    } else if code == 0x3c3 {
        Some("\\sigma")
    } else if code == 0x3a4 {
        Some("\\Tau")
    } else if code == 0x3c4 {
        Some("\\tau")
    } else if code == 0x3a5 {
        Some("\\Upsilon")
    } else if code == 0x3c5 {
        Some("\\upsilon")
    } else if code == 0x3a6 {
        Some("\\Phi")
    } else if code == 0x3c6 {
        Some("\\phi")
    } else if code == 0x3a7 {
        Some("\\Chi")
    } else if code == 0x3c7 {
        Some("\\chi")
    } else if code == 0x3a8 {
        Some("\\Psi")
    } else if code == 0x3c8 {
        Some("\\psi")
    } else if code == 0x3a9 {
        Some("\\Omega")
    } else if code == 0x3c9 {
        Some("\\omega")
    } else {
        None
    }
}

proof fn lemma_hex_value_grows(s: Seq<char>, m: nat, n: nat)
    requires
        m <= n <= s.len(),
    ensures
        hex_value(s, m) <= hex_value(s, n),
    decreases n,
{
    if m < n {
        lemma_hex_value_grows(s, m, (n - 1) as nat);
    }
}

/// Reads a character reference: its number, where it has the shape and the number fits.
fn parse_reference(whole: &str) -> (r: Option<u32>)
    ensures
        r is Some ==> is_reference(whole@) && r->0 == reference_value(whole@),
        r is None ==> !is_reference(whole@) || reference_value(whole@) > u32::MAX,
{
    let n = whole.unicode_len();
    if n < 5 {
        return None;
    }
    if whole.get_char(0) != '&' || whole.get_char(1) != '#' || whole.get_char(2) != 'x' || whole.get_char(
        n - 1,
    ) != ';' {
        return None;
    }
    let ghost digits = whole@.subrange(3, n - 1);
    let mut v: u32 = 0;
    let mut j: usize = 3;
    while j < n - 1
        invariant
            3 <= j <= n - 1,
            n == whole@.len(),
            digits == whole@.subrange(3, n - 1),
            v == hex_value(digits, (j - 3) as nat),
            forall|k: int| 3 <= k < j ==> is_hex_digit(#[trigger] whole@[k]),
        decreases n - j,
    {
        let c = whole.get_char(j);
        let d: u32 = match hex_digit_of(c) {
            Some(d) => d,
            None => {
                return None;
            },
        };
        assert(digits[j - 3] == c);
        assert(hex_value(digits, (j - 2) as nat) == v * 16 + d);
        if v > (u32::MAX - d) / 16 {
            proof {
                lemma_hex_value_grows(digits, (j - 2) as nat, (n - 4) as nat);
            }
            return None;
        }
        v = v * 16 + d;
        j += 1;
    }
    Some(v)
}

/// What the rule puts in the place of one match.
pub fn rewrite_match(rule: Rewrite, whole: &str) -> (r: String)
    ensures
        r@ == rewritten(rule, whole@),
{
    match rule {
        Rewrite::TagGap => String::from_str("><"),
        Rewrite::GreekName => {
            let mut r = String::from_str("\\");
            r.append(whole);
            r
        },
        Rewrite::GreekSymbol => {
            if whole.unicode_len() == 1 {
                let c = whole.get_char(0);
                if c == '\u{3c2}' {
                    String::from_str("\\varsigma")
                } else {
                    match greek_letter_str(c as u32) {
                        Some(s) => String::from_str(s),
                        None => String::from_str(whole),
                    }
                }
            } else {
                String::from_str(whole)
            }
        },
        Rewrite::Character => {
            match parse_reference(whole) {
                Some(v) => match char_of(v) {
                    Some(c) => {
                        let mut r = String::new();
                        push_char(&mut r, c);
                        assert(r@ =~= seq![c]);
                        r
                    },
                    None => String::from_str(whole),
                },
                None => String::from_str(whole),
            }
        },
        Rewrite::GreekCode => {
            match parse_reference(whole) {
                Some(v) => match greek_letter_str(v) {
                    Some(s) => String::from_str(s),
                    None => String::from_str(whole),
                },
                None => String::from_str(whole),
            }
        },
        Rewrite::UnicodeCommand => {
            match parse_reference(whole) {
                Some(v) => {
                    let mut r = String::from_str("\\unicode{U+");
                    let h = upper_hex_string(v);
                    r.append(h.as_str());
                    r.append("}");
                    r
                },
                None => String::from_str(whole),
            }
        },
    }
}

fn pattern_str(rule: Rewrite) -> (r: &'static str)
    ensures
        r@ == pattern_of(rule),
{
    match rule {
        Rewrite::TagGap => ">\\s*<",
        Rewrite::GreekName => "Lambda|lambda|Alpha|alpha|Beta|beta|Gamma|gamma|Delta|delta|Epsilon|epsilon|Zeta|zeta|Eta|eta|Theta|theta|Iota|iota|Kappa|kappa|Lambda|lambda|Mu|mu|Nu|nu|Xi|xi|Omicron|omicron|Pi|pi|Rho|rho|Sigma|sigma|Tau|tau|Upsilon|upsilon|Phi|phi|Chi|chi|Psi|psi|Omega|omega",
        Rewrite::GreekSymbol => "\u{39b}|\u{3bb}|\u{391}|\u{3b1}|\u{392}|\u{3b2}|\u{393}|\u{3b3}|\u{394}|\u{3b4}|\u{395}|\u{3b5}|\u{396}|\u{3b6}|\u{397}|\u{3b7}|\u{398}|\u{3b8}|\u{399}|\u{3b9}|\u{39a}|\u{3ba}|\u{39b}|\u{3bb}|\u{39c}|\u{3bc}|\u{39d}|\u{3bd}|\u{39e}|\u{3be}|\u{39f}|\u{3bf}|\u{3a0}|\u{3c0}|\u{3a1}|\u{3c1}|\u{3a3}|\u{3c3}|\u{3c2}|\u{3a4}|\u{3c4}|\u{3a5}|\u{3c5}|\u{3a6}|\u{3c6}|\u{3a7}|\u{3c7}|\u{3a8}|\u{3c8}|\u{3a9}|\u{3c9}",
        _ => "&#x([0-9A-Fa-f]+);",
    }
}

/// Puts the character in the place of each character reference `&#x..;` that names one.
pub fn replace_unicode_with_symbols(input: &str) -> (r: String)
    ensures
        r@ == replaced(Rewrite::Character, input@),
{
    regex_replace_all(pattern_str(Rewrite::Character), input, Rewrite::Character)
}

/// Takes out the line feeds, and the white space between a `>` and the next `<`.
pub fn preprocess_mathml_for_to_latex(input: &str) -> (r: String)
    ensures
        r@ == normalized(input@),
{
    let no_newlines = remove_newlines(input);
    regex_replace_all(pattern_str(Rewrite::TagGap), no_newlines.as_str(), Rewrite::TagGap)
}

/// Writes Greek letters, their English names and their character references as LaTeX
/// commands; what it does not know stays as it is.
pub fn unicode_to_latex(input: &str) -> (r: String)
    ensures
        r@ == latex_names(input@),
{
    let a = regex_replace_all(pattern_str(Rewrite::GreekName), input, Rewrite::GreekName);
    let b = regex_replace_all(pattern_str(Rewrite::GreekCode), a.as_str(), Rewrite::GreekCode);
    let c = regex_replace_all(pattern_str(Rewrite::UnicodeCommand), b.as_str(), Rewrite::UnicodeCommand);
    regex_replace_all(pattern_str(Rewrite::GreekSymbol), c.as_str(), Rewrite::GreekSymbol)
}

} // verus!
