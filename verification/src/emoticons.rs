//! The emoticon grammar: a disjunction of four sub-grammars, each matched
//! against the whole token.
//!
//! A Western face read left to right is an optional hat, eyes, optional
//! tears, an optional nose and a mouth; read right to left the parts come
//! mirrored.  Several part classes carry side conditions on the neighbouring
//! character, which keep ordinary punctuation runs from counting as faces.
//! Eastern faces and a small residual set (`^5`, `<3`) close the grammar.

use vstd::prelude::*;
use crate::chars::{word_char, decimal_digit_char, space_char, is_word_char, is_decimal_digit_char, is_space_char};

verus! {

pub open spec fn ascii_letter(c: char) -> bool {
    ('a' <= c && c <= 'z') || ('A' <= c && c <= 'Z')
}

pub open spec fn bracket_char(c: char) -> bool {
    c == '(' || c == ')' || c == '{' || c == '}' || c == '[' || c == ']' || c == '<' || c == '>'
        || c == '|' || c == '/' || c == '\\'
}

pub open spec fn tears_char(c: char) -> bool {
    c == '\'' || c == '"' || c == ','
}

// ---------------------------------------------------------------------------
// Left-to-right faces
// ---------------------------------------------------------------------------

pub open spec fn ltr_hat(c: char) -> bool {
    c == 'D' || c == 'P' || c == 'O' || c == '0' || c == '3' || c == '|' || c == '}' || c == '>'
        || c == '<' || c == '='
}

/// What may not follow `x`, `X` or `B` eyes: most letters, comma, dot,
/// slash.
pub open spec fn xxb_blocked(c: char) -> bool {
    ('a' <= c && c <= 'c') || ('e' <= c && c <= 'o') || ('q' <= c && c <= 'z')
        || ('A' <= c && c <= 'C') || ('E' <= c && c <= 'O') || ('Q' <= c && c <= 'Z')
        || c == ',' || c == '.' || c == '/'
}

/// What may not follow `8` eyes: digits, most letters, backslash, slash.
pub open spec fn eight_blocked(c: char) -> bool {
    decimal_digit_char(c) || ('a' <= c && c <= 'c') || ('e' <= c && c <= 'z') || ('A' <= c && c <= 'C')
        || ('E' <= c && c <= 'Z') || c == '\\' || c == '/'
}

/// Eyes of a left-to-right face.  `pc` is the preceding character (the hat)
/// when there is one; `nc` the following character.
pub open spec fn ltr_eyes(pc: Option<char>, c: char, nc: char) -> bool {
    ||| ((c == 'x' || c == 'X' || c == 'B')
        && !(pc matches Some(p) && (ascii_letter(p) || p == '(')) && !xxb_blocked(nc))
    ||| ((c == ':' || c == '=' || c == '|') && pc != Some(':') && nc != '.')
    ||| ((c == '%' || c == '#') && !(pc matches Some(p) && (p == '%' || p == '#' || decimal_digit_char(p)))
        && !(nc == '%' || nc == '#' || decimal_digit_char(nc)))
    ||| (c == '$' && !(pc matches Some(p) && (decimal_digit_char(p) || p == '$'))
        && !(decimal_digit_char(nc) || nc == '.' || nc == ',' || nc == '$'))
    ||| (c == ';' && nc != '(')
    ||| (c == '8' && !(pc matches Some(p) && (decimal_digit_char(p) || p == '(' || p == '-' || p == '+'))
        && !eight_blocked(nc))
    ||| (c == '*' && !(nc == '*' || decimal_digit_char(nc) || nc == ',' || nc == '.'))
}

/// The nose of a left-to-right face, with the characters on both sides.
pub open spec fn ltr_nose(pc: char, c: char, nc: char) -> bool {
    ||| ((c == 'o' || c == 'c') && !(word_char(pc) || pc == '*') && !ascii_letter(nc))
    ||| (c == '-' || c == '\u{2011}' || c == '^')
}

/// A single-character mouth of a left-to-right face; `pc` is the character
/// before the mouth.  The conditions on what follows are empty here because
/// the mouth closes the token.
pub open spec fn ltr_mouth_single(pc: char, c: char) -> bool {
    ||| (c == '\u{00de}' || c == '\u{00d7}' || c == '\u{00fe}')
    ||| ((c == '3' || c == '0') && !decimal_digit_char(pc))
    ||| ((c == '*' || c == ',' || c == '.' || c == '@' || c == '#' || c == '&')
        && !(decimal_digit_char(pc) || pc == '*'))
    ||| (c == '$' && !(decimal_digit_char(pc) || pc == '$'))
    ||| (c == 'D' || c == 'O' || c == 'o' || c == 's' || c == 'S' || c == 'J' || c == 'L'
        || c == 'x' || c == 'X' || c == 'p' || c == 'P' || c == 'b' || c == 'c')
}

/// The mouth of a left-to-right face fills the token from `m0` to the end:
/// either a run of bracket-like characters or one character of the single
/// mouth class.
pub open spec fn ltr_mouth(s: Seq<char>, m0: int) -> bool {
    &&& 1 <= m0 < s.len()
    &&& ((forall|k: int| m0 <= k < s.len() ==> bracket_char(s[k]))
        || (s.len() - m0 == 1 && ltr_mouth_single(s[m0 - 1], s[m0])))
}

/// A left-to-right face with the given choice of optional hat, tears and
/// nose.
pub open spec fn ltr_combo(s: Seq<char>, h: bool, t: bool, n: bool) -> bool {
    let hi: int = if h { 1 } else { 0 };
    let ti: int = if t { 1 } else { 0 };
    let ni: int = if n { 1 } else { 0 };
    let m0 = hi + 1 + ti + ni;
    &&& s.len() >= m0 + 1
    &&& (h ==> ltr_hat(s[0]))
    &&& ltr_eyes(if h { Some(s[0]) } else { None }, s[hi], s[hi + 1])
    &&& (t ==> tears_char(s[hi + 1]))
    &&& (n ==> ltr_nose(s[m0 - 2], s[m0 - 1], s[m0]))
    &&& ltr_mouth(s, m0)
}

pub open spec fn ltr_face(s: Seq<char>) -> bool {
    ||| ltr_combo(s, false, false, false)
    ||| ltr_combo(s, false, false, true)
    ||| ltr_combo(s, false, true, false)
    ||| ltr_combo(s, false, true, true)
    ||| ltr_combo(s, true, false, false)
    ||| ltr_combo(s, true, false, true)
    ||| ltr_combo(s, true, true, false)
    ||| ltr_combo(s, true, true, true)
}

// ---------------------------------------------------------------------------
// Right-to-left faces
// ---------------------------------------------------------------------------

pub open spec fn rtl_hat(c: char) -> bool {
    c == 'O' || c == '0' || c == '|' || c == '{' || c == '>' || c == '<' || c == '='
}

/// Eyes of a right-to-left face; `nc` is the following character (the hat)
/// when there is one.
pub open spec fn rtl_eyes(c: char, nc: Option<char>) -> bool {
    ||| (c == 'x' || c == 'X')
    ||| (c == ':' || c == '=' || c == '|')
    ||| (c == '%' || c == '#')
    ||| ((c == '$' || c == '8') && !(nc matches Some(p) && (decimal_digit_char(p) || p == '.')))
    ||| (c == ';')
    ||| (c == '*')
}

pub open spec fn rtl_nose(c: char) -> bool {
    c == '-' || c == '\u{2011}' || c == '^'
}

/// A single-character mouth of a right-to-left face; it opens the token, so
/// only the look at the following character `nc` is live.
pub open spec fn rtl_mouth_single(c: char, nc: char) -> bool {
    ||| (c == '0' && !(decimal_digit_char(nc) || nc == '.'))
    ||| (c == '$')
    ||| (c == 'D' || c == 'O' || c == 'o' || c == 's' || c == 'S' || c == 'x' || c == 'X')
}

/// A right-to-left face with the given choice of optional hat, tears and
/// nose: a mouth, then the optional nose, optional tears, eyes and the
/// optional hat.
pub open spec fn rtl_combo(s: Seq<char>, h: bool, t: bool, n: bool) -> bool {
    let hi: int = if h { 1 } else { 0 };
    let ti: int = if t { 1 } else { 0 };
    let ni: int = if n { 1 } else { 0 };
    let m_end = s.len() - hi - ti - ni - 1;
    &&& s.len() >= hi + ti + ni + 2
    &&& (h ==> rtl_hat(s[s.len() - 1]))
    &&& rtl_eyes(s[m_end + ni + ti], if h { Some(s[s.len() - 1]) } else { None })
    &&& (t ==> tears_char(s[m_end + ni]))
    &&& (n ==> rtl_nose(s[m_end]))
    &&& ((forall|k: int| 0 <= k < m_end ==> bracket_char(s[k]))
        || (m_end == 1 && rtl_mouth_single(s[0], s[1])))
}

pub open spec fn rtl_face(s: Seq<char>) -> bool {
    ||| rtl_combo(s, false, false, false)
    ||| rtl_combo(s, false, false, true)
    ||| rtl_combo(s, false, true, false)
    ||| rtl_combo(s, false, true, true)
    ||| rtl_combo(s, true, false, false)
    ||| rtl_combo(s, true, false, true)
    ||| rtl_combo(s, true, true, false)
    ||| rtl_combo(s, true, true, true)
}

// ---------------------------------------------------------------------------
// Eastern forms
// ---------------------------------------------------------------------------

pub open spec fn nonsp_nonparen(c: char) -> bool {
    !space_char(c) && c != '(' && c != ')'
}

/// The bracketed-face interior class: non-word characters, underscore, and
/// the letters `o`, `T`, `O`, `J`.
pub open spec fn wotoj(c: char) -> bool {
    !word_char(c) || c == '_' || c == 'o' || c == 'T' || c == 'O' || c == 'J'
}

/// The caret-and-semicolon face, such as `^_^`, with the optional flanking
/// characters given by `a` and `b`.
pub open spec fn eastern_caret_at(s: Seq<char>, a: int, b: int) -> bool {
    &&& s.len() == a + 3 + b
    &&& (a == 1 ==> (s[0] == '<' || s[0] == '>'))
    &&& (s[a] == '^' || s[a] == ';')
    &&& (!word_char(s[a + 1]) || s[a + 1] == '_' || s[a + 1] == 'm')
    &&& (s[a + 2] == ';' || s[a + 2] == '^')
    &&& (b == 1 ==> (s[s.len() - 1] == ';' || s[s.len() - 1] == '<' || s[s.len() - 1] == '>'))
}

pub open spec fn eastern_caret(s: Seq<char>) -> bool {
    ||| eastern_caret_at(s, 0, 0)
    ||| eastern_caret_at(s, 0, 1)
    ||| eastern_caret_at(s, 1, 0)
    ||| eastern_caret_at(s, 1, 1)
}

/// A bracketed face, such as `(T_T)`, with the opening parenthesis at `p`
/// and the closing one at `q`.  Up to one arm (an `m` or any other non-space
/// non-parenthesis character) may flank each side; the interior splits into
/// two groups of one to three characters of the interior class with an
/// optional whitespace between them.
pub open spec fn eastern_paren_at(s: Seq<char>, p: int, q: int) -> bool {
    &&& 0 <= p
    &&& p + 2 <= q < s.len()
    &&& s[p] == '(' && s[q] == ')'
    &&& (p == 0 || (p == 1 && nonsp_nonparen(s[0])) || (p == 2 && s[1] == 'm'
        && nonsp_nonparen(s[0])))
    &&& (q == s.len() - 1 || (q == s.len() - 2 && nonsp_nonparen(s[s.len() - 1])) || (q == s.len()
        - 3 && s[q + 1] == 'm' && nonsp_nonparen(s[s.len() - 1])))
    &&& (forall|k: int| p < k < q ==> wotoj(s[k]))
    &&& (2 <= q - p - 1 <= 6 || (q - p - 1 == 7 && space_char(s[p + 4])))
}

pub open spec fn eastern_paren(s: Seq<char>) -> bool {
    exists|p: int, q: int| eastern_paren_at(s, p, q)
}

/// The slanted face, such as `\o/`, with optional stars given by `a` and
/// `b`.
pub open spec fn eastern_slant_at(s: Seq<char>, a: int, b: int) -> bool {
    &&& s.len() == a + 3 + b
    &&& (a == 1 ==> s[0] == '*')
    &&& (s[a] == 'v' || s[a] == '>' || s[a] == '-' || s[a] == '/' || s[a] == '\\')
    &&& (s[a + 1] == 'o' || s[a + 1] == '0' || s[a + 1] == 'O' || s[a + 1] == '_'
        || s[a + 1] == '.')
    &&& (s[a + 2] == 'v' || s[a + 2] == '-' || s[a + 2] == '<' || s[a + 2] == '/'
        || s[a + 2] == '\\')
    &&& (b == 1 ==> s[s.len() - 1] == '*')
}

pub open spec fn eastern_slant(s: Seq<char>) -> bool {
    ||| eastern_slant_at(s, 0, 0)
    ||| eastern_slant_at(s, 0, 1)
    ||| eastern_slant_at(s, 1, 0)
    ||| eastern_slant_at(s, 1, 1)
}

/// The wide-eyed face, such as `O_o`.
pub open spec fn eastern_wide(s: Seq<char>) -> bool {
    &&& 3 <= s.len() <= 4
    &&& (s[0] == 'o' || s[0] == 'O' || s[0] == '0' || s[0] == '>')
    &&& (s[s.len() - 1] == 'o' || s[s.len() - 1] == 'O' || s[s.len() - 1] == '0'
        || s[s.len() - 1] == '>')
    &&& (forall|k: int| 0 < k < s.len() - 1 ==> (s[k] == '-' || s[k] == '_' || s[k] == '/'
        || s[k] == 'o' || s[k] == 'O' || s[k] == '.' || s[k] == '\\'))
}

pub open spec fn eastern_emoticon(s: Seq<char>) -> bool {
    ||| eastern_caret(s)
    ||| eastern_paren(s)
    ||| eastern_slant(s)
    ||| eastern_wide(s)
    ||| (s.len() == 2 && s[0] == '^' && s[1] == '^')
}

/// The residual emoticons `^5` and `<3`.
pub open spec fn rest_emoticon(s: Seq<char>) -> bool {
    s.len() == 2 && ((s[0] == '^' && s[1] == '5') || (s[0] == '<' && s[1] == '3'))
}

/// A token is an emoticon when any of the four sub-grammars claims the whole
/// of it.
pub open spec fn is_emoticon_text(s: Seq<char>) -> bool {
    ltr_face(s) || rtl_face(s) || eastern_emoticon(s) || rest_emoticon(s)
}

// ---------------------------------------------------------------------------
// Executable matchers
// ---------------------------------------------------------------------------

#[verifier::loop_isolation(false)]
fn all_bracket_range(v: &Vec<char>, from: usize, to: usize) -> (r: bool)
    requires
        from <= to <= v.len(),
    ensures
        r == (forall|k: int| from <= k < to ==> bracket_char(v@[k])),
{
    let mut j = from;
    loop
        invariant
            from <= j <= to,
            forall|k: int| from <= k < j ==> bracket_char(v@[k]),
        decreases to - j,
    {
        if j == to {
            return true;
        }
        let c = v[j];
        if !(c == '(' || c == ')' || c == '{' || c == '}' || c == '[' || c == ']' || c == '<'
            || c == '>' || c == '|' || c == '/' || c == '\\') {
            return false;
        }
        j += 1;
    }
}

fn is_ascii_letter(c: char) -> (r: bool)
    ensures
        r == ascii_letter(c),
{
    ('a' <= c && c <= 'z') || ('A' <= c && c <= 'Z')
}

fn is_tears_char(c: char) -> (r: bool)
    ensures
        r == tears_char(c),
{
    c == '\'' || c == '"' || c == ','
}

fn ltr_eyes_check(pc: Option<char>, c: char, nc: char) -> (r: bool)
    ensures
        r == ltr_eyes(pc, c, nc),
{
    let pl = match pc {
        Some(p) => is_ascii_letter(p) || p == '(',
        None => false,
    };
    let pcolon = match pc {
        Some(p) => p == ':',
        None => false,
    };
    let phash = match pc {
        Some(p) => p == '%' || p == '#' || is_decimal_digit_char(p),
        None => false,
    };
    let pdollar = match pc {
        Some(p) => is_decimal_digit_char(p) || p == '$',
        None => false,
    };
    let peight = match pc {
        Some(p) => is_decimal_digit_char(p) || p == '(' || p == '-' || p == '+',
        None => false,
    };
    ((c == 'x' || c == 'X' || c == 'B') && !pl
        && !(('a' <= nc && nc <= 'c') || ('e' <= nc && nc <= 'o') || ('q' <= nc && nc <= 'z')
            || ('A' <= nc && nc <= 'C') || ('E' <= nc && nc <= 'O') || ('Q' <= nc && nc <= 'Z')
            || nc == ',' || nc == '.' || nc == '/'))
    || ((c == ':' || c == '=' || c == '|') && !pcolon && nc != '.')
    || ((c == '%' || c == '#') && !phash && !(nc == '%' || nc == '#' || is_decimal_digit_char(nc)))
    || (c == '$' && !pdollar && !(is_decimal_digit_char(nc) || nc == '.' || nc == ',' || nc == '$'))
    || (c == ';' && nc != '(')
    || (c == '8' && !peight
        && !(is_decimal_digit_char(nc) || ('a' <= nc && nc <= 'c') || ('e' <= nc && nc <= 'z')
            || ('A' <= nc && nc <= 'C') || ('E' <= nc && nc <= 'Z') || nc == '\\' || nc == '/'))
    || (c == '*' && !(nc == '*' || is_decimal_digit_char(nc) || nc == ',' || nc == '.'))
}

fn ltr_nose_check(pc: char, c: char, nc: char) -> (r: bool)
    ensures
        r == ltr_nose(pc, c, nc),
{
    ((c == 'o' || c == 'c') && !(is_word_char(pc) || pc == '*') && !is_ascii_letter(nc))
        || c == '-' || c == '\u{2011}' || c == '^'
}

fn ltr_mouth_single_check(pc: char, c: char) -> (r: bool)
    ensures
        r == ltr_mouth_single(pc, c),
{
    (c == '\u{00de}' || c == '\u{00d7}' || c == '\u{00fe}')
        || ((c == '3' || c == '0') && !is_decimal_digit_char(pc))
        || ((c == '*' || c == ',' || c == '.' || c == '@' || c == '#' || c == '&')
            && !(is_decimal_digit_char(pc) || pc == '*'))
        || (c == '$' && !(is_decimal_digit_char(pc) || pc == '$'))
        || (c == 'D' || c == 'O' || c == 'o' || c == 's' || c == 'S' || c == 'J' || c == 'L'
            || c == 'x' || c == 'X' || c == 'p' || c == 'P' || c == 'b' || c == 'c')
}

fn ltr_combo_check(v: &Vec<char>, h: bool, t: bool, n: bool) -> (r: bool)
    ensures
        r == ltr_combo(v@, h, t, n),
{
    let hi: usize = if h { 1 } else { 0 };
    let ti: usize = if t { 1 } else { 0 };
    let ni: usize = if n { 1 } else { 0 };
    let m0 = hi + 1 + ti + ni;
    if v.len() < m0 + 1 {
        return false;
    }
    if h && !({
        let c = v[0];
        c == 'D' || c == 'P' || c == 'O' || c == '0' || c == '3' || c == '|' || c == '}'
            || c == '>' || c == '<' || c == '='
    }) {
        return false;
    }
    let pc = if h { Some(v[0]) } else { None };
    if !ltr_eyes_check(pc, v[hi], v[hi + 1]) {
        return false;
    }
    if t && !is_tears_char(v[hi + 1]) {
        return false;
    }
    if n && !ltr_nose_check(v[m0 - 2], v[m0 - 1], v[m0]) {
        return false;
    }
    all_bracket_range(v, m0, v.len())
        || (v.len() - m0 == 1 && ltr_mouth_single_check(v[m0 - 1], v[m0]))
}

fn ltr_face_check(v: &Vec<char>) -> (r: bool)
    ensures
        r == ltr_face(v@),
{
    ltr_combo_check(v, false, false, false) || ltr_combo_check(v, false, false, true)
        || ltr_combo_check(v, false, true, false) || ltr_combo_check(v, false, true, true)
        || ltr_combo_check(v, true, false, false) || ltr_combo_check(v, true, false, true)
        || ltr_combo_check(v, true, true, false) || ltr_combo_check(v, true, true, true)
}

fn rtl_eyes_check(c: char, nc: Option<char>) -> (r: bool)
    ensures
        r == rtl_eyes(c, nc),
{
    let nblock = match nc {
        Some(p) => is_decimal_digit_char(p) || p == '.',
        None => false,
    };
    (c == 'x' || c == 'X') || (c == ':' || c == '=' || c == '|') || (c == '%' || c == '#')
        || ((c == '$' || c == '8') && !nblock) || c == ';' || c == '*'
}

fn rtl_mouth_single_check(c: char, nc: char) -> (r: bool)
    ensures
        r == rtl_mouth_single(c, nc),
{
    (c == '0' && !(is_decimal_digit_char(nc) || nc == '.')) || c == '$'
        || (c == 'D' || c == 'O' || c == 'o' || c == 's' || c == 'S' || c == 'x' || c == 'X')
}

fn rtl_combo_check(v: &Vec<char>, h: bool, t: bool, n: bool) -> (r: bool)
    ensures
        r == rtl_combo(v@, h, t, n),
{
    let hi: usize = if h { 1 } else { 0 };
    let ti: usize = if t { 1 } else { 0 };
    let ni: usize = if n { 1 } else { 0 };
    if v.len() < hi + ti + ni + 2 {
        return false;
    }
    let m_end = v.len() - hi - ti - ni - 1;
    if h && !({
        let c = v[v.len() - 1];
        c == 'O' || c == '0' || c == '|' || c == '{' || c == '>' || c == '<' || c == '='
    }) {
        return false;
    }
    let nc = if h { Some(v[v.len() - 1]) } else { None };
    if !rtl_eyes_check(v[m_end + ni + ti], nc) {
        return false;
    }
    if t && !is_tears_char(v[m_end + ni]) {
        return false;
    }
    if n && !({
        let c = v[m_end];
        c == '-' || c == '\u{2011}' || c == '^'
    }) {
        return false;
    }
    all_bracket_range(v, 0, m_end) || (m_end == 1 && rtl_mouth_single_check(v[0], v[1]))
}

fn rtl_face_check(v: &Vec<char>) -> (r: bool)
    ensures
        r == rtl_face(v@),
{
    rtl_combo_check(v, false, false, false) || rtl_combo_check(v, false, false, true)
        || rtl_combo_check(v, false, true, false) || rtl_combo_check(v, false, true, true)
        || rtl_combo_check(v, true, false, false) || rtl_combo_check(v, true, false, true)
        || rtl_combo_check(v, true, true, false) || rtl_combo_check(v, true, true, true)
}

fn eastern_caret_at_check(v: &Vec<char>, a: usize, b: usize) -> (r: bool)
    requires
        a <= 1,
        b <= 1,
    ensures
        r == eastern_caret_at(v@, a as int, b as int),
{
    if v.len() != a + 3 + b {
        return false;
    }
    if a == 1 && !(v[0] == '<' || v[0] == '>') {
        return false;
    }
    if !(v[a] == '^' || v[a] == ';') {
        return false;
    }
    if !(v[a + 1] == '_' || v[a + 1] == 'm' || !is_word_char(v[a + 1])) {
        return false;
    }
    if !(v[a + 2] == ';' || v[a + 2] == '^') {
        return false;
    }
    if b == 1 && !(v[v.len() - 1] == ';' || v[v.len() - 1] == '<' || v[v.len() - 1] == '>') {
        return false;
    }
    true
}

#[verifier::loop_isolation(false)]
fn all_wotoj_range(v: &Vec<char>, from: usize, to: usize) -> (r: bool)
    requires
        from <= to <= v.len(),
    ensures
        r == (forall|k: int| from <= k < to ==> wotoj(v@[k])),
{
    let mut j = from;
    loop
        invariant
            from <= j <= to,
            forall|k: int| from <= k < j ==> wotoj(v@[k]),
        decreases to - j,
    {
        if j == to {
            return true;
        }
        let c = v[j];
        if !(c == '_' || c == 'o' || c == 'T' || c == 'O' || c == 'J' || !is_word_char(c)) {
            return false;
        }
        j += 1;
    }
}

fn eastern_paren_at_check(v: &Vec<char>, p: usize, q: usize) -> (r: bool)
    ensures
        r == eastern_paren_at(v@, p as int, q as int),
{
    let n = v.len();
    if !(q < n && q >= 2 && p <= q - 2) {
        return false;
    }
    if !(v[p] == '(' && v[q] == ')') {
        return false;
    }
    if !(p == 0 || (p == 1 && !is_space_char(v[0]) && v[0] != '(' && v[0] != ')') || (p == 2
        && v[1] == 'm' && !is_space_char(v[0]) && v[0] != '(' && v[0] != ')')) {
        return false;
    }
    if !(q == n - 1 || (q == n - 2 && !is_space_char(v[n - 1]) && v[n - 1] != '(' && v[n - 1]
        != ')') || (q == n - 3 && v[q + 1] == 'm' && !is_space_char(v[n - 1]) && v[n - 1] != '('
        && v[n - 1] != ')')) {
        return false;
    }
    if !all_wotoj_range(v, p + 1, q) {
        return false;
    }
    let inner = q - p - 1;
    (2 <= inner && inner <= 6) || (inner == 7 && is_space_char(v[p + 4]))
}

#[verifier::loop_isolation(false)]
fn eastern_paren_check(v: &Vec<char>) -> (r: bool)
    ensures
        r == eastern_paren(v@),
{
    let n = v.len();
    let mut found = false;
    let mut pp: usize = 0;
    loop
        invariant
            pp <= 3,
            found ==> eastern_paren(v@),
            !found ==> forall|p: int, q: int| 0 <= p < pp ==> !eastern_paren_at(v@, p, q),
        decreases 3 - pp,
    {
        if pp == 3 {
            break;
        }
        if n >= 1 && eastern_paren_at_check(v, pp, n - 1) {
            proof {
                assert(eastern_paren_at(v@, pp as int, n - 1));
            }
            found = true;
        }
        if n >= 2 && eastern_paren_at_check(v, pp, n - 2) {
            proof {
                assert(eastern_paren_at(v@, pp as int, n - 2));
            }
            found = true;
        }
        if n >= 3 && eastern_paren_at_check(v, pp, n - 3) {
            proof {
                assert(eastern_paren_at(v@, pp as int, n - 3));
            }
            found = true;
        }
        proof {
            if !found {
                assert forall|q: int| !eastern_paren_at(v@, pp as int, q) by {
                    if eastern_paren_at(v@, pp as int, q) {
                        assert(q == n - 1 || q == n - 2 || q == n - 3);
                    }
                }
            }
        }
        pp += 1;
    }
    proof {
        if !found {
            assert forall|p: int, q: int| !eastern_paren_at(v@, p, q) by {
                if eastern_paren_at(v@, p, q) {
                    assert(p == 0 || p == 1 || p == 2);
                }
            }
        }
    }
    found
}

fn eastern_slant_at_check(v: &Vec<char>, a: usize, b: usize) -> (r: bool)
    requires
        a <= 1,
        b <= 1,
    ensures
        r == eastern_slant_at(v@, a as int, b as int),
{
    if v.len() != a + 3 + b {
        return false;
    }
    if a == 1 && v[0] != '*' {
        return false;
    }
    if !(v[a] == 'v' || v[a] == '>' || v[a] == '-' || v[a] == '/' || v[a] == '\\') {
        return false;
    }
    if !(v[a + 1] == 'o' || v[a + 1] == '0' || v[a + 1] == 'O' || v[a + 1] == '_'
        || v[a + 1] == '.') {
        return false;
    }
    if !(v[a + 2] == 'v' || v[a + 2] == '-' || v[a + 2] == '<' || v[a + 2] == '/'
        || v[a + 2] == '\\') {
        return false;
    }
    if b == 1 && v[v.len() - 1] != '*' {
        return false;
    }
    true
}

#[verifier::loop_isolation(false)]
fn eastern_wide_check(v: &Vec<char>) -> (r: bool)
    ensures
        r == eastern_wide(v@),
{
    let n = v.len();
    if !(n == 3 || n == 4) {
        return false;
    }
    if !(v[0] == 'o' || v[0] == 'O' || v[0] == '0' || v[0] == '>') {
        return false;
    }
    if !(v[n - 1] == 'o' || v[n - 1] == 'O' || v[n - 1] == '0' || v[n - 1] == '>') {
        return false;
    }
    let mut j: usize = 1;
    loop
        invariant
            1 <= j <= n - 1,
            forall|k: int| 0 < k < j ==> (v@[k] == '-' || v@[k] == '_' || v@[k] == '/'
                || v@[k] == 'o' || v@[k] == 'O' || v@[k] == '.' || v@[k] == '\\'),
        decreases n - j,
    {
        if j == n - 1 {
            return true;
        }
        let c = v[j];
        if !(c == '-' || c == '_' || c == '/' || c == 'o' || c == 'O' || c == '.' || c == '\\') {
            return false;
        }
        j += 1;
    }
}

fn eastern_check(v: &Vec<char>) -> (r: bool)
    ensures
        r == eastern_emoticon(v@),
{
    eastern_caret_at_check(v, 0, 0) || eastern_caret_at_check(v, 0, 1)
        || eastern_caret_at_check(v, 1, 0) || eastern_caret_at_check(v, 1, 1)
        || eastern_paren_check(v) || eastern_slant_at_check(v, 0, 0)
        || eastern_slant_at_check(v, 0, 1) || eastern_slant_at_check(v, 1, 0)
        || eastern_slant_at_check(v, 1, 1) || eastern_wide_check(v)
        || (v.len() == 2 && v[0] == '^' && v[1] == '^')
}

fn rest_check(v: &Vec<char>) -> (r: bool)
    ensures
        r == rest_emoticon(v@),
{
    v.len() == 2 && ((v[0] == '^' && v[1] == '5') || (v[0] == '<' && v[1] == '3'))
}

pub fn emoticon_match(v: &Vec<char>) -> (r: bool)
    ensures
        r == is_emoticon_text(v@),
{
    ltr_face_check(v) || rtl_face_check(v) || eastern_check(v) || rest_check(v)
}

} // verus!
