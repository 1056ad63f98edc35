use vstd::prelude::*;

use crate::errors::ConvertError;
use crate::lyric_xml::{
    Body as PlainBody, Div as PlainDiv, LyricXML, P as PlainP, PView as PlainPView,
};
use crate::synced_lyric_xml::{leaf_view, Body, Div, LeafView, P, Span, SpanView, SynedLyricXML};
use crate::text::{chars_of, push_all, string_of};
use vstd::string::StringExecFns;

verus! {

// ---------------------------------------------------------------------------
// Character classes and entities
// ---------------------------------------------------------------------------

/// Markup whitespace.
pub open spec fn is_ws(c: char) -> bool {
    c == ' ' || c == '\t' || c == '\n' || c == '\r'
}

/// A character that may stand in an element or attribute name.
pub open spec fn is_name_char(c: char) -> bool {
    !is_ws(c) && c != '<' && c != '>' && c != '/' && c != '=' && c != '?' && c != '!' && c != '&'
        && c != '"' && c != '\''
}

/// Decodes one character entity standing at `i` (right after the `&`):
/// the five predefined entities `lt`, `gt`, `amp`, `quot`, `apos` are
/// known, anything else is malformed. Yields the decoded character and the
/// position after the `;`.
pub open spec fn scan_entity(s: Seq<char>, i: int) -> Option<(char, int)> {
    if i + 3 <= s.len() && s[i] == 'l' && s[i + 1] == 't' && s[i + 2] == ';' {
        Some(('<', i + 3))
    } else if i + 3 <= s.len() && s[i] == 'g' && s[i + 1] == 't' && s[i + 2] == ';' {
        Some(('>', i + 3))
    } else if i + 4 <= s.len() && s[i] == 'a' && s[i + 1] == 'm' && s[i + 2] == 'p' && s[i + 3]
        == ';' {
        Some(('&', i + 4))
    } else if i + 5 <= s.len() && s[i] == 'q' && s[i + 1] == 'u' && s[i + 2] == 'o' && s[i + 3]
        == 't' && s[i + 4] == ';' {
        Some(('"', i + 5))
    } else if i + 5 <= s.len() && s[i] == 'a' && s[i + 1] == 'p' && s[i + 2] == 'o' && s[i + 3]
        == 's' && s[i + 4] == ';' {
        Some(('\'', i + 5))
    } else {
        None
    }
}

fn scan_entity_e(t: &Vec<char>, i: usize) -> (r: Option<(char, usize)>)
    requires
        i <= t@.len(),
    ensures
        match r {
            Some(cj) => scan_entity(t@, i as int) == Some((cj.0, cj.1 as int)) && i < cj.1
                <= t@.len(),
            None => scan_entity(t@, i as int) is None,
        },
{
    if t.len() >= 3 && i <= t.len() - 3 && t[i] == 'l' && t[i + 1] == 't' && t[i + 2] == ';' {
        Some(('<', i + 3))
    } else if t.len() >= 3 && i <= t.len() - 3 && t[i] == 'g' && t[i + 1] == 't' && t[i + 2]
        == ';' {
        Some(('>', i + 3))
    } else if t.len() >= 4 && i <= t.len() - 4 && t[i] == 'a' && t[i + 1] == 'm' && t[i + 2]
        == 'p' && t[i + 3] == ';' {
        Some(('&', i + 4))
    } else if t.len() >= 5 && i <= t.len() - 5 && t[i] == 'q' && t[i + 1] == 'u' && t[i + 2]
        == 'o' && t[i + 3] == 't' && t[i + 4] == ';' {
        Some(('"', i + 5))
    } else if t.len() >= 5 && i <= t.len() - 5 && t[i] == 'a' && t[i + 1] == 'p' && t[i + 2]
        == 'o' && t[i + 3] == 's' && t[i + 4] == ';' {
        Some(('\'', i + 5))
    } else {
        None
    }
}

// ---------------------------------------------------------------------------
// Scanning primitives
// ---------------------------------------------------------------------------

/// The first position at or after `i` that holds no markup whitespace.
pub open spec fn skip_ws(s: Seq<char>, i: int) -> int
    decreases s.len() - i,
{
    if 0 <= i < s.len() && is_ws(s[i]) {
        skip_ws(s, i + 1)
    } else {
        i
    }
}

fn skip_ws_e(t: &Vec<char>, i: usize) -> (r: usize)
    requires
        i <= t@.len(),
    ensures
        r as int == skip_ws(t@, i as int),
        i <= r <= t@.len(),
{
    let mut k = i;
    while k < t.len() && (t[k] == ' ' || t[k] == '\t' || t[k] == '\n' || t[k] == '\r')
        invariant
            i <= k <= t@.len(),
            skip_ws(t@, i as int) == skip_ws(t@, k as int),
        decreases t@.len() - k,
    {
        k += 1;
    }
    k
}

/// The end of the name starting at `i`.
pub open spec fn name_end(s: Seq<char>, i: int) -> int
    decreases s.len() - i,
{
    if 0 <= i < s.len() && is_name_char(s[i]) {
        name_end(s, i + 1)
    } else {
        i
    }
}

fn name_end_e(t: &Vec<char>, i: usize) -> (r: usize)
    requires
        i <= t@.len(),
    ensures
        r as int == name_end(t@, i as int),
        i <= r <= t@.len(),
{
    let mut k = i;
    while k < t.len() && !(t[k] == ' ' || t[k] == '\t' || t[k] == '\n' || t[k] == '\r' || t[k]
        == '<' || t[k] == '>' || t[k] == '/' || t[k] == '=' || t[k] == '?' || t[k] == '!' || t[k]
        == '&' || t[k] == '"' || t[k] == '\'')
        invariant
            i <= k <= t@.len(),
            name_end(t@, i as int) == name_end(t@, k as int),
        decreases t@.len() - k,
    {
        k += 1;
    }
    k
}

/// Copies `t[a..b]` into a fresh vector.
fn copy_range(t: &Vec<char>, a: usize, b: usize) -> (r: Vec<char>)
    requires
        a <= b <= t@.len(),
    ensures
        r@ == t@.subrange(a as int, b as int),
{
    let mut out: Vec<char> = Vec::new();
    let mut k = a;
    while k < b
        invariant
            a <= k <= b,
            b <= t@.len(),
            out@ == t@.subrange(a as int, k as int),
        decreases b - k,
    {
        out.push(t[k]);
        k += 1;
        proof {
            assert(t@.subrange(a as int, k - 1).push(t@[k - 1]) =~= t@.subrange(
                a as int,
                k as int,
            ));
        }
    }
    proof {
        assert(out@ =~= t@.subrange(a as int, b as int));
    }
    out
}

/// Scans character data up to the next `<` or the end of input, decoding
/// entities into `acc`; a malformed entity is a parse failure.
pub open spec fn scan_text(s: Seq<char>, i: int, acc: Seq<char>) -> Option<(Seq<char>, int)>
    decreases s.len() - i,
{
    if i < 0 || i >= s.len() || s[i] == '<' {
        Some((acc, i))
    } else if s[i] == '&' {
        match scan_entity(s, i + 1) {
            Option::None => None,
            Option::Some(cj) => {
                if cj.1 <= i || cj.1 > s.len() {
                    None
                } else {
                    scan_text(s, cj.1, acc.push(cj.0))
                }
            },
        }
    } else {
        scan_text(s, i + 1, acc.push(s[i]))
    }
}

fn scan_text_e(t: &Vec<char>, i: usize) -> (r: Result<(Vec<char>, usize), ConvertError>)
    requires
        i < t@.len(),
        t@[i as int] != '<',
    ensures
        match r {
            Ok(vj) => scan_text(t@, i as int, Seq::empty()) == Some((vj.0@, vj.1 as int)) && i
                < vj.1 <= t@.len(),
            Err(e) => scan_text(t@, i as int, Seq::empty()) is None && e is Parse,
        },
{
    let mut out: Vec<char> = Vec::new();
    let n = t.len();
    let mut k = i;
    if k < n && t[k] == '&' {
        match scan_entity_e(t, k + 1) {
            Some(cj) => {
                out.push(cj.0);
                k = cj.1;
            },
            None => {
                return Err(ConvertError::Parse(String::from_str("malformed entity")));
            },
        }
    } else {
        out.push(t[k]);
        k += 1;
    }
    while k < n && t[k] != '<'
        invariant
            n == t@.len(),
            i < k <= t@.len(),
            scan_text(t@, i as int, Seq::empty()) == scan_text(t@, k as int, out@),
        decreases t@.len() - k,
    {
        if t[k] == '&' {
            match scan_entity_e(t, k + 1) {
                Some(cj) => {
                    out.push(cj.0);
                    k = cj.1;
                },
                None => {
                    return Err(ConvertError::Parse(String::from_str("malformed entity")));
                },
            }
        } else {
            out.push(t[k]);
            k += 1;
        }
    }
    Ok((out, k))
}

/// Scans a quoted attribute value up to the closing quote `q`, decoding
/// entities; the end of input inside a value is a parse failure.
pub open spec fn scan_qvalue(s: Seq<char>, i: int, q: char, acc: Seq<char>) -> Option<
    (Seq<char>, int),
>
    decreases s.len() - i,
{
    if i < 0 || i >= s.len() {
        None
    } else if s[i] == q {
        Some((acc, i + 1))
    } else if s[i] == '&' {
        match scan_entity(s, i + 1) {
            Option::None => None,
            Option::Some(cj) => {
                if cj.1 <= i || cj.1 > s.len() {
                    None
                } else {
                    scan_qvalue(s, cj.1, q, acc.push(cj.0))
                }
            },
        }
    } else {
        scan_qvalue(s, i + 1, q, acc.push(s[i]))
    }
}

fn scan_qvalue_e(t: &Vec<char>, i: usize, q: char) -> (r: Result<(Vec<char>, usize), ConvertError>)
    requires
        i <= t@.len(),
    ensures
        match r {
            Ok(vj) => scan_qvalue(t@, i as int, q, Seq::empty()) == Some((vj.0@, vj.1 as int))
                && i < vj.1 <= t@.len(),
            Err(e) => scan_qvalue(t@, i as int, q, Seq::empty()) is None && e is Parse,
        },
{
    let mut out: Vec<char> = Vec::new();
    let mut k = i;
    while k < t.len() && t[k] != q
        invariant
            i <= k <= t@.len(),
            scan_qvalue(t@, i as int, q, Seq::empty()) == scan_qvalue(t@, k as int, q, out@),
        decreases t@.len() - k,
    {
        if t[k] == '&' {
            match scan_entity_e(t, k + 1) {
                Some(cj) => {
                    out.push(cj.0);
                    k = cj.1;
                },
                None => {
                    return Err(ConvertError::Parse(String::from_str("malformed entity")));
                },
            }
        } else {
            out.push(t[k]);
            k += 1;
        }
    }
    if k < t.len() {
        Ok((out, k + 1))
    } else {
        Err(ConvertError::Parse(String::from_str("unterminated attribute value")))
    }
}

/// The position right after the first `>` at or after `i`; processing
/// instructions and declarations are skipped up to it.
pub open spec fn find_gt(s: Seq<char>, i: int) -> Option<int>
    decreases s.len() - i,
{
    if i < 0 || i >= s.len() {
        None
    } else if s[i] == '>' {
        Some(i + 1)
    } else {
        find_gt(s, i + 1)
    }
}

fn find_gt_e(t: &Vec<char>, i: usize) -> (r: Result<usize, ConvertError>)
    requires
        i <= t@.len(),
    ensures
        match r {
            Ok(j) => find_gt(t@, i as int) == Some(j as int) && i < j <= t@.len(),
            Err(e) => find_gt(t@, i as int) is None && e is Parse,
        },
{
    let mut k = i;
    while k < t.len() && t[k] != '>'
        invariant
            i <= k <= t@.len(),
            find_gt(t@, i as int) == find_gt(t@, k as int),
        decreases t@.len() - k,
    {
        k += 1;
    }
    if k < t.len() {
        Ok(k + 1)
    } else {
        Err(ConvertError::Parse(String::from_str("unterminated markup declaration")))
    }
}

// ---------------------------------------------------------------------------
// Attributes
// ---------------------------------------------------------------------------

/// View of one attribute.
pub struct AttrV {
    pub name: Seq<char>,
    pub value: Seq<char>,
}

/// One attribute of a start tag.
pub struct Attr {
    pub name: Vec<char>,
    pub value: Vec<char>,
}

impl DeepView for Attr {
    type V = AttrV;

    open spec fn deep_view(&self) -> AttrV {
        AttrV { name: self.name@, value: self.value@ }
    }
}

/// Scans the attribute list of a start tag up to its `>` or `/>`; yields
/// the attributes, whether the tag is self-closing, and the position after
/// the `>`.
pub open spec fn scan_attrs(s: Seq<char>, i: int, acc: Seq<AttrV>) -> Option<
    (Seq<AttrV>, bool, int),
>
    decreases s.len() - i,
{
    let i1 = skip_ws(s, i);
    if i1 < i {
        None
    } else if i1 >= s.len() {
        None
    } else if s[i1] == '>' {
        Some((acc, false, i1 + 1))
    } else if s[i1] == '/' {
        if i1 + 1 < s.len() && s[i1 + 1] == '>' {
            Some((acc, true, i1 + 2))
        } else {
            None
        }
    } else if !is_name_char(s[i1]) {
        None
    } else {
        let ne = name_end(s, i1);
        let name = s.subrange(i1, ne);
        let j1 = skip_ws(s, ne);
        if j1 < i1 || j1 >= s.len() || s[j1] != '=' {
            None
        } else {
            let j2 = skip_ws(s, j1 + 1);
            if j2 < j1 || j2 >= s.len() || (s[j2] != '"' && s[j2] != '\'') {
                None
            } else {
                match scan_qvalue(s, j2 + 1, s[j2], Seq::empty()) {
                    Option::None => None,
                    Option::Some(vj) => {
                        if vj.1 <= i || vj.1 > s.len() {
                            None
                        } else {
                            scan_attrs(s, vj.1, acc.push(AttrV { name, value: vj.0 }))
                        }
                    },
                }
            }
        }
    }
}

fn scan_attrs_e(t: &Vec<char>, i: usize) -> (r: Result<(Vec<Attr>, bool, usize), ConvertError>)
    requires
        i <= t@.len(),
    ensures
        match r {
            Ok(aj) => scan_attrs(t@, i as int, Seq::empty()) == Some(
                (aj.0.deep_view(), aj.1, aj.2 as int),
            ) && i < aj.2 <= t@.len(),
            Err(e) => scan_attrs(t@, i as int, Seq::empty()) is None && e is Parse,
        },
{
    let mut acc: Vec<Attr> = Vec::new();
    let mut k = i;
    proof {
        assert(acc.deep_view() =~= Seq::<AttrV>::empty());
    }
    loop
        invariant
            i <= k <= t@.len(),
            scan_attrs(t@, i as int, Seq::empty()) == scan_attrs(t@, k as int, acc.deep_view()),
        decreases t@.len() - k,
    {
        let k1 = skip_ws_e(t, k);
        if k1 >= t.len() {
            return Err(ConvertError::Parse(String::from_str("unterminated start tag")));
        }
        let c = t[k1];
        if c == '>' {
            return Ok((acc, false, k1 + 1));
        } else if c == '/' {
            if k1 + 1 < t.len() && t[k1 + 1] == '>' {
                return Ok((acc, true, k1 + 2));
            } else {
                return Err(ConvertError::Parse(String::from_str("malformed start tag")));
            }
        } else if c == ' ' || c == '\t' || c == '\n' || c == '\r' || c == '<' || c == '='
            || c == '?' || c == '!' || c == '&' || c == '"' || c == '\'' {
            return Err(ConvertError::Parse(String::from_str("malformed attribute name")));
        } else {
            let ne = name_end_e(t, k1);
            let name = copy_range(t, k1, ne);
            let j1 = skip_ws_e(t, ne);
            if j1 >= t.len() || t[j1] != '=' {
                return Err(ConvertError::Parse(String::from_str("attribute without value")));
            }
            let j2 = skip_ws_e(t, j1 + 1);
            if j2 >= t.len() || (t[j2] != '"' && t[j2] != '\'') {
                return Err(ConvertError::Parse(String::from_str("unquoted attribute value")));
            }
            match scan_qvalue_e(t, j2 + 1, t[j2]) {
                Ok(vj) => {
                    let ghost accv = acc.deep_view();
                    let ghost a = AttrV { name: name@, value: vj.0@ };
                    acc.push(Attr { name, value: vj.0 });
                    k = vj.1;
                    proof {
                        assert(acc.deep_view() =~= accv.push(a));
                    }
                },
                Err(e) => {
                    return Err(e);
                },
            }
        }
    }
}

// ---------------------------------------------------------------------------
// Tokens
// ---------------------------------------------------------------------------

/// View of one markup token.
pub enum TokV {
    Open { name: Seq<char>, attrs: Seq<AttrV>, self_closing: bool },
    Close { name: Seq<char> },
    Text { text: Seq<char> },
}

/// One markup token: a start tag with its attributes, an end tag, or a
/// run of character data.
pub enum Tok {
    Open { name: Vec<char>, attrs: Vec<Attr>, self_closing: bool },
    Close { name: Vec<char> },
    Text { text: Vec<char> },
}

impl DeepView for Tok {
    type V = TokV;

    open spec fn deep_view(&self) -> TokV {
        match self {
            Tok::Open { name, attrs, self_closing } => TokV::Open {
                name: name@,
                attrs: attrs.deep_view(),
                self_closing: *self_closing,
            },
            Tok::Close { name } => TokV::Close { name: name@ },
            Tok::Text { text } => TokV::Text { text: text@ },
        }
    }
}

/// The next token at or after `i`: processing instructions, comments and
/// declarations are skipped up to their closing `>`; `Some(None)` is the
/// end of input, `None` malformed markup.
pub open spec fn next_tok(s: Seq<char>, i: int) -> Option<Option<(TokV, int)>>
    decreases s.len() - i,
{
    if i < 0 {
        None
    } else if i >= s.len() {
        Some(None)
    } else if s[i] == '<' {
        if i + 1 >= s.len() {
            None
        } else if s[i + 1] == '?' || s[i + 1] == '!' {
            match find_gt(s, i + 2) {
                Option::None => None,
                Option::Some(j) => {
                    if j <= i || j > s.len() {
                        None
                    } else {
                        next_tok(s, j)
                    }
                },
            }
        } else if s[i + 1] == '/' {
            let ne = name_end(s, i + 2);
            if ne == i + 2 {
                None
            } else {
                let j1 = skip_ws(s, ne);
                if j1 < ne || j1 >= s.len() || s[j1] != '>' {
                    None
                } else {
                    Some(Some((TokV::Close { name: s.subrange(i + 2, ne) }, j1 + 1)))
                }
            }
        } else {
            let ne = name_end(s, i + 1);
            if ne == i + 1 {
                None
            } else {
                match scan_attrs(s, ne, Seq::empty()) {
                    Option::None => None,
                    Option::Some(aj) => Some(
                        Some(
                            (
                                TokV::Open {
                                    name: s.subrange(i + 1, ne),
                                    attrs: aj.0,
                                    self_closing: aj.1,
                                },
                                aj.2,
                            ),
                        ),
                    ),
                }
            }
        }
    } else {
        match scan_text(s, i, Seq::empty()) {
            Option::None => None,
            Option::Some(vj) => Some(Some((TokV::Text { text: vj.0 }, vj.1))),
        }
    }
}

/// Reads the next token; relies on nothing outside this crate.
fn next_tok_e(t: &Vec<char>, i: usize) -> (r: Result<Option<(Tok, usize)>, ConvertError>)
    requires
        i <= t@.len(),
    ensures
        match r {
            Ok(Some(tj)) => next_tok(t@, i as int) == Some(
                Some((tj.0.deep_view(), tj.1 as int)),
            ) && i < tj.1 <= t@.len(),
            Ok(None) => next_tok(t@, i as int) == Some(None::<(TokV, int)>),
            Err(e) => next_tok(t@, i as int) is None && e is Parse,
        },
{
    let mut k = i;
    loop
        invariant
            i <= k <= t@.len(),
            next_tok(t@, i as int) == next_tok(t@, k as int),
        decreases t@.len() - k,
    {
        if k >= t.len() {
            return Ok(None);
        }
        if t[k] == '<' {
            if k + 1 >= t.len() {
                return Err(ConvertError::Parse(String::from_str("lone <")));
            }
            let c1 = t[k + 1];
            if c1 == '?' || c1 == '!' {
                match find_gt_e(t, k + 2) {
                    Ok(j) => {
                        k = j;
                    },
                    Err(e) => {
                        return Err(e);
                    },
                }
            } else if c1 == '/' {
                let ne = name_end_e(t, k + 2);
                if ne == k + 2 {
                    return Err(ConvertError::Parse(String::from_str("empty end tag name")));
                }
                let j1 = skip_ws_e(t, ne);
                if j1 >= t.len() || t[j1] != '>' {
                    return Err(ConvertError::Parse(String::from_str("malformed end tag")));
                }
                let name = copy_range(t, k + 2, ne);
                return Ok(Some((Tok::Close { name }, j1 + 1)));
            } else {
                let ne = name_end_e(t, k + 1);
                if ne == k + 1 {
                    return Err(ConvertError::Parse(String::from_str("empty start tag name")));
                }
                let name = copy_range(t, k + 1, ne);
                match scan_attrs_e(t, ne) {
                    Ok(aj) => {
                        return Ok(
                            Some((Tok::Open { name, attrs: aj.0, self_closing: aj.1 }, aj.2)),
                        );
                    },
                    Err(e) => {
                        return Err(e);
                    },
                }
            }
        } else {
            match scan_text_e(t, k) {
                Ok(vj) => {
                    return Ok(Some((Tok::Text { text: vj.0 }, vj.1)));
                },
                Err(e) => {
                    return Err(e);
                },
            }
        }
    }
}

// ---------------------------------------------------------------------------
// Element and attribute names of the timed-text dialect
// ---------------------------------------------------------------------------

pub open spec fn is_span_name(n: Seq<char>) -> bool {
    n.len() == 4 && n[0] == 's' && n[1] == 'p' && n[2] == 'a' && n[3] == 'n'
}

pub open spec fn is_p_name(n: Seq<char>) -> bool {
    n.len() == 1 && n[0] == 'p'
}

pub open spec fn is_div_name(n: Seq<char>) -> bool {
    n.len() == 3 && n[0] == 'd' && n[1] == 'i' && n[2] == 'v'
}

pub open spec fn is_body_name(n: Seq<char>) -> bool {
    n.len() == 4 && n[0] == 'b' && n[1] == 'o' && n[2] == 'd' && n[3] == 'y'
}

pub open spec fn is_tt_name(n: Seq<char>) -> bool {
    n.len() == 2 && n[0] == 't' && n[1] == 't'
}

pub open spec fn is_begin_name(n: Seq<char>) -> bool {
    n.len() == 5 && n[0] == 'b' && n[1] == 'e' && n[2] == 'g' && n[3] == 'i' && n[4] == 'n'
}

pub open spec fn is_end_name(n: Seq<char>) -> bool {
    n.len() == 3 && n[0] == 'e' && n[1] == 'n' && n[2] == 'd'
}

fn is_span_name_e(v: &Vec<char>) -> (r: bool)
    ensures
        r == is_span_name(v@),
{
    v.len() == 4 && v[0] == 's' && v[1] == 'p' && v[2] == 'a' && v[3] == 'n'
}

fn is_p_name_e(v: &Vec<char>) -> (r: bool)
    ensures
        r == is_p_name(v@),
{
    v.len() == 1 && v[0] == 'p'
}

fn is_div_name_e(v: &Vec<char>) -> (r: bool)
    ensures
        r == is_div_name(v@),
{
    v.len() == 3 && v[0] == 'd' && v[1] == 'i' && v[2] == 'v'
}

fn is_body_name_e(v: &Vec<char>) -> (r: bool)
    ensures
        r == is_body_name(v@),
{
    v.len() == 4 && v[0] == 'b' && v[1] == 'o' && v[2] == 'd' && v[3] == 'y'
}

fn is_tt_name_e(v: &Vec<char>) -> (r: bool)
    ensures
        r == is_tt_name(v@),
{
    v.len() == 2 && v[0] == 't' && v[1] == 't'
}

/// The value of the first `begin` attribute, if any.
pub open spec fn attr_begin(attrs: Seq<AttrV>) -> Option<Seq<char>>
    decreases attrs.len(),
{
    if attrs.len() == 0 {
        None
    } else if is_begin_name(attrs[0].name) {
        Some(attrs[0].value)
    } else {
        attr_begin(attrs.drop_first())
    }
}

/// The value of the first `end` attribute, if any.
pub open spec fn attr_end(attrs: Seq<AttrV>) -> Option<Seq<char>>
    decreases attrs.len(),
{
    if attrs.len() == 0 {
        None
    } else if is_end_name(attrs[0].name) {
        Some(attrs[0].value)
    } else {
        attr_end(attrs.drop_first())
    }
}

fn attr_begin_e(attrs: &Vec<Attr>) -> (r: Option<String>)
    ensures
        r.deep_view() == attr_begin(attrs.deep_view()),
{
    let mut k: usize = 0;
    proof {
        assert(attrs.deep_view().skip(0) =~= attrs.deep_view());
    }
    while k < attrs.len()
        invariant
            k <= attrs@.len(),
            attr_begin(attrs.deep_view()) == attr_begin(attrs.deep_view().skip(k as int)),
        decreases attrs@.len() - k,
    {
        proof {
            assert(attrs.deep_view().skip(k as int).drop_first() =~= attrs.deep_view().skip(
                k + 1,
            ));
            assert(attrs.deep_view().skip(k as int)[0] == attrs@[k as int].deep_view());
        }
        let a = &attrs[k];
        if a.name.len() == 5 && a.name[0] == 'b' && a.name[1] == 'e' && a.name[2] == 'g'
            && a.name[3] == 'i' && a.name[4] == 'n' {
            return Some(crate::text::string_of(&a.value));
        }
        k += 1;
    }
    proof {
        assert(attrs.deep_view().skip(attrs@.len() as int) =~= Seq::<AttrV>::empty());
    }
    None
}

fn attr_end_e(attrs: &Vec<Attr>) -> (r: Option<String>)
    ensures
        r.deep_view() == attr_end(attrs.deep_view()),
{
    let mut k: usize = 0;
    proof {
        assert(attrs.deep_view().skip(0) =~= attrs.deep_view());
    }
    while k < attrs.len()
        invariant
            k <= attrs@.len(),
            attr_end(attrs.deep_view()) == attr_end(attrs.deep_view().skip(k as int)),
        decreases attrs@.len() - k,
    {
        proof {
            assert(attrs.deep_view().skip(k as int).drop_first() =~= attrs.deep_view().skip(
                k + 1,
            ));
            assert(attrs.deep_view().skip(k as int)[0] == attrs@[k as int].deep_view());
        }
        let a = &attrs[k];
        if a.name.len() == 3 && a.name[0] == 'e' && a.name[1] == 'n' && a.name[2] == 'd' {
            return Some(crate::text::string_of(&a.value));
        }
        k += 1;
    }
    proof {
        assert(attrs.deep_view().skip(attrs@.len() as int) =~= Seq::<AttrV>::empty());
    }
    None
}

// ---------------------------------------------------------------------------
// Shape of the timed-text documents
// ---------------------------------------------------------------------------

/// Consumes the rest of an already-opened foreign element, nested elements
/// included; `depth` counts the elements still open below it. End tag
/// names are not checked against start tags. Yields the position after the
/// matching end tag.
pub open spec fn skip_subtree(s: Seq<char>, i: int, depth: int) -> Option<int>
    decreases s.len() - i,
{
    match next_tok(s, i) {
        Option::None => None,
        Option::Some(ot) => match ot {
            Option::None => None,
            Option::Some(tj) => {
                if tj.1 <= i || tj.1 > s.len() {
                    None
                } else {
                    match tj.0 {
                        TokV::Open { self_closing, .. } => {
                            if self_closing {
                                skip_subtree(s, tj.1, depth)
                            } else {
                                skip_subtree(s, tj.1, depth + 1)
                            }
                        },
                        TokV::Close { .. } => {
                            if depth == 0 {
                                Some(tj.1)
                            } else {
                                skip_subtree(s, tj.1, depth - 1)
                            }
                        },
                        TokV::Text { .. } => skip_subtree(s, tj.1, depth),
                    }
                }
            },
        },
    }
}

fn skip_subtree_e(t: &Vec<char>, i: usize) -> (r: Result<usize, ConvertError>)
    requires
        i <= t@.len(),
    ensures
        match r {
            Ok(j) => skip_subtree(t@, i as int, 0) == Some(j as int) && i < j <= t@.len(),
            Err(e) => skip_subtree(t@, i as int, 0) is None && e is Parse,
        },
{
    let mut k = i;
    let mut depth: usize = 0;
    loop
        invariant
            i <= k <= t@.len(),
            depth <= k,
            skip_subtree(t@, i as int, 0) == skip_subtree(t@, k as int, depth as int),
            (k == i && depth == 0) || i < k,
        decreases t@.len() - k,
    {
        match next_tok_e(t, k) {
            Ok(Some(tj)) => {
                match tj.0 {
                    Tok::Open { self_closing, .. } => {
                        if !self_closing {
                            depth += 1;
                        }
                        k = tj.1;
                    },
                    Tok::Close { .. } => {
                        if depth == 0 {
                            return Ok(tj.1);
                        }
                        depth -= 1;
                        k = tj.1;
                    },
                    Tok::Text { .. } => {
                        k = tj.1;
                    },
                }
            },
            Ok(None) => {
                return Err(ConvertError::Parse(String::from_str("unterminated element")));
            },
            Err(e) => {
                return Err(e);
            },
        }
    }
}

/// The content of a span standing under a group: character data only; any
/// further nested element is malformed for this dialect. Yields the text
/// and the position after the end tag.
pub open spec fn leaf_content(s: Seq<char>, i: int, acc: Seq<char>) -> Option<(Seq<char>, int)>
    decreases s.len() - i,
{
    match next_tok(s, i) {
        Option::None => None,
        Option::Some(ot) => match ot {
            Option::None => None,
            Option::Some(tj) => {
                if tj.1 <= i || tj.1 > s.len() {
                    None
                } else {
                    match tj.0 {
                        TokV::Open { .. } => None,
                        TokV::Close { .. } => Some((acc, tj.1)),
                        TokV::Text { text } => leaf_content(s, tj.1, acc + text),
                    }
                }
            },
        },
    }
}

fn leaf_content_e(t: &Vec<char>, i: usize) -> (r: Result<(Vec<char>, usize), ConvertError>)
    requires
        i <= t@.len(),
    ensures
        match r {
            Ok(vj) => leaf_content(t@, i as int, Seq::empty()) == Some((vj.0@, vj.1 as int))
                && i < vj.1 <= t@.len(),
            Err(e) => leaf_content(t@, i as int, Seq::empty()) is None && e is Parse,
        },
{
    let mut out: Vec<char> = Vec::new();
    let mut k = i;
    loop
        invariant
            i <= k <= t@.len(),
            leaf_content(t@, i as int, Seq::empty()) == leaf_content(t@, k as int, out@),
        decreases t@.len() - k,
    {
        match next_tok_e(t, k) {
            Ok(Some(tj)) => {
                match tj.0 {
                    Tok::Open { .. } => {
                        return Err(
                            ConvertError::Parse(String::from_str("span nested below a group")),
                        );
                    },
                    Tok::Close { .. } => {
                        return Ok((out, tj.1));
                    },
                    Tok::Text { text } => {
                        crate::text::push_all(&mut out, &text);
                        k = tj.1;
                    },
                }
            },
            Ok(None) => {
                return Err(ConvertError::Parse(String::from_str("unterminated span")));
            },
            Err(e) => {
                return Err(e);
            },
        }
    }
}

/// The span built from its attributes, children and direct text: a group
/// when children are present (its direct text discarded), otherwise a
/// leaf whose text is absent when empty.
pub open spec fn span_of_content(
    attrs: Seq<AttrV>,
    kids: Seq<crate::synced_lyric_xml::LeafView>,
    text: Seq<char>,
) -> crate::synced_lyric_xml::SpanView {
    crate::synced_lyric_xml::SpanView {
        begin: attr_begin(attrs),
        end: attr_end(attrs),
        word: if kids.len() == 0 && text.len() > 0 {
            Some(text)
        } else {
            None
        },
        children: if kids.len() > 0 {
            Some(kids)
        } else {
            None
        },
    }
}

/// The content of a span standing directly under a line: direct character
/// data and child spans; foreign elements are skipped. Yields the
/// children, the text and the position after the end tag.
pub open spec fn span_content(
    s: Seq<char>,
    i: int,
    kids: Seq<crate::synced_lyric_xml::LeafView>,
    text: Seq<char>,
) -> Option<(Seq<crate::synced_lyric_xml::LeafView>, Seq<char>, int)>
    decreases s.len() - i,
{
    match next_tok(s, i) {
        Option::None => None,
        Option::Some(ot) => match ot {
            Option::None => None,
            Option::Some(tj) => {
                if tj.1 <= i || tj.1 > s.len() {
                    None
                } else {
                    match tj.0 {
                        TokV::Text { text: tx } => span_content(s, tj.1, kids, text + tx),
                        TokV::Close { .. } => Some((kids, text, tj.1)),
                        TokV::Open { name, attrs, self_closing } => {
                            if is_span_name(name) {
                                if self_closing {
                                    span_content(
                                        s,
                                        tj.1,
                                        kids.push(
                                            crate::synced_lyric_xml::LeafView {
                                                begin: attr_begin(attrs),
                                                end: attr_end(attrs),
                                                word: None,
                                                nested: false,
                                            },
                                        ),
                                        text,
                                    )
                                } else {
                                    match leaf_content(s, tj.1, Seq::empty()) {
                                        Option::None => None,
                                        Option::Some(cj) => {
                                            if cj.1 <= tj.1 || cj.1 > s.len() {
                                                None
                                            } else {
                                                span_content(
                                                    s,
                                                    cj.1,
                                                    kids.push(
                                                        crate::synced_lyric_xml::LeafView {
                                                            begin: attr_begin(attrs),
                                                            end: attr_end(attrs),
                                                            word: if cj.0.len() > 0 {
                                                                Some(cj.0)
                                                            } else {
                                                                None
                                                            },
                                                            nested: false,
                                                        },
                                                    ),
                                                    text,
                                                )
                                            }
                                        },
                                    }
                                }
                            } else {
                                if self_closing {
                                    span_content(s, tj.1, kids, text)
                                } else {
                                    match skip_subtree(s, tj.1, 0) {
                                        Option::None => None,
                                        Option::Some(j2) => {
                                            if j2 <= tj.1 || j2 > s.len() {
                                                None
                                            } else {
                                                span_content(s, j2, kids, text)
                                            }
                                        },
                                    }
                                }
                            }
                        },
                    }
                }
            },
        },
    }
}

fn span_content_e(t: &Vec<char>, i: usize) -> (r: Result<
    (Vec<crate::synced_lyric_xml::Span>, Vec<char>, usize),
    ConvertError,
>)
    requires
        i <= t@.len(),
    ensures
        match r {
            Ok(kj) => span_content(t@, i as int, Seq::empty(), Seq::empty()) == Some(
                (
                    kj.0@.map_values(|c: crate::synced_lyric_xml::Span| crate::synced_lyric_xml::leaf_view(c)),
                    kj.1@,
                    kj.2 as int,
                ),
            ) && i < kj.2 <= t@.len(),
            Err(e) => span_content(t@, i as int, Seq::empty(), Seq::empty()) is None && e
                is Parse,
        },
{
    let mut kids: Vec<crate::synced_lyric_xml::Span> = Vec::new();
    let mut text: Vec<char> = Vec::new();
    let mut k = i;
    proof {
        assert(kids@.map_values(
            |c: crate::synced_lyric_xml::Span| crate::synced_lyric_xml::leaf_view(c),
        ) =~= Seq::<crate::synced_lyric_xml::LeafView>::empty());
    }
    loop
        invariant
            i <= k <= t@.len(),
            span_content(t@, i as int, Seq::empty(), Seq::empty()) == span_content(
                t@,
                k as int,
                kids@.map_values(
                    |c: crate::synced_lyric_xml::Span| crate::synced_lyric_xml::leaf_view(c),
                ),
                text@,
            ),
        decreases t@.len() - k,
    {
        match next_tok_e(t, k) {
            Ok(Some(tj)) => {
                match tj.0 {
                    Tok::Text { text: tx } => {
                        crate::text::push_all(&mut text, &tx);
                        k = tj.1;
                    },
                    Tok::Close { .. } => {
                        return Ok((kids, text, tj.1));
                    },
                    Tok::Open { name, attrs, self_closing } => {
                        if is_span_name_e(&name) {
                            let ghost kidsv = kids@.map_values(
                                |c: crate::synced_lyric_xml::Span| crate::synced_lyric_xml::leaf_view(
                                    c,
                                ),
                            );
                            if self_closing {
                                let child = crate::synced_lyric_xml::Span {
                                    begin: attr_begin_e(&attrs),
                                    end: attr_end_e(&attrs),
                                    word: None,
                                    span: None,
                                };
                                let ghost childv = crate::synced_lyric_xml::leaf_view(child);
                                kids.push(child);
                                k = tj.1;
                                proof {
                                    assert(kids@.map_values(
                                        |c: crate::synced_lyric_xml::Span| crate::synced_lyric_xml::leaf_view(
                                            c,
                                        ),
                                    ) =~= kidsv.push(childv));
                                }
                            } else {
                                match leaf_content_e(t, tj.1) {
                                    Ok(cj) => {
                                        let word = if cj.0.len() > 0 {
                                            Some(crate::text::string_of(&cj.0))
                                        } else {
                                            None
                                        };
                                        let child = crate::synced_lyric_xml::Span {
                                            begin: attr_begin_e(&attrs),
                                            end: attr_end_e(&attrs),
                                            word,
                                            span: None,
                                        };
                                        let ghost childv = crate::synced_lyric_xml::leaf_view(
                                            child,
                                        );
                                        kids.push(child);
                                        k = cj.1;
                                        proof {
                                            assert(kids@.map_values(
                                                |c: crate::synced_lyric_xml::Span| crate::synced_lyric_xml::leaf_view(
                                                    c,
                                                ),
                                            ) =~= kidsv.push(childv));
                                        }
                                    },
                                    Err(e) => {
                                        return Err(e);
                                    },
                                }
                            }
                        } else {
                            if self_closing {
                                k = tj.1;
                            } else {
                                match skip_subtree_e(t, tj.1) {
                                    Ok(j2) => {
                                        k = j2;
                                    },
                                    Err(e) => {
                                        return Err(e);
                                    },
                                }
                            }
                        }
                    },
                }
            },
            Ok(None) => {
                return Err(ConvertError::Parse(String::from_str("unterminated span")));
            },
            Err(e) => {
                return Err(e);
            },
        }
    }
}

/// The spans of one synced line, up to the line's end tag; character data
/// between spans is ignored, foreign elements are skipped.
pub open spec fn p_spans(s: Seq<char>, i: int, acc: Seq<SpanView>) -> Option<(Seq<SpanView>, int)>
    decreases s.len() - i,
{
    match next_tok(s, i) {
        Option::None => None,
        Option::Some(ot) => match ot {
            Option::None => None,
            Option::Some(tj) => {
                if tj.1 <= i || tj.1 > s.len() {
                    None
                } else {
                    match tj.0 {
                        TokV::Text { .. } => p_spans(s, tj.1, acc),
                        TokV::Close { .. } => Some((acc, tj.1)),
                        TokV::Open { name, attrs, self_closing } => {
                            if is_span_name(name) {
                                if self_closing {
                                    p_spans(
                                        s,
                                        tj.1,
                                        acc.push(
                                            span_of_content(attrs, Seq::empty(), Seq::empty()),
                                        ),
                                    )
                                } else {
                                    match span_content(s, tj.1, Seq::empty(), Seq::empty()) {
                                        Option::None => None,
                                        Option::Some(kj) => {
                                            if kj.2 <= tj.1 || kj.2 > s.len() {
                                                None
                                            } else {
                                                p_spans(
                                                    s,
                                                    kj.2,
                                                    acc.push(span_of_content(attrs, kj.0, kj.1)),
                                                )
                                            }
                                        },
                                    }
                                }
                            } else {
                                if self_closing {
                                    p_spans(s, tj.1, acc)
                                } else {
                                    match skip_subtree(s, tj.1, 0) {
                                        Option::None => None,
                                        Option::Some(j2) => {
                                            if j2 <= tj.1 || j2 > s.len() {
                                                None
                                            } else {
                                                p_spans(s, j2, acc)
                                            }
                                        },
                                    }
                                }
                            }
                        },
                    }
                }
            },
        },
    }
}

fn p_spans_e(t: &Vec<char>, i: usize) -> (r: Result<(Vec<Span>, usize), ConvertError>)
    requires
        i <= t@.len(),
    ensures
        match r {
            Ok(pj) => p_spans(t@, i as int, Seq::empty()) == Some((pj.0.deep_view(), pj.1 as int))
                && i < pj.1 <= t@.len(),
            Err(e) => p_spans(t@, i as int, Seq::empty()) is None && e is Parse,
        },
{
    let mut spans: Vec<Span> = Vec::new();
    let mut k = i;
    proof {
        assert(spans.deep_view() =~= Seq::<SpanView>::empty());
    }
    loop
        invariant
            i <= k <= t@.len(),
            p_spans(t@, i as int, Seq::empty()) == p_spans(t@, k as int, spans.deep_view()),
        decreases t@.len() - k,
    {
        match next_tok_e(t, k) {
            Ok(Some(tj)) => {
                match tj.0 {
                    Tok::Text { .. } => {
                        k = tj.1;
                    },
                    Tok::Close { .. } => {
                        return Ok((spans, tj.1));
                    },
                    Tok::Open { name, attrs, self_closing } => {
                        if is_span_name_e(&name) {
                            let ghost accv = spans.deep_view();
                            if self_closing {
                                let sp = Span {
                                    begin: attr_begin_e(&attrs),
                                    end: attr_end_e(&attrs),
                                    word: None,
                                    span: None,
                                };
                                proof {
                                    assert(sp.deep_view() == span_of_content(
                                        attrs.deep_view(),
                                        Seq::empty(),
                                        Seq::empty(),
                                    ));
                                }
                                spans.push(sp);
                                k = tj.1;
                                proof {
                                    assert(spans.deep_view() =~= accv.push(
                                        span_of_content(
                                            attrs.deep_view(),
                                            Seq::empty(),
                                            Seq::empty(),
                                        ),
                                    ));
                                }
                            } else {
                                match span_content_e(t, tj.1) {
                                    Ok(kj) => {
                                        let ghost kidsv = kj.0@.map_values(
                                            |c: Span| leaf_view(c),
                                        );
                                        let ghost textv = kj.1@;
                                        let word = if kj.0.len() == 0 && kj.1.len() > 0 {
                                            Some(string_of(&kj.1))
                                        } else {
                                            None
                                        };
                                        let children = if kj.0.len() > 0 {
                                            Some(kj.0)
                                        } else {
                                            None
                                        };
                                        let sp = Span {
                                            begin: attr_begin_e(&attrs),
                                            end: attr_end_e(&attrs),
                                            word,
                                            span: children,
                                        };
                                        proof {
                                            assert(sp.deep_view() == span_of_content(
                                                attrs.deep_view(),
                                                kidsv,
                                                textv,
                                            ));
                                        }
                                        spans.push(sp);
                                        k = kj.2;
                                        proof {
                                            assert(spans.deep_view() =~= accv.push(
                                                span_of_content(attrs.deep_view(), kidsv, textv),
                                            ));
                                        }
                                    },
                                    Err(e) => {
                                        return Err(e);
                                    },
                                }
                            }
                        } else {
                            if self_closing {
                                k = tj.1;
                            } else {
                                match skip_subtree_e(t, tj.1) {
                                    Ok(j2) => {
                                        k = j2;
                                    },
                                    Err(e) => {
                                        return Err(e);
                                    },
                                }
                            }
                        }
                    },
                }
            },
            Ok(None) => {
                return Err(ConvertError::Parse(String::from_str("unterminated line")));
            },
            Err(e) => {
                return Err(e);
            },
        }
    }
}

/// The lines of one synced division, up to the division's end tag. Every
/// line must carry begin and end attributes; a division without lines is
/// the expected shape being absent.
pub open spec fn div_ps(s: Seq<char>, i: int, acc: Seq<crate::synced_lyric_xml::PView>) -> Option<
    (Seq<crate::synced_lyric_xml::PView>, int),
>
    decreases s.len() - i,
{
    match next_tok(s, i) {
        Option::None => None,
        Option::Some(ot) => match ot {
            Option::None => None,
            Option::Some(tj) => {
                if tj.1 <= i || tj.1 > s.len() {
                    None
                } else {
                    match tj.0 {
                        TokV::Text { .. } => div_ps(s, tj.1, acc),
                        TokV::Close { .. } => {
                            if acc.len() == 0 {
                                None
                            } else {
                                Some((acc, tj.1))
                            }
                        },
                        TokV::Open { name, attrs, self_closing } => {
                            if is_p_name(name) {
                                match attr_begin(attrs) {
                                    Option::None => None,
                                    Option::Some(b) => match attr_end(attrs) {
                                        Option::None => None,
                                        Option::Some(e) => {
                                            if self_closing {
                                                div_ps(
                                                    s,
                                                    tj.1,
                                                    acc.push(
                                                        crate::synced_lyric_xml::PView {
                                                            begin: b,
                                                            end: e,
                                                            spans: Seq::empty(),
                                                        },
                                                    ),
                                                )
                                            } else {
                                                match p_spans(s, tj.1, Seq::empty()) {
                                                    Option::None => None,
                                                    Option::Some(pj) => {
                                                        if pj.1 <= tj.1 || pj.1 > s.len() {
                                                            None
                                                        } else {
                                                            div_ps(
                                                                s,
                                                                pj.1,
                                                                acc.push(
                                                                    crate::synced_lyric_xml::PView {
                                                                        begin: b,
                                                                        end: e,
                                                                        spans: pj.0,
                                                                    },
                                                                ),
                                                            )
                                                        }
                                                    },
                                                }
                                            }
                                        },
                                    },
                                }
                            } else {
                                if self_closing {
                                    div_ps(s, tj.1, acc)
                                } else {
                                    match skip_subtree(s, tj.1, 0) {
                                        Option::None => None,
                                        Option::Some(j2) => {
                                            if j2 <= tj.1 || j2 > s.len() {
                                                None
                                            } else {
                                                div_ps(s, j2, acc)
                                            }
                                        },
                                    }
                                }
                            }
                        },
                    }
                }
            },
        },
    }
}

fn div_ps_e(t: &Vec<char>, i: usize) -> (r: Result<(Vec<P>, usize), ConvertError>)
    requires
        i <= t@.len(),
    ensures
        match r {
            Ok(pj) => div_ps(t@, i as int, Seq::empty()) == Some((pj.0.deep_view(), pj.1 as int))
                && i < pj.1 <= t@.len(),
            Err(e) => div_ps(t@, i as int, Seq::empty()) is None && e is Parse,
        },
{
    let mut ps: Vec<P> = Vec::new();
    let mut k = i;
    proof {
        assert(ps.deep_view() =~= Seq::<crate::synced_lyric_xml::PView>::empty());
    }
    loop
        invariant
            i <= k <= t@.len(),
            div_ps(t@, i as int, Seq::empty()) == div_ps(t@, k as int, ps.deep_view()),
        decreases t@.len() - k,
    {
        match next_tok_e(t, k) {
            Ok(Some(tj)) => {
                match tj.0 {
                    Tok::Text { .. } => {
                        k = tj.1;
                    },
                    Tok::Close { .. } => {
                        if ps.len() == 0 {
                            return Err(
                                ConvertError::Parse(String::from_str("division without lines")),
                            );
                        }
                        return Ok((ps, tj.1));
                    },
                    Tok::Open { name, attrs, self_closing } => {
                        if is_p_name_e(&name) {
                            let begin = match attr_begin_e(&attrs) {
                                Some(b) => b,
                                None => {
                                    return Err(
                                        ConvertError::Parse(
                                            String::from_str("line without begin attribute"),
                                        ),
                                    );
                                },
                            };
                            let end = match attr_end_e(&attrs) {
                                Some(e) => e,
                                None => {
                                    return Err(
                                        ConvertError::Parse(
                                            String::from_str("line without end attribute"),
                                        ),
                                    );
                                },
                            };
                            let ghost accv = ps.deep_view();
                            if self_closing {
                                let p = P { begin, end, span: Vec::new() };
                                proof {
                                    assert(p.deep_view().spans =~= Seq::<SpanView>::empty());
                                }
                                let ghost pv = p.deep_view();
                                ps.push(p);
                                k = tj.1;
                                proof {
                                    assert(ps.deep_view() =~= accv.push(pv));
                                }
                            } else {
                                match p_spans_e(t, tj.1) {
                                    Ok(pj) => {
                                        let p = P { begin, end, span: pj.0 };
                                        let ghost pv = p.deep_view();
                                        ps.push(p);
                                        k = pj.1;
                                        proof {
                                            assert(ps.deep_view() =~= accv.push(pv));
                                        }
                                    },
                                    Err(e) => {
                                        return Err(e);
                                    },
                                }
                            }
                        } else {
                            if self_closing {
                                k = tj.1;
                            } else {
                                match skip_subtree_e(t, tj.1) {
                                    Ok(j2) => {
                                        k = j2;
                                    },
                                    Err(e) => {
                                        return Err(e);
                                    },
                                }
                            }
                        }
                    },
                }
            },
            Ok(None) => {
                return Err(ConvertError::Parse(String::from_str("unterminated division")));
            },
            Err(e) => {
                return Err(e);
            },
        }
    }
}

/// The divisions of the synced body, up to the body's end tag; a body
/// without divisions is the expected shape being absent.
pub open spec fn body_divs(s: Seq<char>, i: int, acc: Seq<Seq<crate::synced_lyric_xml::PView>>) -> Option<
    (Seq<Seq<crate::synced_lyric_xml::PView>>, int),
>
    decreases s.len() - i,
{
    match next_tok(s, i) {
        Option::None => None,
        Option::Some(ot) => match ot {
            Option::None => None,
            Option::Some(tj) => {
                if tj.1 <= i || tj.1 > s.len() {
                    None
                } else {
                    match tj.0 {
                        TokV::Text { .. } => body_divs(s, tj.1, acc),
                        TokV::Close { .. } => {
                            if acc.len() == 0 {
                                None
                            } else {
                                Some((acc, tj.1))
                            }
                        },
                        TokV::Open { name, self_closing, .. } => {
                            if is_div_name(name) {
                                if self_closing {
                                    None
                                } else {
                                    match div_ps(s, tj.1, Seq::empty()) {
                                        Option::None => None,
                                        Option::Some(dj) => {
                                            if dj.1 <= tj.1 || dj.1 > s.len() {
                                                None
                                            } else {
                                                body_divs(s, dj.1, acc.push(dj.0))
                                            }
                                        },
                                    }
                                }
                            } else {
                                if self_closing {
                                    body_divs(s, tj.1, acc)
                                } else {
                                    match skip_subtree(s, tj.1, 0) {
                                        Option::None => None,
                                        Option::Some(j2) => {
                                            if j2 <= tj.1 || j2 > s.len() {
                                                None
                                            } else {
                                                body_divs(s, j2, acc)
                                            }
                                        },
                                    }
                                }
                            }
                        },
                    }
                }
            },
        },
    }
}

fn body_divs_e(t: &Vec<char>, i: usize) -> (r: Result<(Vec<Div>, usize), ConvertError>)
    requires
        i <= t@.len(),
    ensures
        match r {
            Ok(dj) => body_divs(t@, i as int, Seq::empty()) == Some(
                (dj.0.deep_view(), dj.1 as int),
            ) && i < dj.1 <= t@.len(),
            Err(e) => body_divs(t@, i as int, Seq::empty()) is None && e is Parse,
        },
{
    let mut divs: Vec<Div> = Vec::new();
    let mut k = i;
    proof {
        assert(divs.deep_view() =~= Seq::<Seq<crate::synced_lyric_xml::PView>>::empty());
    }
    loop
        invariant
            i <= k <= t@.len(),
            body_divs(t@, i as int, Seq::empty()) == body_divs(t@, k as int, divs.deep_view()),
        decreases t@.len() - k,
    {
        match next_tok_e(t, k) {
            Ok(Some(tj)) => {
                match tj.0 {
                    Tok::Text { .. } => {
                        k = tj.1;
                    },
                    Tok::Close { .. } => {
                        if divs.len() == 0 {
                            return Err(
                                ConvertError::Parse(String::from_str("body without divisions")),
                            );
                        }
                        return Ok((divs, tj.1));
                    },
                    Tok::Open { name, self_closing, .. } => {
                        if is_div_name_e(&name) {
                            if self_closing {
                                return Err(
                                    ConvertError::Parse(
                                        String::from_str("division without lines"),
                                    ),
                                );
                            }
                            match div_ps_e(t, tj.1) {
                                Ok(dj) => {
                                    let ghost accv = divs.deep_view();
                                    let d = Div { p: dj.0 };
                                    let ghost dv = d.deep_view();
                                    divs.push(d);
                                    k = dj.1;
                                    proof {
                                        assert(divs.deep_view() =~= accv.push(dv));
                                    }
                                },
                                Err(e) => {
                                    return Err(e);
                                },
                            }
                        } else {
                            if self_closing {
                                k = tj.1;
                            } else {
                                match skip_subtree_e(t, tj.1) {
                                    Ok(j2) => {
                                        k = j2;
                                    },
                                    Err(e) => {
                                        return Err(e);
                                    },
                                }
                            }
                        }
                    },
                }
            },
            Ok(None) => {
                return Err(ConvertError::Parse(String::from_str("unterminated body")));
            },
            Err(e) => {
                return Err(e);
            },
        }
    }
}

/// The content of the synced root element: the first `body` child is the
/// document's body, every other child is skipped; a root without a body
/// is the expected shape being absent.
pub open spec fn tt_content(
    s: Seq<char>,
    i: int,
    found: Option<Seq<Seq<crate::synced_lyric_xml::PView>>>,
) -> Option<Seq<Seq<crate::synced_lyric_xml::PView>>>
    decreases s.len() - i,
{
    match next_tok(s, i) {
        Option::None => None,
        Option::Some(ot) => match ot {
            Option::None => None,
            Option::Some(tj) => {
                if tj.1 <= i || tj.1 > s.len() {
                    None
                } else {
                    match tj.0 {
                        TokV::Text { .. } => tt_content(s, tj.1, found),
                        TokV::Close { .. } => found,
                        TokV::Open { name, self_closing, .. } => {
                            if is_body_name(name) && !self_closing && found is None {
                                match body_divs(s, tj.1, Seq::empty()) {
                                    Option::None => None,
                                    Option::Some(dj) => {
                                        if dj.1 <= tj.1 || dj.1 > s.len() {
                                            None
                                        } else {
                                            tt_content(s, dj.1, Some(dj.0))
                                        }
                                    },
                                }
                            } else {
                                if self_closing {
                                    tt_content(s, tj.1, found)
                                } else {
                                    match skip_subtree(s, tj.1, 0) {
                                        Option::None => None,
                                        Option::Some(j2) => {
                                            if j2 <= tj.1 || j2 > s.len() {
                                                None
                                            } else {
                                                tt_content(s, j2, found)
                                            }
                                        },
                                    }
                                }
                            }
                        },
                    }
                }
            },
        },
    }
}

fn tt_content_e(t: &Vec<char>, i: usize) -> (r: Result<Vec<Div>, ConvertError>)
    requires
        i <= t@.len(),
    ensures
        match r {
            Ok(divs) => tt_content(t@, i as int, None) == Some(divs.deep_view()),
            Err(e) => tt_content(t@, i as int, None) is None && e is Parse,
        },
{
    let mut found: Option<Vec<Div>> = None;
    let mut k = i;
    loop
        invariant
            i <= k <= t@.len(),
            tt_content(t@, i as int, None) == tt_content(t@, k as int, found.deep_view()),
        decreases t@.len() - k,
    {
        match next_tok_e(t, k) {
            Ok(Some(tj)) => {
                match tj.0 {
                    Tok::Text { .. } => {
                        k = tj.1;
                    },
                    Tok::Close { .. } => {
                        match found {
                            Some(divs) => {
                                return Ok(divs);
                            },
                            None => {
                                return Err(
                                    ConvertError::Parse(String::from_str("document without body")),
                                );
                            },
                        }
                    },
                    Tok::Open { name, self_closing, .. } => {
                        if is_body_name_e(&name) && !self_closing && found.is_none() {
                            match body_divs_e(t, tj.1) {
                                Ok(dj) => {
                                    found = Some(dj.0);
                                    k = dj.1;
                                },
                                Err(e) => {
                                    return Err(e);
                                },
                            }
                        } else {
                            if self_closing {
                                k = tj.1;
                            } else {
                                match skip_subtree_e(t, tj.1) {
                                    Ok(j2) => {
                                        k = j2;
                                    },
                                    Err(e) => {
                                        return Err(e);
                                    },
                                }
                            }
                        }
                    },
                }
            },
            Ok(None) => {
                return Err(ConvertError::Parse(String::from_str("unterminated document")));
            },
            Err(e) => {
                return Err(e);
            },
        }
    }
}

/// The whole word-span document: leading character data and declarations
/// are skipped, the root element must be `tt`; anything after its end tag
/// is ignored.
pub open spec fn parse_synced_doc(s: Seq<char>, i: int) -> Option<
    Seq<Seq<crate::synced_lyric_xml::PView>>,
>
    decreases s.len() - i,
{
    match next_tok(s, i) {
        Option::None => None,
        Option::Some(ot) => match ot {
            Option::None => None,
            Option::Some(tj) => {
                if tj.1 <= i || tj.1 > s.len() {
                    None
                } else {
                    match tj.0 {
                        TokV::Text { .. } => parse_synced_doc(s, tj.1),
                        TokV::Close { .. } => None,
                        TokV::Open { name, self_closing, .. } => {
                            if is_tt_name(name) && !self_closing {
                                tt_content(s, tj.1, None)
                            } else {
                                None
                            }
                        },
                    }
                }
            },
        },
    }
}

/// The word-span document described by `s`, when `s` is well-formed
/// markup of the expected `tt → body → div → p [→ span]*` shape.
pub open spec fn parse_synced_spec(s: Seq<char>) -> Option<
    Seq<Seq<crate::synced_lyric_xml::PView>>,
> {
    parse_synced_doc(s, 0)
}

/// Parses word-span timed-text markup: per-word timing with one level of
/// background vocal groups.
pub fn parse_synced(text: &str) -> (r: Result<SynedLyricXML, ConvertError>)
    ensures
        parse_synced_spec(text@) matches Some(d) ==> (r matches Ok(doc) && doc.deep_view() == d),
        parse_synced_spec(text@) is None ==> (r matches Err(e) && e is Parse),
{
    let t = chars_of(text);
    let mut k: usize = 0;
    loop
        invariant
            k <= t@.len(),
            t@ == text@,
            parse_synced_doc(text@, 0) == parse_synced_doc(text@, k as int),
        decreases t@.len() - k,
    {
        match next_tok_e(&t, k) {
            Ok(Some(tj)) => {
                match tj.0 {
                    Tok::Text { .. } => {
                        k = tj.1;
                    },
                    Tok::Close { .. } => {
                        return Err(
                            ConvertError::Parse(String::from_str("end tag before the root")),
                        );
                    },
                    Tok::Open { name, self_closing, .. } => {
                        if is_tt_name_e(&name) && !self_closing {
                            match tt_content_e(&t, tj.1) {
                                Ok(divs) => {
                                    return Ok(SynedLyricXML { body: Body { div: divs } });
                                },
                                Err(e) => {
                                    return Err(e);
                                },
                            }
                        } else {
                            return Err(
                                ConvertError::Parse(String::from_str("root element is not tt")),
                            );
                        }
                    },
                }
            },
            Ok(None) => {
                return Err(ConvertError::Parse(String::from_str("empty document")));
            },
            Err(e) => {
                return Err(e);
            },
        }
    }
}

/// The text of one plain line, up to the line's end tag, whitespace
/// preserved; nested elements are skipped and their text dropped.
pub open spec fn plain_p_text(s: Seq<char>, i: int, acc: Seq<char>) -> Option<(Seq<char>, int)>
    decreases s.len() - i,
{
    match next_tok(s, i) {
        Option::None => None,
        Option::Some(ot) => match ot {
            Option::None => None,
            Option::Some(tj) => {
                if tj.1 <= i || tj.1 > s.len() {
                    None
                } else {
                    match tj.0 {
                        TokV::Text { text } => plain_p_text(s, tj.1, acc + text),
                        TokV::Close { .. } => Some((acc, tj.1)),
                        TokV::Open { self_closing, .. } => {
                            if self_closing {
                                plain_p_text(s, tj.1, acc)
                            } else {
                                match skip_subtree(s, tj.1, 0) {
                                    Option::None => None,
                                    Option::Some(j2) => {
                                        if j2 <= tj.1 || j2 > s.len() {
                                            None
                                        } else {
                                            plain_p_text(s, j2, acc)
                                        }
                                    },
                                }
                            }
                        },
                    }
                }
            },
        },
    }
}

fn plain_p_text_e(t: &Vec<char>, i: usize) -> (r: Result<(Vec<char>, usize), ConvertError>)
    requires
        i <= t@.len(),
    ensures
        match r {
            Ok(vj) => plain_p_text(t@, i as int, Seq::empty()) == Some((vj.0@, vj.1 as int))
                && i < vj.1 <= t@.len(),
            Err(e) => plain_p_text(t@, i as int, Seq::empty()) is None && e is Parse,
        },
{
    let mut out: Vec<char> = Vec::new();
    let mut k = i;
    loop
        invariant
            i <= k <= t@.len(),
            plain_p_text(t@, i as int, Seq::empty()) == plain_p_text(t@, k as int, out@),
        decreases t@.len() - k,
    {
        match next_tok_e(t, k) {
            Ok(Some(tj)) => {
                match tj.0 {
                    Tok::Text { text } => {
                        push_all(&mut out, &text);
                        k = tj.1;
                    },
                    Tok::Close { .. } => {
                        return Ok((out, tj.1));
                    },
                    Tok::Open { self_closing, .. } => {
                        if self_closing {
                            k = tj.1;
                        } else {
                            match skip_subtree_e(t, tj.1) {
                                Ok(j2) => {
                                    k = j2;
                                },
                                Err(e) => {
                                    return Err(e);
                                },
                            }
                        }
                    },
                }
            },
            Ok(None) => {
                return Err(ConvertError::Parse(String::from_str("unterminated line")));
            },
            Err(e) => {
                return Err(e);
            },
        }
    }
}

/// The lines of one plain division, up to the division's end tag. Every
/// line must carry begin and end attributes and a non-empty text payload.
pub open spec fn plain_div_ps(s: Seq<char>, i: int, acc: Seq<PlainPView>) -> Option<
    (Seq<PlainPView>, int),
>
    decreases s.len() - i,
{
    match next_tok(s, i) {
        Option::None => None,
        Option::Some(ot) => match ot {
            Option::None => None,
            Option::Some(tj) => {
                if tj.1 <= i || tj.1 > s.len() {
                    None
                } else {
                    match tj.0 {
                        TokV::Text { .. } => plain_div_ps(s, tj.1, acc),
                        TokV::Close { .. } => {
                            if acc.len() == 0 {
                                None
                            } else {
                                Some((acc, tj.1))
                            }
                        },
                        TokV::Open { name, attrs, self_closing } => {
                            if is_p_name(name) {
                                match attr_begin(attrs) {
                                    Option::None => None,
                                    Option::Some(b) => match attr_end(attrs) {
                                        Option::None => None,
                                        Option::Some(e) => {
                                            if self_closing {
                                                None
                                            } else {
                                                match plain_p_text(s, tj.1, Seq::empty()) {
                                                    Option::None => None,
                                                    Option::Some(pj) => {
                                                        if pj.1 <= tj.1 || pj.1 > s.len()
                                                            || pj.0.len() == 0 {
                                                            None
                                                        } else {
                                                            plain_div_ps(
                                                                s,
                                                                pj.1,
                                                                acc.push(
                                                                    PlainPView {
                                                                        begin: b,
                                                                        end: e,
                                                                        line: pj.0,
                                                                    },
                                                                ),
                                                            )
                                                        }
                                                    },
                                                }
                                            }
                                        },
                                    },
                                }
                            } else {
                                if self_closing {
                                    plain_div_ps(s, tj.1, acc)
                                } else {
                                    match skip_subtree(s, tj.1, 0) {
                                        Option::None => None,
                                        Option::Some(j2) => {
                                            if j2 <= tj.1 || j2 > s.len() {
                                                None
                                            } else {
                                                plain_div_ps(s, j2, acc)
                                            }
                                        },
                                    }
                                }
                            }
                        },
                    }
                }
            },
        },
    }
}

fn plain_div_ps_e(t: &Vec<char>, i: usize) -> (r: Result<(Vec<PlainP>, usize), ConvertError>)
    requires
        i <= t@.len(),
    ensures
        match r {
            Ok(pj) => plain_div_ps(t@, i as int, Seq::empty()) == Some(
                (pj.0.deep_view(), pj.1 as int),
            ) && i < pj.1 <= t@.len(),
            Err(e) => plain_div_ps(t@, i as int, Seq::empty()) is None && e is Parse,
        },
{
    let mut ps: Vec<PlainP> = Vec::new();
    let mut k = i;
    proof {
        assert(ps.deep_view() =~= Seq::<PlainPView>::empty());
    }
    loop
        invariant
            i <= k <= t@.len(),
            plain_div_ps(t@, i as int, Seq::empty()) == plain_div_ps(
                t@,
                k as int,
                ps.deep_view(),
            ),
        decreases t@.len() - k,
    {
        match next_tok_e(t, k) {
            Ok(Some(tj)) => {
                match tj.0 {
                    Tok::Text { .. } => {
                        k = tj.1;
                    },
                    Tok::Close { .. } => {
                        if ps.len() == 0 {
                            return Err(
                                ConvertError::Parse(String::from_str("division without lines")),
                            );
                        }
                        return Ok((ps, tj.1));
                    },
                    Tok::Open { name, attrs, self_closing } => {
                        if is_p_name_e(&name) {
                            let begin = match attr_begin_e(&attrs) {
                                Some(b) => b,
                                None => {
                                    return Err(
                                        ConvertError::Parse(
                                            String::from_str("line without begin attribute"),
                                        ),
                                    );
                                },
                            };
                            let end = match attr_end_e(&attrs) {
                                Some(e) => e,
                                None => {
                                    return Err(
                                        ConvertError::Parse(
                                            String::from_str("line without end attribute"),
                                        ),
                                    );
                                },
                            };
                            if self_closing {
                                return Err(
                                    ConvertError::Parse(String::from_str("line without text")),
                                );
                            }
                            match plain_p_text_e(t, tj.1) {
                                Ok(pj) => {
                                    if pj.0.len() == 0 {
                                        return Err(
                                            ConvertError::Parse(
                                                String::from_str("line without text"),
                                            ),
                                        );
                                    }
                                    let ghost accv = ps.deep_view();
                                    let p = PlainP { begin, end, line: string_of(&pj.0) };
                                    let ghost pv = p.deep_view();
                                    ps.push(p);
                                    k = pj.1;
                                    proof {
                                        assert(ps.deep_view() =~= accv.push(pv));
                                    }
                                },
                                Err(e) => {
                                    return Err(e);
                                },
                            }
                        } else {
                            if self_closing {
                                k = tj.1;
                            } else {
                                match skip_subtree_e(t, tj.1) {
                                    Ok(j2) => {
                                        k = j2;
                                    },
                                    Err(e) => {
                                        return Err(e);
                                    },
                                }
                            }
                        }
                    },
                }
            },
            Ok(None) => {
                return Err(ConvertError::Parse(String::from_str("unterminated division")));
            },
            Err(e) => {
                return Err(e);
            },
        }
    }
}

/// The divisions of the plain body, up to the body's end tag.
pub open spec fn plain_body_divs(s: Seq<char>, i: int, acc: Seq<Seq<PlainPView>>) -> Option<
    (Seq<Seq<PlainPView>>, int),
>
    decreases s.len() - i,
{
    match next_tok(s, i) {
        Option::None => None,
        Option::Some(ot) => match ot {
            Option::None => None,
            Option::Some(tj) => {
                if tj.1 <= i || tj.1 > s.len() {
                    None
                } else {
                    match tj.0 {
                        TokV::Text { .. } => plain_body_divs(s, tj.1, acc),
                        TokV::Close { .. } => {
                            if acc.len() == 0 {
                                None
                            } else {
                                Some((acc, tj.1))
                            }
                        },
                        TokV::Open { name, self_closing, .. } => {
                            if is_div_name(name) {
                                if self_closing {
                                    None
                                } else {
                                    match plain_div_ps(s, tj.1, Seq::empty()) {
                                        Option::None => None,
                                        Option::Some(dj) => {
                                            if dj.1 <= tj.1 || dj.1 > s.len() {
                                                None
                                            } else {
                                                plain_body_divs(s, dj.1, acc.push(dj.0))
                                            }
                                        },
                                    }
                                }
                            } else {
                                if self_closing {
                                    plain_body_divs(s, tj.1, acc)
                                } else {
                                    match skip_subtree(s, tj.1, 0) {
                                        Option::None => None,
                                        Option::Some(j2) => {
                                            if j2 <= tj.1 || j2 > s.len() {
                                                None
                                            } else {
                                                plain_body_divs(s, j2, acc)
                                            }
                                        },
                                    }
                                }
                            }
                        },
                    }
                }
            },
        },
    }
}

fn plain_body_divs_e(t: &Vec<char>, i: usize) -> (r: Result<(Vec<PlainDiv>, usize), ConvertError>)
    requires
        i <= t@.len(),
    ensures
        match r {
            Ok(dj) => plain_body_divs(t@, i as int, Seq::empty()) == Some(
                (dj.0.deep_view(), dj.1 as int),
            ) && i < dj.1 <= t@.len(),
            Err(e) => plain_body_divs(t@, i as int, Seq::empty()) is None && e is Parse,
        },
{
    let mut divs: Vec<PlainDiv> = Vec::new();
    let mut k = i;
    proof {
        assert(divs.deep_view() =~= Seq::<Seq<PlainPView>>::empty());
    }
    loop
        invariant
            i <= k <= t@.len(),
            plain_body_divs(t@, i as int, Seq::empty()) == plain_body_divs(
                t@,
                k as int,
                divs.deep_view(),
            ),
        decreases t@.len() - k,
    {
        match next_tok_e(t, k) {
            Ok(Some(tj)) => {
                match tj.0 {
                    Tok::Text { .. } => {
                        k = tj.1;
                    },
                    Tok::Close { .. } => {
                        if divs.len() == 0 {
                            return Err(
                                ConvertError::Parse(String::from_str("body without divisions")),
                            );
                        }
                        return Ok((divs, tj.1));
                    },
                    Tok::Open { name, self_closing, .. } => {
                        if is_div_name_e(&name) {
                            if self_closing {
                                return Err(
                                    ConvertError::Parse(
                                        String::from_str("division without lines"),
                                    ),
                                );
                            }
                            match plain_div_ps_e(t, tj.1) {
                                Ok(dj) => {
                                    let ghost accv = divs.deep_view();
                                    let d = PlainDiv { p: dj.0 };
                                    let ghost dv = d.deep_view();
                                    divs.push(d);
                                    k = dj.1;
                                    proof {
                                        assert(divs.deep_view() =~= accv.push(dv));
                                    }
                                },
                                Err(e) => {
                                    return Err(e);
                                },
                            }
                        } else {
                            if self_closing {
                                k = tj.1;
                            } else {
                                match skip_subtree_e(t, tj.1) {
                                    Ok(j2) => {
                                        k = j2;
                                    },
                                    Err(e) => {
                                        return Err(e);
                                    },
                                }
                            }
                        }
                    },
                }
            },
            Ok(None) => {
                return Err(ConvertError::Parse(String::from_str("unterminated body")));
            },
            Err(e) => {
                return Err(e);
            },
        }
    }
}

/// The content of the plain root element, as `tt_content` for the synced
/// dialect.
pub open spec fn plain_tt_content(s: Seq<char>, i: int, found: Option<Seq<Seq<PlainPView>>>) -> Option<
    Seq<Seq<PlainPView>>,
>
    decreases s.len() - i,
{
    match next_tok(s, i) {
        Option::None => None,
        Option::Some(ot) => match ot {
            Option::None => None,
            Option::Some(tj) => {
                if tj.1 <= i || tj.1 > s.len() {
                    None
                } else {
                    match tj.0 {
                        TokV::Text { .. } => plain_tt_content(s, tj.1, found),
                        TokV::Close { .. } => found,
                        TokV::Open { name, self_closing, .. } => {
                            if is_body_name(name) && !self_closing && found is None {
                                match plain_body_divs(s, tj.1, Seq::empty()) {
                                    Option::None => None,
                                    Option::Some(dj) => {
                                        if dj.1 <= tj.1 || dj.1 > s.len() {
                                            None
                                        } else {
                                            plain_tt_content(s, dj.1, Some(dj.0))
                                        }
                                    },
                                }
                            } else {
                                if self_closing {
                                    plain_tt_content(s, tj.1, found)
                                } else {
                                    match skip_subtree(s, tj.1, 0) {
                                        Option::None => None,
                                        Option::Some(j2) => {
                                            if j2 <= tj.1 || j2 > s.len() {
                                                None
                                            } else {
                                                plain_tt_content(s, j2, found)
                                            }
                                        },
                                    }
                                }
                            }
                        },
                    }
                }
            },
        },
    }
}

fn plain_tt_content_e(t: &Vec<char>, i: usize) -> (r: Result<Vec<PlainDiv>, ConvertError>)
    requires
        i <= t@.len(),
    ensures
        match r {
            Ok(divs) => plain_tt_content(t@, i as int, None) == Some(divs.deep_view()),
            Err(e) => plain_tt_content(t@, i as int, None) is None && e is Parse,
        },
{
    let mut found: Option<Vec<PlainDiv>> = None;
    let mut k = i;
    loop
        invariant
            i <= k <= t@.len(),
            plain_tt_content(t@, i as int, None) == plain_tt_content(
                t@,
                k as int,
                found.deep_view(),
            ),
        decreases t@.len() - k,
    {
        match next_tok_e(t, k) {
            Ok(Some(tj)) => {
                match tj.0 {
                    Tok::Text { .. } => {
                        k = tj.1;
                    },
                    Tok::Close { .. } => {
                        match found {
                            Some(divs) => {
                                return Ok(divs);
                            },
                            None => {
                                return Err(
                                    ConvertError::Parse(String::from_str("document without body")),
                                );
                            },
                        }
                    },
                    Tok::Open { name, self_closing, .. } => {
                        if is_body_name_e(&name) && !self_closing && found.is_none() {
                            match plain_body_divs_e(t, tj.1) {
                                Ok(dj) => {
                                    found = Some(dj.0);
                                    k = dj.1;
                                },
                                Err(e) => {
                                    return Err(e);
                                },
                            }
                        } else {
                            if self_closing {
                                k = tj.1;
                            } else {
                                match skip_subtree_e(t, tj.1) {
                                    Ok(j2) => {
                                        k = j2;
                                    },
                                    Err(e) => {
                                        return Err(e);
                                    },
                                }
                            }
                        }
                    },
                }
            },
            Ok(None) => {
                return Err(ConvertError::Parse(String::from_str("unterminated document")));
            },
            Err(e) => {
                return Err(e);
            },
        }
    }
}

/// The whole plain-line document, as `parse_synced_doc` for the synced
/// dialect.
pub open spec fn parse_plain_doc(s: Seq<char>, i: int) -> Option<Seq<Seq<PlainPView>>>
    decreases s.len() - i,
{
    match next_tok(s, i) {
        Option::None => None,
        Option::Some(ot) => match ot {
            Option::None => None,
            Option::Some(tj) => {
                if tj.1 <= i || tj.1 > s.len() {
                    None
                } else {
                    match tj.0 {
                        TokV::Text { .. } => parse_plain_doc(s, tj.1),
                        TokV::Close { .. } => None,
                        TokV::Open { name, self_closing, .. } => {
                            if is_tt_name(name) && !self_closing {
                                plain_tt_content(s, tj.1, None)
                            } else {
                                None
                            }
                        },
                    }
                }
            },
        },
    }
}

/// The plain-line document described by `s`, when `s` is well-formed
/// markup of the expected `tt → body → div → p` shape with per-line text.
pub open spec fn parse_plain_spec(s: Seq<char>) -> Option<Seq<Seq<PlainPView>>> {
    parse_plain_doc(s, 0)
}

/// Parses plain-line timed-text markup: per-line text with true spacing.
pub fn parse_plain(text: &str) -> (r: Result<LyricXML, ConvertError>)
    ensures
        parse_plain_spec(text@) matches Some(d) ==> (r matches Ok(doc) && doc.deep_view() == d),
        parse_plain_spec(text@) is None ==> (r matches Err(e) && e is Parse),
{
    let t = chars_of(text);
    let mut k: usize = 0;
    loop
        invariant
            k <= t@.len(),
            t@ == text@,
            parse_plain_doc(text@, 0) == parse_plain_doc(text@, k as int),
        decreases t@.len() - k,
    {
        match next_tok_e(&t, k) {
            Ok(Some(tj)) => {
                match tj.0 {
                    Tok::Text { .. } => {
                        k = tj.1;
                    },
                    Tok::Close { .. } => {
                        return Err(
                            ConvertError::Parse(String::from_str("end tag before the root")),
                        );
                    },
                    Tok::Open { name, self_closing, .. } => {
                        if is_tt_name_e(&name) && !self_closing {
                            match plain_tt_content_e(&t, tj.1) {
                                Ok(divs) => {
                                    return Ok(LyricXML { body: PlainBody { div: divs } });
                                },
                                Err(e) => {
                                    return Err(e);
                                },
                            }
                        } else {
                            return Err(
                                ConvertError::Parse(String::from_str("root element is not tt")),
                            );
                        }
                    },
                }
            },
            Ok(None) => {
                return Err(ConvertError::Parse(String::from_str("empty document")));
            },
            Err(e) => {
                return Err(e);
            },
        }
    }
}

} // verus!
