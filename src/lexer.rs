//! The context-sensitive lexer: declaration syntax and markup syntax in one token stream.

use vstd::prelude::*;
use crate::text::{is_digit, is_letter, letter, digit, chars_of};
use crate::token::{Token, TokenModel, models};
use crate::error::Span;
use crate::lines::{LineTracker, position_after};
use crate::scan::{skip_ws, ident_end, quote_end, number_end, expr_end, text_end, trimmed, skip_ws_at, ident_end_at, quote_end_at, number_end_at, expr_end_at, text_end_at, trimmed_at, substring, spells};

verus! {

/// How the attribute list of an opening tag ended.
pub enum TagEnd {
    /// At `>`: the element is open.
    Open,
    /// At `/>`: the element is complete.
    SelfClosing,
    /// At something that is neither an attribute nor the end of the tag.
    Cut,
}

/// The token for a word: a keyword when it is one, else an identifier.
pub open spec fn keyword(w: Seq<char>) -> TokenModel {
    if w == "import"@ {
        TokenModel::Import
    } else if w == "from"@ {
        TokenModel::From
    } else if w == "page"@ {
        TokenModel::Page
    } else if w == "layout"@ {
        TokenModel::Layout
    } else if w == "render"@ {
        TokenModel::Render
    } else if w == "functions"@ {
        TokenModel::Functions
    } else {
        TokenModel::Ident(w)
    }
}

/// The position after a closing character found at `e`, or the end of input.
pub open spec fn after(s: Seq<char>, e: int) -> int {
    if e < s.len() {
        e + 1
    } else {
        s.len() as int
    }
}

/// The tokens of an embedded expression whose opening brace is at `b`.
pub open spec fn expr_tokens(s: Seq<char>, b: int) -> Seq<TokenModel> {
    let e = expr_end(s, b + 1, 1, None);
    seq![TokenModel::LBrace, TokenModel::Ident(trimmed(s, b + 1, e)), TokenModel::RBrace]
}

/// The position after an embedded expression whose opening brace is at `b`.
pub open spec fn expr_next(s: Seq<char>, b: int) -> int {
    after(s, expr_end(s, b + 1, 1, None))
}

/// The tokens of an attribute's value, read after its name ends at `e`, and where they end.
pub open spec fn attr_value(s: Seq<char>, e: int) -> (Seq<TokenModel>, int) {
    let r = skip_ws(s, e);
    if r < s.len() && s[r] == '=' {
        let v = skip_ws(s, r + 1);
        if v < s.len() && s[v] == '"' {
            let qe = quote_end(s, v + 1);
            (seq![TokenModel::EQ, TokenModel::StringLiteral(s.subrange(v + 1, qe))], after(s, qe))
        } else if v < s.len() && s[v] == '{' {
            (seq![TokenModel::EQ] + expr_tokens(s, v), expr_next(s, v))
        } else {
            (seq![TokenModel::EQ], v)
        }
    } else {
        (Seq::empty(), r)
    }
}

/// The tokens of the attribute list of an opening tag from `p` on, where it ends, and how.
pub open spec fn attr_scan(s: Seq<char>, p: int) -> (Seq<TokenModel>, int, TagEnd)
    decreases s.len() - p,
{
    let q = skip_ws(s, p);
    if q < s.len() && s[q] == '>' {
        (seq![TokenModel::GT], q + 1, TagEnd::Open)
    } else if q + 1 < s.len() && s[q] == '/' && s[q + 1] == '>' {
        (seq![TokenModel::SlashGT], q + 2, TagEnd::SelfClosing)
    } else {
        let e = ident_end(s, q);
        let value = attr_value(s, e);
        if e == q || value.1 <= p || value.1 > s.len() {
            (Seq::empty(), q, TagEnd::Cut)
        } else {
            let rest = attr_scan(s, value.1);
            (seq![TokenModel::Ident(s.subrange(q, e))] + value.0 + rest.0, rest.1, rest.2)
        }
    }
}

/// One step of the lexer on a tag whose `<` is at `pos`: its tokens, where it ends,
/// and the markup depth after it. After an opening tag inside markup, the text up to
/// the next `<` or `{` is read too, trimmed, and kept when it is not empty.
pub open spec fn tag_step(s: Seq<char>, pos: int, depth: int) -> (Seq<TokenModel>, int, int) {
    let after_lt = pos + 1;
    let closing = after_lt < s.len() && s[after_lt] == '/';
    let name_at = if closing {
        after_lt + 1
    } else {
        after_lt
    };
    let q = skip_ws(s, name_at);
    let e = ident_end(s, q);
    let name = if e > q {
        seq![TokenModel::Ident(s.subrange(q, e))]
    } else {
        Seq::empty()
    };
    let head = seq![TokenModel::LT] + (if closing {
        seq![TokenModel::Slash]
    } else {
        Seq::empty()
    }) + name;
    if closing {
        let g = skip_ws(s, e);
        if g < s.len() && s[g] == '>' {
            (head + seq![TokenModel::GT], g + 1, depth - 1)
        } else {
            (head, g, depth)
        }
    } else {
        let at = attr_scan(s, e);
        let d = if at.2 is Open {
            depth + 1
        } else {
            depth
        };
        if !(at.2 is SelfClosing) && d > 0 {
            let te = text_end(s, at.1);
            let t = trimmed(s, at.1, te);
            let text = if t.len() > 0 {
                seq![TokenModel::Text(t)]
            } else {
                Seq::empty()
            };
            (head + at.0 + text, te, d)
        } else {
            (head + at.0, at.1, d)
        }
    }
}

/// One step of the lexer at a `{` inside markup: an embedded expression when the first
/// character after the brace and any whitespace can start an identifier, else a brace.
pub open spec fn brace_step(s: Seq<char>, pos: int, depth: int) -> (Seq<TokenModel>, int, int) {
    let j = skip_ws(s, pos + 1);
    if j < s.len() && (is_letter(s[j]) || s[j] == '_') {
        (expr_tokens(s, pos), expr_next(s, pos), depth)
    } else {
        (seq![TokenModel::LBrace], pos + 1, depth)
    }
}

/// The token of a character that stands for itself, if it is one.
pub open spec fn punct(c: char) -> Option<TokenModel> {
    if c == '}' {
        Some(TokenModel::RBrace)
    } else if c == ':' {
        Some(TokenModel::Colon)
    } else if c == ',' {
        Some(TokenModel::Comma)
    } else if c == '(' {
        Some(TokenModel::LParen)
    } else if c == ')' {
        Some(TokenModel::RParen)
    } else if c == ';' {
        Some(TokenModel::SemiColon)
    } else if c == '+' {
        Some(TokenModel::Plus)
    } else if c == '-' {
        Some(TokenModel::Minus)
    } else if c == '*' {
        Some(TokenModel::Star)
    } else {
        None
    }
}

/// One step of the lexer at `pos` with markup depth `depth`: the tokens it emits, the
/// position where it stops and the depth after it. Unknown characters are skipped.
#[verifier::opaque]
pub open spec fn step(s: Seq<char>, pos: int, depth: int) -> (Seq<TokenModel>, int, int) {
    let c = s[pos];
    if crate::text::is_white(c) {
        (Seq::empty(), pos + 1, depth)
    } else if c == '=' && pos + 1 < s.len() && s[pos + 1] == '>' {
        (seq![TokenModel::Arrow], pos + 2, depth)
    } else if c == '=' {
        (seq![TokenModel::EQ], pos + 1, depth)
    } else if c == '{' {
        if depth > 0 {
            brace_step(s, pos, depth)
        } else {
            (seq![TokenModel::LBrace], pos + 1, depth)
        }
    } else if punct(c) is Some {
        (seq![punct(c)->0], pos + 1, depth)
    } else if c == '<' {
        tag_step(s, pos, depth)
    } else if c == '"' {
        let qe = quote_end(s, pos + 1);
        (seq![TokenModel::StringLiteral(s.subrange(pos + 1, qe))], after(s, qe), depth)
    } else if is_digit(c) {
        let e = number_end(s, pos, false);
        (seq![TokenModel::Number(s.subrange(pos, e))], e, depth)
    } else if is_letter(c) || c == '_' {
        let e = ident_end(s, pos);
        (seq![keyword(s.subrange(pos, e))], e, depth)
    } else {
        (Seq::empty(), pos + 1, depth)
    }
}

/// The tokens of `s` from `pos` on, at markup depth `depth`, ending in one `EOF`.
pub open spec fn lex_from(s: Seq<char>, pos: int, depth: int) -> Seq<TokenModel>
    decreases s.len() - pos,
{
    if pos < 0 || pos >= s.len() {
        seq![TokenModel::EOF]
    } else {
        let st = step(s, pos, depth);
        if pos < st.1 <= s.len() {
            st.0 + lex_from(s, st.1, st.2)
        } else {
            seq![TokenModel::EOF]
        }
    }
}

/// The tokens of a source text.
pub open spec fn lex(s: Seq<char>) -> Seq<TokenModel> {
    lex_from(s, 0, 0)
}

/// The span from character offset `a` to character offset `b` of `s`.
pub open spec fn span_between(s: Seq<char>, a: int, b: int) -> Span {
    let x = position_after(s.take(a));
    let y = position_after(s.take(b));
    Span { start_line: x.0 as usize, start_column: x.1 as usize, end_line: y.0 as usize, end_column: y.1 as usize }
}

/// The spans of the tokens of `s` from `pos` on: each token spans the step of the lexer
/// that produced it; `EOF` spans the end of input.
pub open spec fn lex_spans_from(s: Seq<char>, pos: int, depth: int) -> Seq<Span>
    decreases s.len() - pos,
{
    if pos < 0 || pos >= s.len() {
        seq![span_between(s, s.len() as int, s.len() as int)]
    } else {
        let st = step(s, pos, depth);
        if pos < st.1 <= s.len() {
            Seq::new(st.0.len(), |i: int| span_between(s, pos, st.1)) + lex_spans_from(s, st.1, st.2)
        } else {
            seq![span_between(s, s.len() as int, s.len() as int)]
        }
    }
}

/// The spans of the tokens of a source text.
pub open spec fn lex_spans(s: Seq<char>) -> Seq<Span> {
    lex_spans_from(s, 0, 0)
}

fn advance_to(s: &Vec<char>, t: &mut LineTracker, from: usize, to: usize)
    requires
        from <= to <= s.len(),
        s.len() < usize::MAX,
        (old(t).line as int, old(t).column as int) == position_after(s@.take(from as int)),
        old(t).line + old(t).column <= from + 1,
    ensures
        (final(t).line as int, final(t).column as int) == position_after(s@.take(to as int)),
        final(t).line + final(t).column <= to + 1,
{
    let mut j = from;
    while j < to
        invariant
            from <= j <= to <= s.len(),
            s.len() < usize::MAX,
            (t.line as int, t.column as int) == position_after(s@.take(j as int)),
            t.line + t.column <= j + 1,
        decreases to - j,
    {
        assert(s@.take(j + 1).drop_last() =~= s@.take(j as int));
        t.advance(s[j]);
        j = j + 1;
    }
}

fn emit(out: &mut Vec<Token>, t: Token)
    ensures
        models(final(out)@) == models(old(out)@).push(t@),
{
    let ghost before = out@;
    out.push(t);
    assert(models(out@) =~= models(before).push(t@));
}

fn emit_expr(s: &Vec<char>, b: usize, out: &mut Vec<Token>) -> (r: usize)
    requires
        b < s.len(),
    ensures
        models(final(out)@) == models(old(out)@) + expr_tokens(s@, b as int),
        r == expr_next(s@, b as int),
        b < r <= s.len(),
{
    let ghost before = models(out@);
    let e = expr_end_at(s, b + 1);
    emit(out, Token::LBrace);
    emit(out, Token::Ident(trimmed_at(s, b + 1, e)));
    emit(out, Token::RBrace);
    assert(models(out@) =~= before + expr_tokens(s@, b as int));
    if e < s.len() {
        e + 1
    } else {
        s.len()
    }
}

fn value_at(s: &Vec<char>, e: usize, out: &mut Vec<Token>) -> (r: usize)
    requires
        e <= s.len(),
    ensures
        models(final(out)@) == models(old(out)@) + attr_value(s@, e as int).0,
        r == attr_value(s@, e as int).1,
        e <= r <= s.len(),
{
    let ghost before = models(out@);
    let r = skip_ws_at(s, e);
    if r < s.len() && s[r] == '=' {
        emit(out, Token::EQ);
        let v = skip_ws_at(s, r + 1);
        if v < s.len() && s[v] == '"' {
            let qe = quote_end_at(s, v + 1);
            emit(out, Token::StringLiteral(substring(s, v + 1, qe)));
            assert(models(out@) =~= before + attr_value(s@, e as int).0);
            if qe < s.len() {
                qe + 1
            } else {
                s.len()
            }
        } else if v < s.len() && s[v] == '{' {
            let n = emit_expr(s, v, out);
            assert(models(out@) =~= before + attr_value(s@, e as int).0);
            n
        } else {
            assert(models(out@) =~= before + attr_value(s@, e as int).0);
            v
        }
    } else {
        assert(models(out@) =~= before + attr_value(s@, e as int).0);
        r
    }
}

fn attrs_at(s: &Vec<char>, p: usize, out: &mut Vec<Token>) -> (r: (usize, TagEnd))
    requires
        p <= s.len(),
    ensures
        models(final(out)@) == models(old(out)@) + attr_scan(s@, p as int).0,
        r.0 == attr_scan(s@, p as int).1,
        r.1 == attr_scan(s@, p as int).2,
        p <= r.0 <= s.len(),
{
    let ghost before = models(out@);
    let mut cur = p;
    loop
        invariant
            p <= cur <= s.len(),
            before == models(old(out)@),
            models(out@) + attr_scan(s@, cur as int).0 == before + attr_scan(s@, p as int).0,
            attr_scan(s@, cur as int).1 == attr_scan(s@, p as int).1,
            attr_scan(s@, cur as int).2 == attr_scan(s@, p as int).2,
        decreases s.len() - cur,
    {
        let ghost mid = models(out@);
        let q = skip_ws_at(s, cur);
        if q < s.len() && s[q] == '>' {
            emit(out, Token::GT);
            assert(models(out@) =~= before + attr_scan(s@, p as int).0);
            return (q + 1, TagEnd::Open);
        }
        if q < s.len() && q + 1 < s.len() && s[q] == '/' && s[q + 1] == '>' {
            emit(out, Token::SlashGT);
            assert(models(out@) =~= before + attr_scan(s@, p as int).0);
            return (q + 2, TagEnd::SelfClosing);
        }
        let e = ident_end_at(s, q);
        if e == q {
            assert(models(out@) =~= before + attr_scan(s@, p as int).0);
            return (q, TagEnd::Cut);
        }
        emit(out, Token::Ident(substring(s, q, e)));
        let next = value_at(s, e, out);
        assert(models(out@) =~= mid + seq![TokenModel::Ident(s@.subrange(q as int, e as int))]
            + attr_value(s@, e as int).0);
        cur = next;
    }
}

fn tag_at(s: &Vec<char>, pos: usize, opens: usize, closes: usize, out: &mut Vec<Token>) -> (r: (
    usize,
    usize,
    usize,
))
    requires
        pos < s.len(),
        s@[pos as int] == '<',
        opens + closes <= pos,
    ensures
        models(final(out)@) == models(old(out)@) + tag_step(
            s@,
            pos as int,
            opens - closes,
        ).0,
        r.0 == tag_step(s@, pos as int, opens - closes).1,
        r.1 - r.2 == tag_step(s@, pos as int, opens - closes).2,
        r.1 + r.2 <= r.0,
        pos < r.0 <= s.len(),
{
    let ghost before = models(out@);
    let ghost depth = opens - closes;
    emit(out, Token::LT);
    let after_lt = pos + 1;
    let closing = after_lt < s.len() && s[after_lt] == '/';
    let mut name_at = after_lt;
    if closing {
        emit(out, Token::Slash);
        name_at = after_lt + 1;
    }
    let q = skip_ws_at(s, name_at);
    let e = ident_end_at(s, q);
    if e > q {
        emit(out, Token::Ident(substring(s, q, e)));
    }
    let ghost head = models(out@);
    assert(head =~= before + tag_step(s@, pos as int, depth).0.take(head.len() - before.len()))
        by {
        let h = seq![TokenModel::LT] + (if closing {
            seq![TokenModel::Slash]
        } else {
            Seq::empty()
        }) + (if e > q {
            seq![TokenModel::Ident(s@.subrange(q as int, e as int))]
        } else {
            Seq::empty()
        });
        assert(head =~= before + h);
    };
    if closing {
        let g = skip_ws_at(s, e);
        if g < s.len() && s[g] == '>' {
            emit(out, Token::GT);
            assert(models(out@) =~= before + tag_step(s@, pos as int, depth).0);
            return (g + 1, opens, closes + 1);
        }
        assert(models(out@) =~= before + tag_step(s@, pos as int, depth).0);
        return (g, opens, closes);
    }
    let at = attrs_at(s, e, out);
    let p2 = at.0;
    let mut o = opens;
    if matches!(at.1, TagEnd::Open) {
        o = opens + 1;
    }
    if !matches!(at.1, TagEnd::SelfClosing) && o > closes {
        let te = text_end_at(s, p2);
        let t = trimmed_at(s, p2, te);
        if t.unicode_len() > 0 {
            emit(out, Token::Text(t));
        }
        assert(models(out@) =~= before + tag_step(s@, pos as int, depth).0);
        (te, o, closes)
    } else {
        assert(models(out@) =~= before + tag_step(s@, pos as int, depth).0);
        (p2, o, closes)
    }
}

fn punct_at(c: char) -> (r: Option<Token>)
    ensures
        r is Some <==> punct(c) is Some,
        r is Some ==> r->0@ == punct(c)->0,
{
    if c == '}' {
        Some(Token::RBrace)
    } else if c == ':' {
        Some(Token::Colon)
    } else if c == ',' {
        Some(Token::Comma)
    } else if c == '(' {
        Some(Token::LParen)
    } else if c == ')' {
        Some(Token::RParen)
    } else if c == ';' {
        Some(Token::SemiColon)
    } else if c == '+' {
        Some(Token::Plus)
    } else if c == '-' {
        Some(Token::Minus)
    } else if c == '*' {
        Some(Token::Star)
    } else {
        None
    }
}

fn word_at(s: &Vec<char>, lo: usize, hi: usize) -> (r: Token)
    requires
        lo <= hi <= s.len(),
    ensures
        r@ == keyword(s@.subrange(lo as int, hi as int)),
{
    if spells(s, lo, hi, "import") {
        Token::Import
    } else if spells(s, lo, hi, "from") {
        Token::From
    } else if spells(s, lo, hi, "page") {
        Token::Page
    } else if spells(s, lo, hi, "layout") {
        Token::Layout
    } else if spells(s, lo, hi, "render") {
        Token::Render
    } else if spells(s, lo, hi, "functions") {
        Token::Functions
    } else {
        Token::Ident(substring(s, lo, hi))
    }
}

fn step_at(s: &Vec<char>, pos: usize, opens: usize, closes: usize, out: &mut Vec<Token>) -> (r: (
    usize,
    usize,
    usize,
))
    requires
        pos < s.len(),
        opens + closes <= pos,
    ensures
        models(final(out)@) == models(old(out)@) + step(s@, pos as int, opens - closes).0,
        r.0 == step(s@, pos as int, opens - closes).1,
        r.1 - r.2 == step(s@, pos as int, opens - closes).2,
        r.1 + r.2 <= r.0,
        pos < r.0 <= s.len(),
{
    reveal(step);
    let ghost before = models(out@);
    let ghost depth = opens - closes;
    let c = s[pos];
    if crate::text::white(c) {
        assert(models(out@) =~= before + step(s@, pos as int, depth).0);
        return (pos + 1, opens, closes);
    }
    if c == '=' && pos + 1 < s.len() && s[pos + 1] == '>' {
        emit(out, Token::Arrow);
        assert(models(out@) =~= before + step(s@, pos as int, depth).0);
        return (pos + 2, opens, closes);
    }
    if c == '=' {
        emit(out, Token::EQ);
        assert(models(out@) =~= before + step(s@, pos as int, depth).0);
        return (pos + 1, opens, closes);
    }
    if c == '{' {
        if opens > closes {
            let j = skip_ws_at(s, pos + 1);
            if j < s.len() && (letter(s[j]) || s[j] == '_') {
                let n = emit_expr(s, pos, out);
                return (n, opens, closes);
            }
        }
        emit(out, Token::LBrace);
        assert(models(out@) =~= before + step(s@, pos as int, depth).0);
        return (pos + 1, opens, closes);
    }
    if let Some(t) = punct_at(c) {
        emit(out, t);
        assert(models(out@) =~= before + step(s@, pos as int, depth).0);
        return (pos + 1, opens, closes);
    }
    if c == '<' {
        return tag_at(s, pos, opens, closes, out);
    }
    if c == '"' {
        let qe = quote_end_at(s, pos + 1);
        emit(out, Token::StringLiteral(substring(s, pos + 1, qe)));
        assert(models(out@) =~= before + step(s@, pos as int, depth).0);
        if qe < s.len() {
            return (qe + 1, opens, closes);
        } else {
            return (s.len(), opens, closes);
        }
    }
    if digit(c) {
        let e = number_end_at(s, pos + 1);
        emit(out, Token::Number(substring(s, pos, e)));
        assert(models(out@) =~= before + step(s@, pos as int, depth).0);
        return (e, opens, closes);
    }
    if letter(c) || c == '_' {
        let e = ident_end_at(s, pos + 1);
        emit(out, word_at(s, pos, e));
        assert(models(out@) =~= before + step(s@, pos as int, depth).0);
        return (e, opens, closes);
    }
    assert(models(out@) =~= before + step(s@, pos as int, depth).0);
    (pos + 1, opens, closes)
}

/// A lexer over one source text.
pub struct Lexer {
    chars: Vec<char>,
}

impl View for Lexer {
    type V = Seq<char>;

    closed spec fn view(&self) -> Seq<char> {
        self.chars@
    }
}

impl Lexer {
    /// A lexer for `src`.
    pub fn new(src: &str) -> (r: Lexer)
        ensures
            r@ == src@,
    {
        Lexer { chars: chars_of(src) }
    }

    /// The tokens of the source, in order, ending in exactly one `EOF`.
    pub fn tokenize(self) -> (r: Vec<Token>)
        ensures
            models(r@) == lex(self@),
    {
        let s = &self.chars;
        let mut out: Vec<Token> = Vec::new();
        let mut pos: usize = 0;
        let mut opens: usize = 0;
        let mut closes: usize = 0;
        assert(models(out@) =~= Seq::<TokenModel>::empty());
        while pos < s.len()
            invariant
                pos <= s.len(),
                opens + closes <= pos,
                models(out@) + lex_from(s@, pos as int, opens - closes) == lex(s@),
            decreases s.len() - pos,
        {
            let ghost mid = models(out@);
            let r = step_at(s, pos, opens, closes, &mut out);
            assert(models(out@) + lex_from(s@, r.0 as int, r.1 - r.2) =~= mid + lex_from(
                s@,
                pos as int,
                opens - closes,
            ));
            pos = r.0;
            opens = r.1;
            closes = r.2;
        }
        emit(&mut out, Token::EOF);
        out
    }

    /// The tokens of the source with their spans: `spans[i]` is the span of `tokens[i]`.
    pub fn tokenize_with_spans(self) -> (r: (Vec<Token>, Vec<Span>))
        requires
            self@.len() < usize::MAX,
        ensures
            models(r.0@) == lex(self@),
            r.1@ == lex_spans(self@),
    {
        let s = &self.chars;
        let mut out: Vec<Token> = Vec::new();
        let mut spans: Vec<Span> = Vec::new();
        let mut pos: usize = 0;
        let mut opens: usize = 0;
        let mut closes: usize = 0;
        let mut t = LineTracker::new();
        assert(models(out@) =~= Seq::<TokenModel>::empty());
        assert(s@.take(0) =~= Seq::<char>::empty());
        while pos < s.len()
            invariant
                pos <= s.len() < usize::MAX,
                opens + closes <= pos,
                models(out@) + lex_from(s@, pos as int, opens - closes) == lex(s@),
                spans@ + lex_spans_from(s@, pos as int, opens - closes) == lex_spans(s@),
                (t.line as int, t.column as int) == position_after(s@.take(pos as int)),
                t.line + t.column <= pos + 1,
            decreases s.len() - pos,
        {
            let ghost mid = models(out@);
            let ghost smid = spans@;
            let before = out.len();
            let start = Span { start_line: t.line, start_column: t.column, end_line: 0, end_column: 0 };
            let r = step_at(s, pos, opens, closes, &mut out);
            advance_to(s, &mut t, pos, r.0);
            let span = Span {
                start_line: start.start_line,
                start_column: start.start_column,
                end_line: t.line,
                end_column: t.column,
            };
            let ghost st = step(s@, pos as int, opens - closes);
            assert(span == span_between(s@, pos as int, r.0 as int));
            assert(out@.len() == before + st.0.len()) by {
                assert(models(out@).len() == out@.len());
                assert(mid.len() == before);
            };
            let mut k = before;
            while k < out.len()
                invariant
                    before <= k <= out@.len(),
                    spans@ == smid + Seq::new((k - before) as nat, |i: int| span),
                decreases out.len() - k,
            {
                spans.push(span);
                k = k + 1;
                assert(spans@ =~= smid + Seq::new((k - before) as nat, |i: int| span));
            }
            assert(Seq::new((k - before) as nat, |i: int| span) =~= Seq::new(st.0.len(), |i: int| span_between(s@, pos as int, st.1)));
            assert(models(out@) + lex_from(s@, r.0 as int, r.1 - r.2) =~= mid + lex_from(
                s@,
                pos as int,
                opens - closes,
            ));
            assert(spans@ + lex_spans_from(s@, r.0 as int, r.1 - r.2) =~= smid + lex_spans_from(
                s@,
                pos as int,
                opens - closes,
            ));
            pos = r.0;
            opens = r.1;
            closes = r.2;
        }
        emit(&mut out, Token::EOF);
        let end = Span { start_line: t.line, start_column: t.column, end_line: t.line, end_column: t.column };
        assert(s@.take(s@.len() as int) =~= s@);
        spans.push(end);
        assert(spans@ =~= lex_spans(s@));
        (out, spans)
    }

    /// The number of characters of the source.
    pub fn len(&self) -> (r: usize)
        ensures
            r == self@.len(),
    {
        self.chars.len()
    }
}

} // verus!
