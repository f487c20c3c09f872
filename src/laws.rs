//! Properties of the front end that relate several of its functions or hold of all inputs.

use vstd::prelude::*;
use crate::token::{TokenModel, render};
use crate::ast::NodeModel;
use crate::grammar::{Failure, node, children, attr_list, peek, mismatch_message, mismatch_suggestion};
use crate::lower::{lower, lower_all, splice};
use crate::text::{is_white, is_ascii_letter, is_digit};
use crate::scan::{is_ident_char, ident_end, quote_end, text_end, skip_ws, trimmed, trim_lo, trim_hi, trim};
use crate::lexer::{lex, lex_from, step, tag_step, attr_scan, attr_value, TagEnd};
use crate::grammar::markup;

verus! {

/// Whether `part` occurs in `whole`.
pub open spec fn mentions(whole: Seq<char>, part: Seq<char>) -> bool {
    exists|i: int| 0 <= i <= whole.len() - part.len() && #[trigger] whole.subrange(i, i + part.len()) == part
}

/// Lowering a fragment whose only child is a fragment gives what lowering the inner
/// fragment gives: fragments are flattened in one pass.
pub proof fn lemma_nested_fragment_lowers_flat(ns: Seq<NodeModel>)
    ensures
        lower(NodeModel::Fragment(seq![NodeModel::Fragment(ns)])) == lower(NodeModel::Fragment(ns)),
{
    let inner = NodeModel::Fragment(ns);
    let s = seq![inner];
    assert(s.drop_last() =~= Seq::<NodeModel>::empty());
    assert(lower_all(s) == lower_all(Seq::<NodeModel>::empty()) + splice(lower(inner)));
    assert(lower_all(s) =~= lower_all(ns));
}

/// Whether no node of a sequence is a fragment.
pub open spec fn fragment_free(s: Seq<NodeModel>) -> bool {
    forall|i: int| 0 <= i < s.len() ==> !(#[trigger] s[i] is Fragment)
}

/// A lowered node contributes no fragment to its parent.
pub proof fn lemma_splice_fragment_free(n: NodeModel)
    ensures
        fragment_free(splice(lower(n))),
    decreases n, 1int,
{
    match n {
        NodeModel::Fragment(cs) => {
            lemma_lower_all_fragment_free(cs);
        },
        _ => {},
    }
}

/// The lowered children of any node hold no fragment, at any depth of splicing.
pub proof fn lemma_lower_all_fragment_free(s: Seq<NodeModel>)
    ensures
        fragment_free(lower_all(s)),
    decreases s, 0int,
{
    if s.len() > 0 {
        lemma_lower_all_fragment_free(s.drop_last());
        lemma_splice_fragment_free(s.last());
        let a = lower_all(s.drop_last());
        let b = splice(lower(s.last()));
        assert forall|i: int| 0 <= i < (a + b).len() implies !(#[trigger] (a + b)[i] is Fragment) by {
            if i < a.len() {
                assert((a + b)[i] == a[i]);
            } else {
                assert((a + b)[i] == b[i - a.len()]);
            }
        };
    }
}

/// An element `<a>` closed by `</b>` with `b` another name fails with a parser error whose
/// message names both tags, whatever follows.
pub proof fn lemma_mismatched_tags_are_reported(a: Seq<char>, b: Seq<char>, rest: Seq<TokenModel>)
    requires
        a != b,
    ensures
        ({
            let t = seq![
                TokenModel::LT,
                TokenModel::Ident(a),
                TokenModel::GT,
                TokenModel::LT,
                TokenModel::Slash,
                TokenModel::Ident(b),
                TokenModel::GT,
            ] + rest;
            &&& node(t, 0) == Err::<(NodeModel, int), Failure>(
                Failure::Syntax {
                    at: 5,
                    message: mismatch_message(a, b),
                    suggestion: Some(mismatch_suggestion(a)),
                },
            )
            &&& mentions(mismatch_message(a, b), a)
            &&& mentions(mismatch_message(a, b), b)
        }),
{
    let t = seq![
        TokenModel::LT,
        TokenModel::Ident(a),
        TokenModel::GT,
        TokenModel::LT,
        TokenModel::Slash,
        TokenModel::Ident(b),
        TokenModel::GT,
    ] + rest;
    assert(peek(t, 0) == TokenModel::LT);
    assert(peek(t, 1) == TokenModel::Ident(a));
    assert(peek(t, 2) == TokenModel::GT);
    assert(peek(t, 3) == TokenModel::LT);
    assert(peek(t, 4) == TokenModel::Slash);
    assert(peek(t, 5) == TokenModel::Ident(b));
    assert(attr_list(t, 2) == Ok::<(Seq<(Seq<char>, Seq<char>)>, int), Failure>((Seq::empty(), 2)));
    let m = mismatch_message(a, b);
    let p1 = "Mismatched closing tag: expected </"@;
    let p2 = ">, found </"@;
    let i = p1.len() as int;
    let j = (p1.len() + a.len() + p2.len()) as int;
    assert(m.subrange(i, i + a.len()) =~= a);
    assert(m.subrange(j, j + b.len()) =~= b);
    assert(mentions(m, a));
    assert(mentions(m, b));
    assert(children(t, 3, a) == Err::<(Seq<NodeModel>, int), Failure>(
        Failure::Syntax { at: 5, message: m, suggestion: Some(mismatch_suggestion(a)) },
    ));
}

/// A tag or attribute name: ASCII letters, digits and underscores, at least one.
pub open spec fn is_name(w: Seq<char>) -> bool {
    w.len() > 0 && forall|i: int| 0 <= i < w.len() ==> (is_ascii_letter(#[trigger] w[i]) || is_digit(w[i])
        || w[i] == '_')
}

/// Text that stands between tags as it is: not empty, without `<` or `{`, and without
/// whitespace at either end.
pub open spec fn is_plain_text(x: Seq<char>) -> bool {
    x.len() > 0 && !is_white(x[0]) && !is_white(x[x.len() - 1]) && forall|i: int|
        0 <= i < x.len() ==> #[trigger] x[i] != '<' && x[i] != '{'
}

/// An attribute value between double quotes: no double quote in it.
pub open spec fn is_quoted_value(v: Seq<char>) -> bool {
    forall|i: int| 0 <= i < v.len() ==> #[trigger] v[i] != '"'
}

proof fn lemma_ident_run(s: Seq<char>, i: int, n: int)
    requires
        0 <= i,
        0 <= n,
        i + n < s.len(),
        forall|k: int| i <= k < i + n ==> is_ident_char(#[trigger] s[k]),
        !is_ident_char(s[i + n]),
    ensures
        ident_end(s, i) == i + n,
    decreases n,
{
    if n > 0 {
        lemma_ident_run(s, i + 1, n - 1);
    }
}

proof fn lemma_quote_run(s: Seq<char>, i: int, n: int)
    requires
        0 <= i,
        0 <= n,
        i + n < s.len(),
        forall|k: int| i <= k < i + n ==> #[trigger] s[k] != '"',
        s[i + n] == '"',
    ensures
        quote_end(s, i) == i + n,
    decreases n,
{
    if n > 0 {
        lemma_quote_run(s, i + 1, n - 1);
    }
}

proof fn lemma_text_run(s: Seq<char>, i: int, n: int)
    requires
        0 <= i,
        0 <= n,
        i + n < s.len(),
        forall|k: int| i <= k < i + n ==> #[trigger] s[k] != '<' && s[k] != '{',
        s[i + n] == '<',
    ensures
        text_end(s, i) == i + n,
    decreases n,
{
    if n > 0 {
        lemma_text_run(s, i + 1, n - 1);
    }
}

proof fn lemma_name_chars(w: Seq<char>, i: int)
    requires
        is_name(w),
        0 <= i < w.len(),
    ensures
        is_ident_char(w[i]),
        !is_white(w[i]),
        w[i] != '/' && w[i] != '>' && w[i] != '<' && w[i] != '"',
{
    assert(is_ascii_letter(w[i]) || is_digit(w[i]) || w[i] == '_');
}

proof fn lemma_plain_text_trimmed(s: Seq<char>, a: int, b: int)
    requires
        0 <= a < b <= s.len(),
        !is_white(s[a]),
        !is_white(s[b - 1]),
    ensures
        trimmed(s, a, b) == s.subrange(a, b),
{
}

proof fn lemma_plain_text_trim(x: Seq<char>)
    requires
        x.len() > 0,
        !is_white(x[0]),
        !is_white(x[x.len() - 1]),
    ensures
        trim(x) == x,
{
    assert(trim_lo(x, 0, x.len() as int) == 0);
    assert(trim_hi(x, 0, x.len() as int) == x.len());
    assert(x.subrange(0, x.len() as int) =~= x);
}

/// The tokens of a closing tag `</name>` that starts at `p` and ends the input.
proof fn lemma_lex_closing(s: Seq<char>, p: int, name: Seq<char>, depth: int)
    requires
        is_name(name),
        0 <= p,
        s.len() == p + 3 + name.len(),
        s[p] == '<',
        s[p + 1] == '/',
        s.subrange(p + 2, p + 2 + name.len()) == name,
        s[p + 2 + name.len()] == '>',
    ensures
        lex_from(s, p, depth) == seq![
            TokenModel::LT,
            TokenModel::Slash,
            TokenModel::Ident(name),
            TokenModel::GT,
            TokenModel::EOF,
        ],
{
    let a = name.len() as int;
    assert forall|k: int| p + 2 <= k < p + 2 + a implies is_ident_char(#[trigger] s[k]) by {
        assert(s[k] == s.subrange(p + 2, p + 2 + a)[k - p - 2]);
        lemma_name_chars(name, k - p - 2);
    };
    assert(s[p + 2] == name[0]);
    lemma_name_chars(name, 0);
    lemma_ident_run(s, p + 2, a);
    assert(skip_ws(s, p + 2) == p + 2);
    assert(skip_ws(s, p + 2 + a) == p + 2 + a);
    reveal(step);
    let st = tag_step(s, p, depth);
    assert(st.0 =~= seq![TokenModel::LT, TokenModel::Slash, TokenModel::Ident(name), TokenModel::GT]);
    assert(st.1 == s.len());
    assert(step(s, p, depth) == st);
    assert(lex_from(s, s.len() as int, depth - 1) == seq![TokenModel::EOF]);
    assert(lex_from(s, p, depth) =~= st.0 + seq![TokenModel::EOF]);
}

/// The source `<tag attr="v">text</tag>`.
pub open spec fn element_source(tag: Seq<char>, attr: Seq<char>, v: Seq<char>, text: Seq<char>) -> Seq<char> {
    seq!['<'] + tag + seq![' '] + attr + seq!['=', '"'] + v + seq!['"', '>'] + text + seq!['<', '/'] + tag
        + seq!['>']
}

proof fn lemma_step_open_element(s: Seq<char>, tag: Seq<char>, attr: Seq<char>, v: Seq<char>, text: Seq<char>)
    requires
        is_name(tag),
        is_name(attr),
        text.len() > 0,
        ({
            let a = tag.len() as int;
            let e2 = 2 + a + attr.len();
            let t0 = e2 + 4 + v.len();
            let p = t0 + text.len();
            &&& s.len() > p
            &&& s[0] == '<'
            &&& s.subrange(1, 1 + a) == tag
            &&& s[1 + a] == ' '
            &&& s.subrange(2 + a, e2) == attr
            &&& s[e2] == '='
            &&& s[e2 + 1] == '"'
            &&& s.subrange(e2 + 2, e2 + 2 + v.len()) == v
            &&& (forall|k: int| e2 + 2 <= k < e2 + 2 + v.len() ==> #[trigger] s[k] != '"')
            &&& s[t0 - 2] == '"'
            &&& s[t0 - 1] == '>'
            &&& s.subrange(t0, p) == text
            &&& (forall|k: int| t0 <= k < p ==> #[trigger] s[k] != '<' && s[k] != '{')
            &&& !is_white(s[t0])
            &&& !is_white(s[p - 1])
            &&& s[p] == '<'
        }),
    ensures
        step(s, 0, 0) == (
            seq![
                TokenModel::LT,
                TokenModel::Ident(tag),
                TokenModel::Ident(attr),
                TokenModel::EQ,
                TokenModel::StringLiteral(v),
                TokenModel::GT,
                TokenModel::Text(text),
            ],
            (6 + tag.len() + attr.len() + v.len() + text.len()) as int,
            1int,
        ),
{
    let a = tag.len() as int;
    let b = attr.len() as int;
    let c = v.len() as int;
    let e2 = 2 + a + b;
    let t0 = e2 + 4 + c;
    let p = t0 + text.len();
    assert forall|k: int| 1 <= k < 1 + a implies is_ident_char(#[trigger] s[k]) by {
        assert(s[k] == s.subrange(1, 1 + a)[k - 1]);
        lemma_name_chars(tag, k - 1);
    };
    assert forall|k: int| 2 + a <= k < e2 implies is_ident_char(#[trigger] s[k]) by {
        assert(s[k] == s.subrange(2 + a, e2)[k - 2 - a]);
        lemma_name_chars(attr, k - 2 - a);
    };
    assert(s[1] == tag[0]);
    assert(s[2 + a] == attr[0]);
    lemma_name_chars(tag, 0);
    lemma_name_chars(attr, 0);
    lemma_ident_run(s, 1, a);
    lemma_ident_run(s, 2 + a, b);
    lemma_quote_run(s, e2 + 2, c);
    lemma_text_run(s, t0, text.len() as int);
    assert(skip_ws(s, 1) == 1);
    assert(skip_ws(s, 2 + a) == 2 + a);
    assert(skip_ws(s, 1 + a) == 2 + a);
    assert(skip_ws(s, e2) == e2);
    assert(skip_ws(s, e2 + 1) == e2 + 1);
    assert(skip_ws(s, t0 - 1) == t0 - 1);
    assert(attr_value(s, e2) == (seq![TokenModel::EQ, TokenModel::StringLiteral(v)], t0 - 1));
    assert(attr_scan(s, t0 - 1) == (seq![TokenModel::GT], t0, TagEnd::Open));
    assert(attr_scan(s, 1 + a).0 =~= seq![TokenModel::Ident(attr), TokenModel::EQ, TokenModel::StringLiteral(v), TokenModel::GT]);
    assert(attr_scan(s, 1 + a).1 == t0);
    assert(attr_scan(s, 1 + a).2 == TagEnd::Open);
    lemma_plain_text_trimmed(s, t0, p);
    reveal(step);
    let st = tag_step(s, 0, 0);
    assert(st.0 =~= seq![
        TokenModel::LT,
        TokenModel::Ident(tag),
        TokenModel::Ident(attr),
        TokenModel::EQ,
        TokenModel::StringLiteral(v),
        TokenModel::GT,
        TokenModel::Text(text),
    ]);
}

#[verifier::rlimit(50)]
proof fn lemma_element_source_layout(tag: Seq<char>, attr: Seq<char>, v: Seq<char>, text: Seq<char>)
    requires
        is_quoted_value(v),
        is_plain_text(text),
    ensures
        ({
            let s = element_source(tag, attr, v, text);
            let a = tag.len() as int;
            let e2 = 2 + a + attr.len();
            let t0 = e2 + 4 + v.len();
            let p = t0 + text.len();
            &&& s.len() == p + 3 + a
            &&& s[0] == '<'
            &&& s.subrange(1, 1 + a) == tag
            &&& s[1 + a] == ' '
            &&& s.subrange(2 + a, e2) == attr
            &&& s[e2] == '='
            &&& s[e2 + 1] == '"'
            &&& s.subrange(e2 + 2, e2 + 2 + v.len()) == v
            &&& (forall|k: int| e2 + 2 <= k < e2 + 2 + v.len() ==> #[trigger] s[k] != '"')
            &&& s[t0 - 2] == '"'
            &&& s[t0 - 1] == '>'
            &&& s.subrange(t0, p) == text
            &&& (forall|k: int| t0 <= k < p ==> #[trigger] s[k] != '<' && s[k] != '{')
            &&& !is_white(s[t0])
            &&& !is_white(s[p - 1])
            &&& s[p] == '<'
            &&& s[p + 1] == '/'
            &&& s.subrange(p + 2, p + 2 + a) == tag
            &&& s[p + 2 + a] == '>'
        }),
{
    let s = element_source(tag, attr, v, text);
    let a = tag.len() as int;
    let b = attr.len() as int;
    let c = v.len() as int;
    let e2 = 2 + a + b;
    let t0 = e2 + 4 + c;
    let p = t0 + text.len();
    let s1 = seq!['<'] + tag + seq![' '] + attr + seq!['=', '"'] + v + seq!['"', '>'];
    let s2 = text + seq!['<', '/'] + tag + seq!['>'];
    let d = text.len() as int;
    assert(s =~= s1 + s2);
    assert(s1.len() == t0);
    assert(s1.subrange(1, 1 + a) =~= tag);
    assert(s1.subrange(2 + a, e2) =~= attr);
    assert(s1.subrange(e2 + 2, e2 + 2 + c) =~= v);
    assert(s2.subrange(0, text.len() as int) =~= text);
    assert(s2.subrange(d + 2, d + 2 + a) =~= tag);
    assert(s.subrange(1, 1 + a) =~= s1.subrange(1, 1 + a));
    assert(s.subrange(2 + a, e2) =~= s1.subrange(2 + a, e2));
    assert(s.subrange(e2 + 2, e2 + 2 + c) =~= s1.subrange(e2 + 2, e2 + 2 + c));
    assert(s.subrange(t0, p) =~= s2.subrange(0, text.len() as int));
    assert(s.subrange(p + 2, p + 2 + a) =~= s2.subrange(d + 2, d + 2 + a));
    assert forall|k: int| e2 + 2 <= k < e2 + 2 + c implies #[trigger] s[k] != '"' by {
        assert(s[k] == s1[k]);
        assert(s1[k] == v[k - e2 - 2]);
    };
    assert forall|k: int| t0 <= k < p implies #[trigger] s[k] != '<' && s[k] != '{' by {
        assert(s[k] == s2[k - t0]);
        assert(s2[k - t0] == text[k - t0]);
    };
    assert(s[t0] == text[0]);
    assert(s[p - 1] == text[text.len() - 1]);
}

proof fn lemma_lex_element(tag: Seq<char>, attr: Seq<char>, v: Seq<char>, text: Seq<char>)
    requires
        is_name(tag),
        is_name(attr),
        is_quoted_value(v),
        is_plain_text(text),
    ensures
        lex(element_source(tag, attr, v, text)) == seq![
            TokenModel::LT,
            TokenModel::Ident(tag),
            TokenModel::Ident(attr),
            TokenModel::EQ,
            TokenModel::StringLiteral(v),
            TokenModel::GT,
            TokenModel::Text(text),
            TokenModel::LT,
            TokenModel::Slash,
            TokenModel::Ident(tag),
            TokenModel::GT,
            TokenModel::EOF,
        ],
{
    let s = element_source(tag, attr, v, text);
    let p = (6 + tag.len() + attr.len() + v.len() + text.len()) as int;
    lemma_element_source_layout(tag, attr, v, text);
    lemma_step_open_element(s, tag, attr, v, text);
    lemma_lex_closing(s, p, tag, 1);
    assert(lex_from(s, 0, 0) =~= step(s, 0, 0).0 + lex_from(s, p, 1));
}

/// An element with one quoted attribute and plain text, `<tag attr="v">text</tag>`, is
/// read as that one element with that attribute and one text child.
pub proof fn lemma_element_with_attribute_parses(tag: Seq<char>, attr: Seq<char>, v: Seq<char>, text: Seq<char>)
    requires
        is_name(tag),
        is_name(attr),
        is_quoted_value(v),
        is_plain_text(text),
    ensures
        markup(lex(element_source(tag, attr, v, text)), 0) == Ok::<Seq<NodeModel>, Failure>(
            seq![
                NodeModel::Element {
                    name: tag,
                    attrs: seq![(attr, v)],
                    children: seq![NodeModel::Text(text)],
                },
            ],
        ),
{
    lemma_lex_element(tag, attr, v, text);
    let t = lex(element_source(tag, attr, v, text));
    lemma_plain_text_trim(text);
    assert(peek(t, 2) == TokenModel::Ident(attr));
    assert(crate::grammar::attr_value(t, 3) == Ok::<(Seq<char>, int), Failure>((v, 5)));
    assert(attr_list(t, 5) == Ok::<(Seq<(Seq<char>, Seq<char>)>, int), Failure>((Seq::empty(), 5)));
    assert(attr_list(t, 2) == Ok::<(Seq<(Seq<char>, Seq<char>)>, int), Failure>((seq![(attr, v)], 5))) by {
        assert(seq![(attr, v)] + Seq::<(Seq<char>, Seq<char>)>::empty() =~= seq![(attr, v)]);
    };
    assert(children(t, 7, tag) == Ok::<(Seq<NodeModel>, int), Failure>((Seq::empty(), 11)));
    assert(children(t, 6, tag) == Ok::<(Seq<NodeModel>, int), Failure>((seq![NodeModel::Text(text)], 11))) by {
        assert(seq![NodeModel::Text(text)] + Seq::<NodeModel>::empty() =~= seq![NodeModel::Text(text)]);
    };
    let el = NodeModel::Element { name: tag, attrs: seq![(attr, v)], children: seq![NodeModel::Text(text)] };
    assert(node(t, 0) == Ok::<(NodeModel, int), Failure>((el, 11)));
    assert(markup(t, 11) == Ok::<Seq<NodeModel>, Failure>(Seq::empty()));
    assert(seq![el] + Seq::<NodeModel>::empty() =~= seq![el]);
}

proof fn lemma_blank_trimmed(s: Seq<char>, lo: int, hi: int)
    requires
        0 <= lo <= hi <= s.len(),
        forall|k: int| lo <= k < hi ==> is_white(#[trigger] s[k]),
    ensures
        trimmed(s, lo, hi).len() == 0,
    decreases hi - lo,
{
    if lo < hi {
        lemma_blank_trimmed(s, lo + 1, hi);
        assert(trim_lo(s, lo, hi) == trim_lo(s, lo + 1, hi));
    } else {
        assert(trim_lo(s, lo, hi) == hi);
        assert(trim_hi(s, hi, hi) == hi);
    }
}

proof fn lemma_blank_text_run(s: Seq<char>, i: int, n: int)
    requires
        0 <= i,
        0 <= n,
        i + n < s.len(),
        forall|k: int| i <= k < i + n ==> is_white(#[trigger] s[k]),
        s[i + n] == '<',
    ensures
        text_end(s, i) == i + n,
    decreases n,
{
    if n > 0 {
        assert(is_white(s[i]));
        lemma_blank_text_run(s, i + 1, n - 1);
    }
}

proof fn lemma_name_run(s: Seq<char>, p: int, name: Seq<char>)
    requires
        is_name(name),
        0 <= p,
        p + name.len() < s.len(),
        s.subrange(p, p + name.len()) == name,
        !is_ident_char(s[p + name.len()]),
    ensures
        ident_end(s, p) == p + name.len(),
        skip_ws(s, p) == p,
        s[p] != '/',
{
    let n = name.len() as int;
    assert forall|k: int| p <= k < p + n implies is_ident_char(#[trigger] s[k]) by {
        assert(s[k] == s.subrange(p, p + n)[k - p]);
        lemma_name_chars(name, k - p);
    };
    assert(s[p] == name[0]);
    lemma_name_chars(name, 0);
    lemma_ident_run(s, p, n);
}

/// The step at an opening tag `<name>` at `p` followed by blank text up to a `<` at `q`.
proof fn lemma_step_open_plain(s: Seq<char>, p: int, q: int, name: Seq<char>, depth: int)
    requires
        is_name(name),
        0 <= p,
        0 <= depth,
        p + 2 + name.len() <= q < s.len(),
        s[p] == '<',
        s.subrange(p + 1, p + 1 + name.len()) == name,
        s[p + 1 + name.len()] == '>',
        forall|k: int| p + 2 + name.len() <= k < q ==> is_white(#[trigger] s[k]),
        s[q] == '<',
    ensures
        step(s, p, depth) == (seq![TokenModel::LT, TokenModel::Ident(name), TokenModel::GT], q, depth + 1),
{
    let n = name.len() as int;
    lemma_name_run(s, p + 1, name);
    assert(skip_ws(s, p + 1 + n) == p + 1 + n);
    assert(attr_scan(s, p + 1 + n) == (seq![TokenModel::GT], p + 2 + n, TagEnd::Open));
    lemma_blank_text_run(s, p + 2 + n, q - (p + 2 + n));
    lemma_blank_trimmed(s, p + 2 + n, q);
    reveal(step);
    let st = tag_step(s, p, depth);
    assert(st.0 =~= seq![TokenModel::LT, TokenModel::Ident(name), TokenModel::GT]);
}

/// The step at a self-closing tag `<name/>` at `p`.
proof fn lemma_step_self_closing(s: Seq<char>, p: int, name: Seq<char>, depth: int)
    requires
        is_name(name),
        0 <= p,
        p + 3 + name.len() <= s.len(),
        s[p] == '<',
        s.subrange(p + 1, p + 1 + name.len()) == name,
        s[p + 1 + name.len()] == '/',
        s[p + 2 + name.len()] == '>',
    ensures
        step(s, p, depth) == (seq![TokenModel::LT, TokenModel::Ident(name), TokenModel::SlashGT], p + 3
            + name.len(), depth),
{
    let n = name.len() as int;
    lemma_name_run(s, p + 1, name);
    assert(skip_ws(s, p + 1 + n) == p + 1 + n);
    assert(attr_scan(s, p + 1 + n) == (seq![TokenModel::SlashGT], p + 3 + n, TagEnd::SelfClosing));
    reveal(step);
    let st = tag_step(s, p, depth);
    assert(st.0 =~= seq![TokenModel::LT, TokenModel::Ident(name), TokenModel::SlashGT]);
}

proof fn lemma_lex_step(s: Seq<char>, pos: int, depth: int, toks: Seq<TokenModel>, p: int, d: int)
    requires
        0 <= pos < p <= s.len(),
        step(s, pos, depth) == (toks, p, d),
    ensures
        lex_from(s, pos, depth) == toks + lex_from(s, p, d),
{
}

/// The source `<tag/>`.
pub open spec fn self_closing_source(tag: Seq<char>) -> Seq<char> {
    seq!['<'] + tag + seq!['/', '>']
}

/// The source `<tag></tag>`.
pub open spec fn empty_element_source(tag: Seq<char>) -> Seq<char> {
    seq!['<'] + tag + seq!['>', '<', '/'] + tag + seq!['>']
}

/// `<tag/>` and `<tag></tag>` are both read as the element `tag` with no attributes and no
/// children.
pub proof fn lemma_self_closing_equals_empty(tag: Seq<char>)
    requires
        is_name(tag),
    ensures
        markup(lex(self_closing_source(tag)), 0) == Ok::<Seq<NodeModel>, Failure>(
            seq![NodeModel::Element { name: tag, attrs: Seq::empty(), children: Seq::empty() }],
        ),
        markup(lex(empty_element_source(tag)), 0) == markup(lex(self_closing_source(tag)), 0),
{
    let n = tag.len() as int;
    let el = NodeModel::Element { name: tag, attrs: Seq::empty(), children: Seq::empty() };
    let a = self_closing_source(tag);
    assert(a.subrange(1, 1 + n) =~= tag);
    assert(a[1 + n] == '/' && a[2 + n] == '>' && a[0] == '<');
    lemma_step_self_closing(a, 0, tag, 0);
    lemma_lex_step(a, 0, 0, seq![TokenModel::LT, TokenModel::Ident(tag), TokenModel::SlashGT], 3 + n, 0);
    let ta = lex(a);
    assert(ta =~= seq![TokenModel::LT, TokenModel::Ident(tag), TokenModel::SlashGT, TokenModel::EOF]);
    assert(attr_list(ta, 2) == Ok::<(Seq<(Seq<char>, Seq<char>)>, int), Failure>((Seq::empty(), 2)));
    assert(node(ta, 0) == Ok::<(NodeModel, int), Failure>((el, 3)));
    assert(markup(ta, 3) == Ok::<Seq<NodeModel>, Failure>(Seq::empty()));
    assert(seq![el] + Seq::<NodeModel>::empty() =~= seq![el]);

    let b = empty_element_source(tag);
    assert(b.subrange(1, 1 + n) =~= tag);
    assert(b.subrange(n + 4, 2 * n + 4) =~= tag);
    assert(b[0] == '<' && b[1 + n] == '>' && b[2 + n] == '<' && b[3 + n] == '/' && b[2 * n + 4] == '>');
    lemma_step_open_plain(b, 0, 2 + n, tag, 0);
    lemma_lex_step(b, 0, 0, seq![TokenModel::LT, TokenModel::Ident(tag), TokenModel::GT], 2 + n, 1);
    lemma_lex_closing(b, 2 + n, tag, 1);
    let tb = lex(b);
    assert(tb =~= seq![
        TokenModel::LT,
        TokenModel::Ident(tag),
        TokenModel::GT,
        TokenModel::LT,
        TokenModel::Slash,
        TokenModel::Ident(tag),
        TokenModel::GT,
        TokenModel::EOF,
    ]);
    assert(attr_list(tb, 2) == Ok::<(Seq<(Seq<char>, Seq<char>)>, int), Failure>((Seq::empty(), 2)));
    assert(children(tb, 3, tag) == Ok::<(Seq<NodeModel>, int), Failure>((Seq::empty(), 7)));
    assert(node(tb, 0) == Ok::<(NodeModel, int), Failure>((el, 7)));
    assert(markup(tb, 7) == Ok::<Seq<NodeModel>, Failure>(Seq::empty()));
}

/// Whether every character of `w` is whitespace.
pub open spec fn is_blank(w: Seq<char>) -> bool {
    forall|i: int| 0 <= i < w.len() ==> is_white(#[trigger] w[i])
}

/// The source `<a>w<b/></a>`.
pub open spec fn blank_then_child_source(a: Seq<char>, w: Seq<char>, b: Seq<char>) -> Seq<char> {
    seq!['<'] + a + seq!['>'] + w + seq!['<'] + b + seq!['/', '>', '<', '/'] + a + seq!['>']
}

/// Blank text between tags produces no node: `<a>w<b/></a>` with `w` all whitespace has
/// exactly one child, the element `b`.
pub proof fn lemma_blank_text_is_dropped(a: Seq<char>, w: Seq<char>, b: Seq<char>)
    requires
        is_name(a),
        is_name(b),
        is_blank(w),
    ensures
        markup(lex(blank_then_child_source(a, w, b)), 0) == Ok::<Seq<NodeModel>, Failure>(
            seq![
                NodeModel::Element {
                    name: a,
                    attrs: Seq::empty(),
                    children: seq![NodeModel::Element { name: b, attrs: Seq::empty(), children: Seq::empty() }],
                },
            ],
        ),
{
    let s = blank_then_child_source(a, w, b);
    let n = a.len() as int;
    let m = w.len() as int;
    let k = b.len() as int;
    let q = 2 + n + m;
    let r = q + 3 + k;
    assert(s.len() == r + 3 + n);
    assert(s.subrange(1, 1 + n) =~= a);
    assert(s.subrange(q + 1, q + 1 + k) =~= b);
    assert(s.subrange(r + 2, r + 2 + n) =~= a);
    assert(s[0] == '<' && s[1 + n] == '>' && s[q] == '<' && s[q + 1 + k] == '/' && s[q + 2 + k] == '>');
    assert(s[r] == '<' && s[r + 1] == '/' && s[r + 2 + n] == '>');
    assert forall|j: int| 2 + n <= j < q implies is_white(#[trigger] s[j]) by {
        assert(s[j] == w[j - 2 - n]);
    };
    lemma_step_open_plain(s, 0, q, a, 0);
    lemma_step_self_closing(s, q, b, 1);
    lemma_lex_step(s, 0, 0, seq![TokenModel::LT, TokenModel::Ident(a), TokenModel::GT], q, 1);
    lemma_lex_step(s, q, 1, seq![TokenModel::LT, TokenModel::Ident(b), TokenModel::SlashGT], r, 1);
    lemma_lex_closing(s, r, a, 1);
    let t = lex(s);
    assert(t =~= seq![
        TokenModel::LT,
        TokenModel::Ident(a),
        TokenModel::GT,
        TokenModel::LT,
        TokenModel::Ident(b),
        TokenModel::SlashGT,
        TokenModel::LT,
        TokenModel::Slash,
        TokenModel::Ident(a),
        TokenModel::GT,
        TokenModel::EOF,
    ]);
    let inner = NodeModel::Element { name: b, attrs: Seq::empty(), children: Seq::empty() };
    let outer = NodeModel::Element { name: a, attrs: Seq::empty(), children: seq![inner] };
    assert(attr_list(t, 2) == Ok::<(Seq<(Seq<char>, Seq<char>)>, int), Failure>((Seq::empty(), 2)));
    assert(attr_list(t, 5) == Ok::<(Seq<(Seq<char>, Seq<char>)>, int), Failure>((Seq::empty(), 5)));
    assert(node(t, 3) == Ok::<(NodeModel, int), Failure>((inner, 6)));
    assert(children(t, 6, a) == Ok::<(Seq<NodeModel>, int), Failure>((Seq::empty(), 10)));
    assert(children(t, 3, a) == Ok::<(Seq<NodeModel>, int), Failure>((seq![inner], 10))) by {
        assert(seq![inner] + Seq::<NodeModel>::empty() =~= seq![inner]);
    };
    assert(node(t, 0) == Ok::<(NodeModel, int), Failure>((outer, 10)));
    assert(markup(t, 10) == Ok::<Seq<NodeModel>, Failure>(Seq::empty()));
    assert(seq![outer] + Seq::<NodeModel>::empty() =~= seq![outer]);
}

/// The source `<a></b>`.
pub open spec fn mismatched_source(a: Seq<char>, b: Seq<char>) -> Seq<char> {
    seq!['<'] + a + seq!['>', '<', '/'] + b + seq!['>']
}

/// `<a></b>` with two different names fails with a parser error whose message names both.
pub proof fn lemma_mismatched_source_is_reported(a: Seq<char>, b: Seq<char>)
    requires
        is_name(a),
        is_name(b),
        a != b,
    ensures
        markup(lex(mismatched_source(a, b)), 0) == Err::<Seq<NodeModel>, Failure>(
            Failure::Syntax {
                at: 5,
                message: mismatch_message(a, b),
                suggestion: Some(mismatch_suggestion(a)),
            },
        ),
        mentions(mismatch_message(a, b), a),
        mentions(mismatch_message(a, b), b),
{
    let s = mismatched_source(a, b);
    let n = a.len() as int;
    let k = b.len() as int;
    assert(s.len() == 2 + n + 3 + k);
    assert(s.subrange(1, 1 + n) =~= a);
    assert(s.subrange(n + 4, n + 4 + k) =~= b);
    assert(s[0] == '<' && s[1 + n] == '>' && s[2 + n] == '<' && s[3 + n] == '/' && s[n + 4 + k] == '>');
    lemma_step_open_plain(s, 0, 2 + n, a, 0);
    lemma_lex_step(s, 0, 0, seq![TokenModel::LT, TokenModel::Ident(a), TokenModel::GT], 2 + n, 1);
    lemma_lex_closing(s, 2 + n, b, 1);
    let t = lex(s);
    assert(t =~= seq![
        TokenModel::LT,
        TokenModel::Ident(a),
        TokenModel::GT,
        TokenModel::LT,
        TokenModel::Slash,
        TokenModel::Ident(b),
        TokenModel::GT,
    ] + seq![TokenModel::EOF]);
    lemma_mismatched_tags_are_reported(a, b, seq![TokenModel::EOF]);
}

/// Keywords, structural punctuation and operators: the tokens whose written form, followed
/// by a space, is read back as the token outside markup.
pub open spec fn is_plain_token(t: TokenModel) -> bool {
    ||| t is Import
    ||| t is From
    ||| t is Page
    ||| t is Layout
    ||| t is Render
    ||| t is Functions
    ||| t is LBrace
    ||| t is RBrace
    ||| t is Colon
    ||| t is Comma
    ||| t is LParen
    ||| t is RParen
    ||| t is SemiColon
    ||| t is Plus
    ||| t is Minus
    ||| t is Star
    ||| t is EQ
    ||| t is Arrow
}

/// The written forms of tokens, each followed by a space.
pub open spec fn spaced_source(ts: Seq<TokenModel>) -> Seq<char>
    decreases ts.len(),
{
    if ts.len() == 0 {
        Seq::empty()
    } else {
        render(ts[0]) + seq![' '] + spaced_source(ts.drop_first())
    }
}

proof fn lemma_step_word(s: Seq<char>, p: int, w: Seq<char>)
    requires
        0 <= p,
        w.len() > 0,
        forall|i: int| 0 <= i < w.len() ==> is_ascii_letter(#[trigger] w[i]),
        p + w.len() < s.len(),
        s.subrange(p, p + w.len()) == w,
        s[p + w.len()] == ' ',
    ensures
        step(s, p, 0) == (seq![crate::lexer::keyword(w)], p + w.len(), 0int),
{
    let n = w.len() as int;
    assert forall|k: int| p <= k < p + n implies is_ident_char(#[trigger] s[k]) by {
        assert(s[k] == s.subrange(p, p + n)[k - p]);
        assert(is_ascii_letter(w[k - p]));
    };
    lemma_ident_run(s, p, n);
    assert(s[p] == w[0]);
    assert(is_ascii_letter(w[0]));
    reveal(step);
}

proof fn lemma_keyword_words()
    ensures
        crate::lexer::keyword("import"@) == TokenModel::Import,
        crate::lexer::keyword("from"@) == TokenModel::From,
        crate::lexer::keyword("page"@) == TokenModel::Page,
        crate::lexer::keyword("layout"@) == TokenModel::Layout,
        crate::lexer::keyword("render"@) == TokenModel::Render,
        crate::lexer::keyword("functions"@) == TokenModel::Functions,
{
    reveal_strlit("import");
    reveal_strlit("from");
    reveal_strlit("page");
    reveal_strlit("layout");
    reveal_strlit("render");
    reveal_strlit("functions");
    assert("import"@.len() == 6 && "from"@.len() == 4 && "page"@.len() == 4);
    assert("layout"@.len() == 6 && "render"@.len() == 6 && "functions"@.len() == 9);
    assert("from"@ != "import"@);
    assert("page"@[0] != "from"@[0]);
    assert("layout"@[0] != "import"@[0]);
    assert("render"@[0] != "import"@[0] && "render"@[0] != "layout"@[0]);
}

proof fn lemma_step_plain(s: Seq<char>, p: int, t: TokenModel)
    requires
        is_plain_token(t),
        0 <= p,
        p + render(t).len() < s.len(),
        s.subrange(p, p + render(t).len()) == render(t),
        s[p + render(t).len()] == ' ',
    ensures
        step(s, p, 0) == (seq![t], p + render(t).len(), 0int),
{
    let r = render(t);
    if t is Import || t is From || t is Page || t is Layout || t is Render || t is Functions {
        reveal_strlit("import");
        reveal_strlit("from");
        reveal_strlit("page");
        reveal_strlit("layout");
        reveal_strlit("render");
        reveal_strlit("functions");
        assert forall|i: int| 0 <= i < r.len() implies is_ascii_letter(#[trigger] r[i]) by {};
        lemma_step_word(s, p, r);
        lemma_keyword_words();
    } else {
        reveal_strlit("{");
        reveal_strlit("}");
        reveal_strlit(":");
        reveal_strlit(",");
        reveal_strlit("(");
        reveal_strlit(")");
        reveal_strlit(";");
        reveal_strlit("+");
        reveal_strlit("-");
        reveal_strlit("*");
        reveal_strlit("=");
        reveal_strlit("=>");
        assert(s[p] == r[0]);
        if t is Arrow {
            assert(s[p + 1] == r[1]);
        }
        reveal(step);
    }
}

proof fn lemma_lex_spaced(s: Seq<char>, p: int, ts: Seq<TokenModel>)
    requires
        0 <= p <= s.len(),
        s.subrange(p, s.len() as int) == spaced_source(ts),
        forall|i: int| 0 <= i < ts.len() ==> is_plain_token(#[trigger] ts[i]),
    ensures
        lex_from(s, p, 0) == ts + seq![TokenModel::EOF],
    decreases ts.len(),
{
    if ts.len() == 0 {
        assert(ts + seq![TokenModel::EOF] =~= seq![TokenModel::EOF]);
    } else {
        let t = ts[0];
        let r = render(t);
        let q = p + r.len();
        let rest = ts.drop_first();
        let tail = s.subrange(p, s.len() as int);
        assert(tail =~= r + seq![' '] + spaced_source(rest));
        assert(s.subrange(p, q) =~= tail.subrange(0, r.len() as int));
        assert(s.subrange(p, q) =~= r);
        assert(s[q] == tail[r.len() as int]);
        assert(tail.subrange(r.len() as int + 1, tail.len() as int) =~= spaced_source(rest));
        assert(s.subrange(q + 1, s.len() as int) =~= tail.subrange(r.len() as int + 1, tail.len() as int));
        assert(forall|i: int| 0 <= i < rest.len() ==> is_plain_token(#[trigger] rest[i])) by {
            assert forall|i: int| 0 <= i < rest.len() implies is_plain_token(#[trigger] rest[i]) by {
                assert(rest[i] == ts[i + 1]);
            };
        };
        lemma_step_plain(s, p, t);
        assert(r.len() > 0) by {
            reveal_strlit("import");
            reveal_strlit("from");
            reveal_strlit("page");
            reveal_strlit("layout");
            reveal_strlit("render");
            reveal_strlit("functions");
            reveal_strlit("{");
            reveal_strlit("}");
            reveal_strlit(":");
            reveal_strlit(",");
            reveal_strlit("(");
            reveal_strlit(")");
            reveal_strlit(";");
            reveal_strlit("+");
            reveal_strlit("-");
            reveal_strlit("*");
            reveal_strlit("=");
            reveal_strlit("=>");
        };
        lemma_lex_step(s, p, 0, seq![t], q, 0);
        assert(step(s, q, 0) == (Seq::<TokenModel>::empty(), q + 1, 0int)) by {
            reveal(step);
        };
        lemma_lex_step(s, q, 0, Seq::empty(), q + 1, 0);
        lemma_lex_spaced(s, q + 1, rest);
        assert(ts =~= seq![t] + rest);
        assert(lex_from(s, p, 0) =~= ts + seq![TokenModel::EOF]);
    }
}

/// Keywords and punctuation, each written out and followed by a space, are read back as
/// the same tokens, then the end of input.
pub proof fn lemma_plain_tokens_round_trip(ts: Seq<TokenModel>)
    requires
        forall|i: int| 0 <= i < ts.len() ==> is_plain_token(#[trigger] ts[i]),
    ensures
        lex(spaced_source(ts)) == ts + seq![TokenModel::EOF],
{
    let s = spaced_source(ts);
    assert(s.subrange(0, s.len() as int) =~= s);
    lemma_lex_spaced(s, 0, ts);
}

/// Whether no token of a sequence is `EOF`.
pub open spec fn eof_free(t: Seq<TokenModel>) -> bool {
    forall|i: int| 0 <= i < t.len() ==> !(#[trigger] t[i] is EOF)
}

proof fn lemma_eof_free_concat(a: Seq<TokenModel>, b: Seq<TokenModel>)
    requires
        eof_free(a),
        eof_free(b),
    ensures
        eof_free(a + b),
{
    assert forall|i: int| 0 <= i < (a + b).len() implies !(#[trigger] (a + b)[i] is EOF) by {
        if i < a.len() {
            assert((a + b)[i] == a[i]);
        } else {
            assert((a + b)[i] == b[i - a.len()]);
        }
    };
}

proof fn lemma_attr_scan_eof_free(s: Seq<char>, p: int)
    ensures
        eof_free(attr_scan(s, p).0),
    decreases s.len() - p,
{
    let q = skip_ws(s, p);
    if q < s.len() && s[q] == '>' {
    } else if q + 1 < s.len() && s[q] == '/' && s[q + 1] == '>' {
    } else {
        let e = ident_end(s, q);
        let value = attr_value(s, e);
        if e == q || value.1 <= p || value.1 > s.len() {
        } else {
            lemma_attr_scan_eof_free(s, value.1);
            let head = seq![TokenModel::Ident(s.subrange(q, e))] + value.0;
            assert(eof_free(head));
            lemma_eof_free_concat(head, attr_scan(s, value.1).0);
        }
    }
}

proof fn lemma_step_eof_free(s: Seq<char>, pos: int, depth: int)
    requires
        0 <= pos < s.len(),
    ensures
        eof_free(step(s, pos, depth).0),
{
    reveal(step);
    let after_lt = pos + 1;
    let closing = after_lt < s.len() && s[after_lt] == '/';
    let name_at = if closing { after_lt + 1 } else { after_lt };
    let e = ident_end(s, skip_ws(s, name_at));
    lemma_attr_scan_eof_free(s, e);
    let st = tag_step(s, pos, depth);
    assert(eof_free(st.0));
}

proof fn lemma_lex_from_one_eof(s: Seq<char>, pos: int, depth: int)
    ensures
        lex_from(s, pos, depth).len() > 0,
        lex_from(s, pos, depth).last() is EOF,
        eof_free(lex_from(s, pos, depth).drop_last()),
    decreases s.len() - pos,
{
    if pos < 0 || pos >= s.len() {
        assert(lex_from(s, pos, depth).drop_last() =~= Seq::<TokenModel>::empty());
    } else {
        let st = step(s, pos, depth);
        if pos < st.1 <= s.len() {
            lemma_step_eof_free(s, pos, depth);
            lemma_lex_from_one_eof(s, st.1, st.2);
            let rest = lex_from(s, st.1, st.2);
            lemma_eof_free_concat(st.0, rest.drop_last());
            assert((st.0 + rest).drop_last() =~= st.0 + rest.drop_last());
        } else {
            assert(lex_from(s, pos, depth).drop_last() =~= Seq::<TokenModel>::empty());
        }
    }
}

/// The tokens of any source end in `EOF`, and `EOF` occurs nowhere else.
pub proof fn lemma_lex_ends_in_one_eof(s: Seq<char>)
    ensures
        lex(s).len() > 0,
        lex(s).last() is EOF,
        forall|i: int| 0 <= i < lex(s).len() - 1 ==> !(#[trigger] lex(s)[i] is EOF),
{
    lemma_lex_from_one_eof(s, 0, 0);
    assert forall|i: int| 0 <= i < lex(s).len() - 1 implies !(#[trigger] lex(s)[i] is EOF) by {
        assert(lex(s)[i] == lex(s).drop_last()[i]);
    };
}

} // verus!
