//! Utility class names to CSS rules, and an accumulator of the class names a page uses.

use vstd::prelude::*;
use crate::text::{is_digit, digit, chars_of};
use crate::scan::substring;
use crate::ir::same_text;
use crate::ast::strings_model;
use crate::dom::decimal;

verus! {

/// The `display` rule of a class, if it names one.
pub open spec fn display_rule(c: Seq<char>) -> Option<Seq<char>> {
    if c == "flex"@ {
        Some("display: flex;"@)
    } else if c == "grid"@ {
        Some("display: grid;"@)
    } else if c == "block"@ {
        Some("display: block;"@)
    } else if c == "inline-block"@ {
        Some("display: inline-block;"@)
    } else if c == "inline"@ {
        Some("display: inline;"@)
    } else {
        None
    }
}

fn display_rule_of(c: &str) -> (r: Option<String>)
    ensures
        crate::ast::opt_string_model(r) == display_rule(c@),
{
    if same_text(c, "flex") {
        Some(String::from_str("display: flex;"))
    } else if same_text(c, "grid") {
        Some(String::from_str("display: grid;"))
    } else if same_text(c, "block") {
        Some(String::from_str("display: block;"))
    } else if same_text(c, "inline-block") {
        Some(String::from_str("display: inline-block;"))
    } else if same_text(c, "inline") {
        Some(String::from_str("display: inline;"))
    } else {
        None
    }
}

/// The `font-weight` rule of a class, if it names one.
pub open spec fn font_weight_rule(c: Seq<char>) -> Option<Seq<char>> {
    if c == "font-thin"@ {
        Some("font-weight: 100;"@)
    } else if c == "font-light"@ {
        Some("font-weight: 300;"@)
    } else if c == "font-normal"@ {
        Some("font-weight: 400;"@)
    } else if c == "font-medium"@ {
        Some("font-weight: 500;"@)
    } else if c == "font-semibold"@ {
        Some("font-weight: 600;"@)
    } else if c == "font-bold"@ {
        Some("font-weight: 700;"@)
    } else if c == "font-extrabold"@ {
        Some("font-weight: 800;"@)
    } else if c == "font-black"@ {
        Some("font-weight: 900;"@)
    } else {
        None
    }
}

fn font_weight_rule_of(c: &str) -> (r: Option<String>)
    ensures
        crate::ast::opt_string_model(r) == font_weight_rule(c@),
{
    if same_text(c, "font-thin") {
        Some(String::from_str("font-weight: 100;"))
    } else if same_text(c, "font-light") {
        Some(String::from_str("font-weight: 300;"))
    } else if same_text(c, "font-normal") {
        Some(String::from_str("font-weight: 400;"))
    } else if same_text(c, "font-medium") {
        Some(String::from_str("font-weight: 500;"))
    } else if same_text(c, "font-semibold") {
        Some(String::from_str("font-weight: 600;"))
    } else if same_text(c, "font-bold") {
        Some(String::from_str("font-weight: 700;"))
    } else if same_text(c, "font-extrabold") {
        Some(String::from_str("font-weight: 800;"))
    } else if same_text(c, "font-black") {
        Some(String::from_str("font-weight: 900;"))
    } else {
        None
    }
}

/// The `flex-direction` rule of a class, if it names one.
pub open spec fn flex_direction_rule(c: Seq<char>) -> Option<Seq<char>> {
    if c == "flex-row"@ {
        Some("flex-direction: row;"@)
    } else if c == "flex-row-reverse"@ {
        Some("flex-direction: row-reverse;"@)
    } else if c == "flex-col"@ {
        Some("flex-direction: column;"@)
    } else if c == "flex-col-reverse"@ {
        Some("flex-direction: column-reverse;"@)
    } else {
        None
    }
}

fn flex_direction_rule_of(c: &str) -> (r: Option<String>)
    ensures
        crate::ast::opt_string_model(r) == flex_direction_rule(c@),
{
    if same_text(c, "flex-row") {
        Some(String::from_str("flex-direction: row;"))
    } else if same_text(c, "flex-row-reverse") {
        Some(String::from_str("flex-direction: row-reverse;"))
    } else if same_text(c, "flex-col") {
        Some(String::from_str("flex-direction: column;"))
    } else if same_text(c, "flex-col-reverse") {
        Some(String::from_str("flex-direction: column-reverse;"))
    } else {
        None
    }
}

/// The `align-items` rule of a class, if it names one.
pub open spec fn align_items_rule(c: Seq<char>) -> Option<Seq<char>> {
    if c == "items-start"@ {
        Some("align-items: flex-start;"@)
    } else if c == "items-center"@ {
        Some("align-items: center;"@)
    } else if c == "items-end"@ {
        Some("align-items: flex-end;"@)
    } else if c == "items-baseline"@ {
        Some("align-items: baseline;"@)
    } else if c == "items-stretch"@ {
        Some("align-items: stretch;"@)
    } else {
        None
    }
}

fn align_items_rule_of(c: &str) -> (r: Option<String>)
    ensures
        crate::ast::opt_string_model(r) == align_items_rule(c@),
{
    if same_text(c, "items-start") {
        Some(String::from_str("align-items: flex-start;"))
    } else if same_text(c, "items-center") {
        Some(String::from_str("align-items: center;"))
    } else if same_text(c, "items-end") {
        Some(String::from_str("align-items: flex-end;"))
    } else if same_text(c, "items-baseline") {
        Some(String::from_str("align-items: baseline;"))
    } else if same_text(c, "items-stretch") {
        Some(String::from_str("align-items: stretch;"))
    } else {
        None
    }
}

/// The `justify-content` rule of a class, if it names one.
pub open spec fn justify_content_rule(c: Seq<char>) -> Option<Seq<char>> {
    if c == "justify-start"@ {
        Some("justify-content: flex-start;"@)
    } else if c == "justify-center"@ {
        Some("justify-content: center;"@)
    } else if c == "justify-end"@ {
        Some("justify-content: flex-end;"@)
    } else if c == "justify-between"@ {
        Some("justify-content: space-between;"@)
    } else if c == "justify-around"@ {
        Some("justify-content: space-around;"@)
    } else if c == "justify-evenly"@ {
        Some("justify-content: space-evenly;"@)
    } else {
        None
    }
}

fn justify_content_rule_of(c: &str) -> (r: Option<String>)
    ensures
        crate::ast::opt_string_model(r) == justify_content_rule(c@),
{
    if same_text(c, "justify-start") {
        Some(String::from_str("justify-content: flex-start;"))
    } else if same_text(c, "justify-center") {
        Some(String::from_str("justify-content: center;"))
    } else if same_text(c, "justify-end") {
        Some(String::from_str("justify-content: flex-end;"))
    } else if same_text(c, "justify-between") {
        Some(String::from_str("justify-content: space-between;"))
    } else if same_text(c, "justify-around") {
        Some(String::from_str("justify-content: space-around;"))
    } else if same_text(c, "justify-evenly") {
        Some(String::from_str("justify-content: space-evenly;"))
    } else {
        None
    }
}

/// The hex code of a color name, if it is one of the palette.
pub open spec fn color_map(c: Seq<char>) -> Option<Seq<char>> {
    if c == "red"@ {
        Some("#f44336"@)
    } else if c == "blue"@ {
        Some("#2196f3"@)
    } else if c == "green"@ {
        Some("#4caf50"@)
    } else if c == "yellow"@ {
        Some("#ffeb3b"@)
    } else if c == "black"@ {
        Some("#000000"@)
    } else if c == "white"@ {
        Some("#ffffff"@)
    } else if c == "gray"@ {
        Some("#9e9e9e"@)
    } else if c == "purple"@ {
        Some("#9c27b0"@)
    } else if c == "pink"@ {
        Some("#e91e63"@)
    } else {
        None
    }
}

fn color_map_of(c: &str) -> (r: Option<String>)
    ensures
        crate::ast::opt_string_model(r) == color_map(c@),
{
    if same_text(c, "red") {
        Some(String::from_str("#f44336"))
    } else if same_text(c, "blue") {
        Some(String::from_str("#2196f3"))
    } else if same_text(c, "green") {
        Some(String::from_str("#4caf50"))
    } else if same_text(c, "yellow") {
        Some(String::from_str("#ffeb3b"))
    } else if same_text(c, "black") {
        Some(String::from_str("#000000"))
    } else if same_text(c, "white") {
        Some(String::from_str("#ffffff"))
    } else if same_text(c, "gray") {
        Some(String::from_str("#9e9e9e"))
    } else if same_text(c, "purple") {
        Some(String::from_str("#9c27b0"))
    } else if same_text(c, "pink") {
        Some(String::from_str("#e91e63"))
    } else {
        None
    }
}

/// Whether `c` starts with `p`.
pub open spec fn has_prefix(c: Seq<char>, p: Seq<char>) -> bool {
    p.len() <= c.len() && c.subrange(0, p.len() as int) == p
}

/// What follows the prefix `p` in `c`.
pub open spec fn after_prefix(c: Seq<char>, p: Seq<char>) -> Seq<char> {
    c.subrange(p.len() as int, c.len() as int)
}

/// A spacing scale: one to six decimal digits.
pub open spec fn is_scale(s: Seq<char>) -> bool {
    0 < s.len() <= 6 && forall|i: int| 0 <= i < s.len() ==> is_digit(#[trigger] s[i])
}

/// The value of a string of decimal digits.
pub open spec fn digits_value(s: Seq<char>) -> nat
    decreases s.len(),
{
    if s.len() == 0 {
        0
    } else {
        digits_value(s.drop_last()) * 10 + ((s.last() as u32) - 48) as nat
    }
}

/// A quarter of `n`, in decimal with no trailing zeros.
pub open spec fn quarter(n: nat) -> Seq<char> {
    decimal(n / 4) + if n % 4 == 0 {
        Seq::empty()
    } else if n % 4 == 1 {
        ".25"@
    } else if n % 4 == 2 {
        ".5"@
    } else {
        ".75"@
    }
}

/// `p-N` and `m-N`: padding and margin of a quarter rem per step of the scale.
pub open spec fn spacing_rule(c: Seq<char>) -> Option<Seq<char>> {
    if has_prefix(c, "p-"@) {
        let v = after_prefix(c, "p-"@);
        if is_scale(v) {
            Some("padding: "@ + quarter(digits_value(v)) + "rem;"@)
        } else {
            None
        }
    } else if has_prefix(c, "m-"@) {
        let v = after_prefix(c, "m-"@);
        if is_scale(v) {
            Some("margin: "@ + quarter(digits_value(v)) + "rem;"@)
        } else {
            None
        }
    } else {
        None
    }
}

/// `bg-COLOR`: a background color of the palette.
pub open spec fn color_rule(c: Seq<char>) -> Option<Seq<char>> {
    if has_prefix(c, "bg-"@) {
        match color_map(after_prefix(c, "bg-"@)) {
            Some(col) => Some("background-color: "@ + col + ";"@),
            None => None,
        }
    } else {
        None
    }
}

/// `text-COLOR`: a text color of the palette.
pub open spec fn text_color_rule(c: Seq<char>) -> Option<Seq<char>> {
    if has_prefix(c, "text-"@) {
        match color_map(after_prefix(c, "text-"@)) {
            Some(col) => Some("color: "@ + col + ";"@),
            None => None,
        }
    } else {
        None
    }
}

pub open spec fn or_else(a: Option<Seq<char>>, b: Option<Seq<char>>) -> Option<Seq<char>> {
    if a is Some {
        a
    } else {
        b
    }
}

/// The CSS declaration of a class name: the first of the rules that knows it.
pub open spec fn css_rule(c: Seq<char>) -> Option<Seq<char>> {
    or_else(
        spacing_rule(c),
        or_else(
            display_rule(c),
            or_else(
                color_rule(c),
                or_else(
                    text_color_rule(c),
                    or_else(
                        font_weight_rule(c),
                        or_else(
                            flex_direction_rule(c),
                            or_else(align_items_rule(c), justify_content_rule(c)),
                        ),
                    ),
                ),
            ),
        ),
    )
}

/// The CSS line of a class name, or nothing when no rule knows it.
pub open spec fn css_line(c: Seq<char>) -> Seq<char> {
    match css_rule(c) {
        Some(r) => "."@ + c + " { "@ + r + " }\n"@,
        None => Seq::empty(),
    }
}

/// The CSS lines of class names, in order.
pub open spec fn css_of(s: Seq<Seq<char>>) -> Seq<char>
    decreases s.len(),
{
    if s.len() == 0 {
        Seq::empty()
    } else {
        css_of(s.drop_last()) + css_line(s.last())
    }
}

/// `s` with `c` added at the end unless it is already there.
pub open spec fn add_one(s: Seq<Seq<char>>, c: Seq<char>) -> Seq<Seq<char>> {
    if s.contains(c) {
        s
    } else {
        s.push(c)
    }
}

/// `s` with each of `cs` added in turn.
pub open spec fn add_all(s: Seq<Seq<char>>, cs: Seq<Seq<char>>) -> Seq<Seq<char>>
    decreases cs.len(),
{
    if cs.len() == 0 {
        s
    } else {
        add_one(add_all(s, cs.drop_last()), cs.last())
    }
}

fn starts_with(c: &Vec<char>, p: &str) -> (r: bool)
    ensures
        r == has_prefix(c@, p@),
{
    let n = p.unicode_len();
    if n > c.len() {
        return false;
    }
    let mut k: usize = 0;
    while k < n
        invariant
            k <= n <= c@.len(),
            n == p@.len(),
            forall|m: int| 0 <= m < k ==> c@[m] == p@[m],
        decreases n - k,
    {
        if c[k] != p.get_char(k) {
            assert(c@.subrange(0, n as int)[k as int] != p@[k as int]);
            return false;
        }
        k = k + 1;
    }
    assert(c@.subrange(0, n as int) =~= p@);
    true
}

pub open spec fn pow10(n: nat) -> nat
    decreases n,
{
    if n == 0 {
        1
    } else {
        10 * pow10((n - 1) as nat)
    }
}

proof fn lemma_pow10_small()
    ensures
        forall|k: nat| k <= 5 ==> #[trigger] pow10(k) <= 100000,
{
    assert(pow10(0) == 1);
    assert(pow10(1) == 10);
    assert(pow10(2) == 100);
    assert(pow10(3) == 1000);
    assert(pow10(4) == 10000);
    assert(pow10(5) == 100000);
}

fn scale_of(c: &Vec<char>, from: usize) -> (r: Option<usize>)
    requires
        from <= c@.len(),
    ensures
        r is Some <==> is_scale(c@.subrange(from as int, c@.len() as int)),
        r is Some ==> r->0 as nat == digits_value(c@.subrange(from as int, c@.len() as int)),
{
    let ghost v = c@.subrange(from as int, c@.len() as int);
    let n = c.len() - from;
    if n == 0 || n > 6 {
        return None;
    }
    let mut k: usize = 0;
    let mut value: usize = 0;
    while k < n
        invariant
            k <= n <= 6,
            n == v.len(),
            from + n == c@.len(),
            c@.len() == c.len(),
            v == c@.subrange(from as int, c@.len() as int),
            forall|i: int| 0 <= i < k ==> is_digit(#[trigger] v[i]),
            value as nat == digits_value(v.take(k as int)),
            value < pow10(k as nat),
        decreases n - k,
    {
        let d = c[from + k];
        assert(d == v[k as int]);
        if !digit(d) {
            return None;
        }
        assert(v.take(k + 1).drop_last() =~= v.take(k as int));
        assert(pow10((k + 1) as nat) == 10 * pow10(k as nat));
        proof { lemma_pow10_small(); }
        value = value * 10 + ((d as u32) - 48) as usize;
        k = k + 1;
    }
    assert(v.take(n as int) =~= v);
    Some(value)
}

fn quarter_of(n: usize) -> (r: String)
    ensures
        r@ == quarter(n as nat),
{
    let d = crate::dom::decimal_string(n / 4);
    let mut r = d;
    if n % 4 == 1 {
        r.append(".25");
    } else if n % 4 == 2 {
        r.append(".5");
    } else if n % 4 == 3 {
        r.append(".75");
    }
    r
}

fn spacing_rule_of(c: &str) -> (r: Option<String>)
    ensures
        crate::ast::opt_string_model(r) == spacing_rule(c@),
{
    let v = chars_of(c);
    if starts_with(&v, "p-") {
        proof { reveal_strlit("p-"); }
        match scale_of(&v, 2) {
            Some(n) => {
                let mut r = String::from_str("padding: ");
                let q = quarter_of(n);
                r.append(q.as_str());
                r.append("rem;");
                Some(r)
            },
            None => None,
        }
    } else if starts_with(&v, "m-") {
        proof { reveal_strlit("m-"); }
        match scale_of(&v, 2) {
            Some(n) => {
                let mut r = String::from_str("margin: ");
                let q = quarter_of(n);
                r.append(q.as_str());
                r.append("rem;");
                Some(r)
            },
            None => None,
        }
    } else {
        None
    }
}

fn palette_rule_of(c: &str, prefix: &str, property: &str) -> (r: Option<String>)
    ensures
        has_prefix(c@, prefix@) ==> crate::ast::opt_string_model(r) == match color_map(after_prefix(c@, prefix@)) {
            Some(col) => Some(property@ + col + ";"@),
            None => None,
        },
        !has_prefix(c@, prefix@) ==> r is None,
{
    let v = chars_of(c);
    if !starts_with(&v, prefix) {
        return None;
    }
    let rest = substring(&v, prefix.unicode_len(), v.len());
    match color_map_of(rest.as_str()) {
        Some(col) => {
            let mut r = String::from_str(property);
            r.append(col.as_str());
            r.append(";");
            Some(r)
        },
        None => None,
    }
}

/// The CSS declaration of a class name, if a rule knows it.
pub fn generate_css_for_class(c: &str) -> (r: Option<String>)
    ensures
        crate::ast::opt_string_model(r) == css_rule(c@),
{
    let r = spacing_rule_of(c);
    if r.is_some() {
        return r;
    }
    let r = display_rule_of(c);
    if r.is_some() {
        return r;
    }
    let r = palette_rule_of(c, "bg-", "background-color: ");
    if r.is_some() {
        return r;
    }
    let r = palette_rule_of(c, "text-", "color: ");
    if r.is_some() {
        return r;
    }
    let r = font_weight_rule_of(c);
    if r.is_some() {
        return r;
    }
    let r = flex_direction_rule_of(c);
    if r.is_some() {
        return r;
    }
    let r = align_items_rule_of(c);
    if r.is_some() {
        return r;
    }
    justify_content_rule_of(c)
}

/// The class names a page uses, each once, in the order first met.
pub struct StyleMan {
    class_names: Vec<String>,
}

impl View for StyleMan {
    type V = Seq<Seq<char>>;

    closed spec fn view(&self) -> Seq<Seq<char>> {
        strings_model(self.class_names@)
    }
}

impl StyleMan {
    pub fn new() -> (r: StyleMan)
        ensures
            r@ == Seq::<Seq<char>>::empty(),
    {
        let r = StyleMan { class_names: Vec::new() };
        assert(r@ =~= Seq::<Seq<char>>::empty());
        r
    }

    fn has(&self, c: &String) -> (r: bool)
        ensures
            r == self@.contains(c@),
    {
        let mut k: usize = 0;
        while k < self.class_names.len()
            invariant
                k <= self.class_names@.len(),
                forall|m: int| 0 <= m < k ==> self@[m] != c@,
            decreases self.class_names.len() - k,
        {
            if same_text(self.class_names[k].as_str(), c.as_str()) {
                assert(self@[k as int] == c@);
                return true;
            }
            k = k + 1;
        }
        proof {
            if self@.contains(c@) {
                let m = choose|m: int| 0 <= m < self@.len() && self@[m] == c@;
                assert(self@[m] != c@);
            }
        }
        false
    }

    /// Adds each class name that is not there yet, in order.
    pub fn add_classes(&mut self, classes: Vec<String>)
        ensures
            final(self)@ == add_all(old(self)@, strings_model(classes@)),
    {
        let ghost start = self@;
        let mut k: usize = 0;
        assert(strings_model(classes@).take(0) =~= Seq::<Seq<char>>::empty());
        while k < classes.len()
            invariant
                k <= classes@.len(),
                self@ == add_all(start, strings_model(classes@).take(k as int)),
            decreases classes.len() - k,
        {
            assert(strings_model(classes@).take(k + 1).drop_last() =~= strings_model(classes@).take(k as int));
            if !self.has(&classes[k]) {
                let ghost before = self.class_names@;
                self.class_names.push(classes[k].clone());
                assert(self@ =~= strings_model(before).push(classes@[k as int]@));
            }
            k = k + 1;
        }
        assert(strings_model(classes@).take(classes@.len() as int) =~= strings_model(classes@));
    }

    /// One line `.name { declaration }` for each class name a rule knows, in order.
    pub fn generate_css(&self) -> (r: String)
        ensures
            r@ == css_of(self@),
    {
        let mut css = String::new();
        let mut k: usize = 0;
        assert(self@.take(0) =~= Seq::<Seq<char>>::empty());
        while k < self.class_names.len()
            invariant
                k <= self.class_names@.len(),
                css@ == css_of(self@.take(k as int)),
            decreases self.class_names.len() - k,
        {
            assert(self@.take(k + 1).drop_last() =~= self@.take(k as int));
            let c = &self.class_names[k];
            match generate_css_for_class(c.as_str()) {
                Some(rule) => {
                    css.append(".");
                    css.append(c.as_str());
                    css.append(" { ");
                    css.append(rule.as_str());
                    css.append(" }\n");
                },
                None => {},
            }
            assert(css@ =~= css_of(self@.take(k + 1)));
            k = k + 1;
        }
        assert(self@.take(self.class_names@.len() as int) =~= self@);
        css
    }
}

/// The CSS for the class names that a transform collected: each name once, in the order
/// first met.
pub fn get_css(classes: Vec<String>) -> (r: String)
    ensures
        r@ == css_of(add_all(Seq::empty(), strings_model(classes@))),
{
    let mut s = StyleMan::new();
    s.add_classes(classes);
    s.generate_css()
}

} // verus!
