//! Style sheets: colors, lengths and keywords in `selector { property:
//! value; }` rules.
use vstd::prelude::*;
use crate::text::{
    alphanumeric, eq_ignore_ascii_case, eq_ignore_ascii_case_spec, is_alphanumeric, is_whitespace, parse_decimal,
    decimal_of, is_decimal, vec_to_string,
};

verus! {

#[derive(Clone, Copy, Debug, PartialEq, Eq, Structural)]
pub struct Color {
    pub r: u8,
    pub g: u8,
    pub b: u8,
}

/// Value of a hexadecimal digit.
pub open spec fn hex_value(c: char) -> Option<u8> {
    if '0' <= c <= '9' {
        Some(((c as u32) - ('0' as u32)) as u8)
    } else if 'a' <= c <= 'f' {
        Some(((c as u32) - ('a' as u32) + 10) as u8)
    } else if 'A' <= c <= 'F' {
        Some(((c as u32) - ('A' as u32) + 10) as u8)
    } else {
        None
    }
}

fn hex_digit(c: char) -> (r: Option<u8>)
    ensures
        r == hex_value(c),
{
    if '0' <= c && c <= '9' {
        Some((c as u32 - '0' as u32) as u8)
    } else if 'a' <= c && c <= 'f' {
        Some((c as u32 - 'a' as u32 + 10) as u8)
    } else if 'A' <= c && c <= 'F' {
        Some((c as u32 - 'A' as u32 + 10) as u8)
    } else {
        None
    }
}

/// A channel written as one hex digit, repeated (`F` is `FF`).
pub open spec fn short_channel(c: char) -> Option<u8> {
    match hex_value(c) {
        Some(v) => Some((v * 17) as u8),
        None => None,
    }
}

/// A channel written as two characters, read in base 16 (a leading `+`
/// is allowed before a single digit).
pub open spec fn long_channel(a: char, b: char) -> Option<u8> {
    if a == '+' {
        hex_value(b)
    } else {
        match (hex_value(a), hex_value(b)) {
            (Some(x), Some(y)) => Some((x * 16 + y) as u8),
            _ => None,
        }
    }
}

/// The color `#RGB` or `#RRGGBB` denotes.
pub open spec fn hex_color(s: Seq<char>) -> Option<Color> {
    if s.len() == 4 && s[0] == '#' {
        match (short_channel(s[1]), short_channel(s[2]), short_channel(s[3])) {
            (Some(r), Some(g), Some(b)) => Some(Color { r, g, b }),
            _ => None,
        }
    } else if s.len() == 7 && s[0] == '#' {
        match (long_channel(s[1], s[2]), long_channel(s[3], s[4]), long_channel(s[5], s[6])) {
            (Some(r), Some(g), Some(b)) => Some(Color { r, g, b }),
            _ => None,
        }
    } else {
        None
    }
}

/// The named colors.
pub open spec fn named_color(s: Seq<char>) -> Option<Color> {
    if eq_ignore_ascii_case_spec(s, "black"@) {
        Some(Color { r: 0, g: 0, b: 0 })
    } else if eq_ignore_ascii_case_spec(s, "white"@) {
        Some(Color { r: 255, g: 255, b: 255 })
    } else if eq_ignore_ascii_case_spec(s, "red"@) {
        Some(Color { r: 255, g: 0, b: 0 })
    } else if eq_ignore_ascii_case_spec(s, "green"@) {
        Some(Color { r: 0, g: 255, b: 0 })
    } else if eq_ignore_ascii_case_spec(s, "blue"@) {
        Some(Color { r: 0, g: 0, b: 255 })
    } else if eq_ignore_ascii_case_spec(s, "cyan"@) {
        Some(Color { r: 0, g: 255, b: 255 })
    } else if eq_ignore_ascii_case_spec(s, "yellow"@) {
        Some(Color { r: 255, g: 255, b: 0 })
    } else if eq_ignore_ascii_case_spec(s, "magenta"@) {
        Some(Color { r: 255, g: 0, b: 255 })
    } else {
        None
    }
}

fn short_channel_exec(c: char) -> (r: Option<u8>)
    ensures
        r == short_channel(c),
{
    match hex_digit(c) {
        Some(v) => Some(v * 17),
        None => None,
    }
}

fn long_channel_exec(a: char, b: char) -> (r: Option<u8>)
    ensures
        r == long_channel(a, b),
{
    if a == '+' {
        return hex_digit(b);
    }
    match (hex_digit(a), hex_digit(b)) {
        (Some(x), Some(y)) => Some(x * 16 + y),
        _ => None,
    }
}

impl Color {
    pub fn new(r: u8, g: u8, b: u8) -> (c: Self)
        ensures
            c == (Color { r, g, b }),
    {
        Color { r, g, b }
    }

    /// Parses `#RGB` or `#RRGGBB`.
    pub fn from_hex(s: &str) -> (r: Option<Color>)
        ensures
            r == hex_color(s@),
    {
        let n = s.unicode_len();
        if n == 0 || s.get_char(0) != '#' {
            return None;
        }
        if n == 4 {
            match (short_channel_exec(s.get_char(1)), short_channel_exec(s.get_char(2)), short_channel_exec(s.get_char(3))) {
                (Some(r), Some(g), Some(b)) => Some(Color { r, g, b }),
                _ => None,
            }
        } else if n == 7 {
            match (
                long_channel_exec(s.get_char(1), s.get_char(2)),
                long_channel_exec(s.get_char(3), s.get_char(4)),
                long_channel_exec(s.get_char(5), s.get_char(6)),
            ) {
                (Some(r), Some(g), Some(b)) => Some(Color { r, g, b }),
                _ => None,
            }
        } else {
            None
        }
    }

    /// One of the eight named colors, ignoring ASCII case.
    pub fn from_name(name: &str) -> (r: Option<Color>)
        ensures
            r == named_color(name@),
    {
        if eq_ignore_ascii_case(name, "black") {
            Some(Color { r: 0, g: 0, b: 0 })
        } else if eq_ignore_ascii_case(name, "white") {
            Some(Color { r: 255, g: 255, b: 255 })
        } else if eq_ignore_ascii_case(name, "red") {
            Some(Color { r: 255, g: 0, b: 0 })
        } else if eq_ignore_ascii_case(name, "green") {
            Some(Color { r: 0, g: 255, b: 0 })
        } else if eq_ignore_ascii_case(name, "blue") {
            Some(Color { r: 0, g: 0, b: 255 })
        } else if eq_ignore_ascii_case(name, "cyan") {
            Some(Color { r: 0, g: 255, b: 255 })
        } else if eq_ignore_ascii_case(name, "yellow") {
            Some(Color { r: 255, g: 255, b: 0 })
        } else if eq_ignore_ascii_case(name, "magenta") {
            Some(Color { r: 255, g: 0, b: 255 })
        } else {
            None
        }
    }
}

/// Value of an `i32` written in decimal with an optional sign.
pub open spec fn i32_of(s: Seq<char>) -> Option<i32> {
    if s.len() > 0 && s[0] == '-' {
        let d = s.drop_first();
        if d.len() > 0 && d[0] != '+' && is_decimal(d) && decimal_of(d) <= 0x8000_0000 {
            Some((-decimal_of(d)) as i32)
        } else {
            None
        }
    } else if is_decimal(s) && decimal_of(s) <= 0x7FFF_FFFF {
        Some(decimal_of(s) as i32)
    } else {
        None
    }
}

/// Parses `v` as an `i32`.
pub fn parse_i32(v: &Vec<char>) -> (r: Option<i32>)
    ensures
        r == i32_of(v@),
{
    let n = v.len();
    if n > 0 && v[0] == '-' {
        if n < 2 || v[1] == '+' {
            return None;
        }
        proof {
            assert(v@.subrange(1, n as int) =~= v@.drop_first());
        }
        match parse_decimal(v, 1, n, 0x8000_0000) {
            Some(m) => Some((0 - m as i64) as i32),
            None => None,
        }
    } else {
        proof {
            assert(v@.subrange(0, n as int) =~= v@);
        }
        match parse_decimal(v, 0, n, 0x7FFF_FFFF) {
            Some(m) => Some(m as i32),
            None => None,
        }
    }
}

#[derive(Clone, Debug)]
pub enum PropertyValue {
    Color(Color),
    Length(i32),
    Keyword(String),
}

/// What a value text denotes: a hex or named color, a length in pixels,
/// or else a keyword.
pub open spec fn value_matches(v: PropertyValue, t: Seq<char>) -> bool {
    if t.len() > 0 && t[0] == '#' && hex_color(t) is Some {
        v == PropertyValue::Color(hex_color(t)->0)
    } else if named_color(t) is Some {
        v == PropertyValue::Color(named_color(t)->0)
    } else if i32_of(t) is Some {
        v == PropertyValue::Length(i32_of(t)->0)
    } else {
        v matches PropertyValue::Keyword(k) && k@ == t
    }
}

/// The value a text denotes.
pub fn parse_value_text(t: &Vec<char>) -> (r: PropertyValue)
    ensures
        value_matches(r, t@),
{
    let s = vec_to_string(t);
    if t.len() > 0 && t[0] == '#' {
        if let Some(c) = Color::from_hex(s.as_str()) {
            return PropertyValue::Color(c);
        }
    }
    if let Some(c) = Color::from_name(s.as_str()) {
        return PropertyValue::Color(c);
    }
    if let Some(n) = parse_i32(t) {
        return PropertyValue::Length(n);
    }
    PropertyValue::Keyword(s)
}

#[derive(Clone, Debug)]
pub struct Declaration {
    pub property: String,
    pub value: PropertyValue,
}

#[derive(Clone, Debug)]
pub struct Rule {
    pub selectors: Vec<String>,
    pub declarations: Vec<Declaration>,
}

#[derive(Clone, Debug)]
pub struct Stylesheet {
    pub rules: Vec<Rule>,
}

pub open spec fn selector_char(c: char) -> bool {
    alphanumeric(c) || c == '-' || c == '_' || c == '.' || c == '#'
}

pub open spec fn property_char(c: char) -> bool {
    alphanumeric(c) || c == '-'
}

/// A declaration as the parser produces it: a non-empty property name.
pub open spec fn declaration_wf(d: Declaration) -> bool {
    d.property@.len() > 0 && forall|i: int| 0 <= i < d.property@.len() ==> property_char(#[trigger] d.property@[i])
}

/// A rule as the parser produces it: at least one selector, each a
/// non-empty run of selector characters, and well-formed declarations.
pub open spec fn rule_wf(r: Rule) -> bool {
    &&& r.selectors@.len() > 0
    &&& forall|k: int| 0 <= k < r.selectors@.len() ==> {
        let s = (#[trigger] r.selectors@[k])@;
        s.len() > 0 && forall|i: int| 0 <= i < s.len() ==> selector_char(#[trigger] s[i])
    }
    &&& forall|k: int| 0 <= k < r.declarations@.len() ==> declaration_wf(#[trigger] r.declarations@[k])
}

impl Stylesheet {
    pub fn new() -> (r: Self)
        ensures
            r.rules@.len() == 0,
    {
        Stylesheet { rules: Vec::new() }
    }

    /// White text on black for `body`, 20-pixel `h1` with a 10-pixel margin,
    /// 14-pixel `p` with a 5-pixel margin.
    pub fn default_styles() -> (r: Self)
        ensures
            r.rules@.len() == 3,
            r.rules@[0].selectors@.len() == 1 && r.rules@[0].selectors@[0]@ == "body"@,
            r.rules@[1].selectors@.len() == 1 && r.rules@[1].selectors@[0]@ == "h1"@,
            r.rules@[2].selectors@.len() == 1 && r.rules@[2].selectors@[0]@ == "p"@,
            r.rules@[0].declarations@.len() == 2,
            r.rules@[1].declarations@.len() == 3,
            r.rules@[2].declarations@.len() == 2,
    {
        let mut sheet = Stylesheet::new();
        let mut body_decls: Vec<Declaration> = Vec::new();
        body_decls.push(Declaration { property: String::from_str("color"), value: PropertyValue::Color(Color::new(255, 255, 255)) });
        body_decls.push(Declaration { property: String::from_str("background-color"), value: PropertyValue::Color(Color::new(0, 0, 0)) });
        let mut body_sel: Vec<String> = Vec::new();
        body_sel.push(String::from_str("body"));
        sheet.rules.push(Rule { selectors: body_sel, declarations: body_decls });
        let mut h1_decls: Vec<Declaration> = Vec::new();
        h1_decls.push(Declaration { property: String::from_str("font-size"), value: PropertyValue::Length(20) });
        h1_decls.push(Declaration { property: String::from_str("color"), value: PropertyValue::Color(Color::new(255, 255, 255)) });
        h1_decls.push(Declaration { property: String::from_str("margin"), value: PropertyValue::Length(10) });
        let mut h1_sel: Vec<String> = Vec::new();
        h1_sel.push(String::from_str("h1"));
        sheet.rules.push(Rule { selectors: h1_sel, declarations: h1_decls });
        let mut p_decls: Vec<Declaration> = Vec::new();
        p_decls.push(Declaration { property: String::from_str("font-size"), value: PropertyValue::Length(14) });
        p_decls.push(Declaration { property: String::from_str("margin"), value: PropertyValue::Length(5) });
        let mut p_sel: Vec<String> = Vec::new();
        p_sel.push(String::from_str("p"));
        sheet.rules.push(Rule { selectors: p_sel, declarations: p_decls });
        sheet
    }
}

/// A cursor over the characters of a style sheet.
struct Tokenizer {
    input: Vec<char>,
    pos: usize,
}

impl Tokenizer {
    spec fn wf(&self) -> bool {
        self.pos <= self.input@.len()
    }

    fn eof(&self) -> (r: bool)
        ensures
            r == (self.pos >= self.input@.len()),
    {
        self.pos >= self.input.len()
    }

    /// The character at the cursor, or NUL at the end.
    fn current(&self) -> (r: char)
        ensures
            self.pos < self.input@.len() ==> r == self.input@[self.pos as int],
            self.pos >= self.input@.len() ==> r == '\0',
    {
        if self.pos < self.input.len() {
            self.input[self.pos]
        } else {
            '\0'
        }
    }

    fn advance(&mut self)
        requires
            old(self).pos < old(self).input@.len(),
        ensures
            final(self).input@ == old(self).input@,
            final(self).pos == old(self).pos + 1,
    {
        let n = self.input.len();
        assert(self.pos < n);
        self.pos = self.pos + 1;
    }

    fn skip_whitespace(&mut self)
        requires
            old(self).wf(),
        ensures
            final(self).wf(),
            final(self).input@ == old(self).input@,
            final(self).pos >= old(self).pos,
    {
        while self.pos < self.input.len() && is_whitespace(self.input[self.pos])
            invariant
                self.wf(),
                self.input@ == old(self).input@,
                self.pos >= old(self).pos,
            decreases self.input@.len() - self.pos,
        {
            self.pos = self.pos + 1;
        }
    }

    /// The run of characters from the cursor that `class` accepts: 0 for
    /// selector characters, 1 for property characters, 2 for value
    /// characters (anything but white space, `;` and `}`).
    fn consume_class(&mut self, class: u8) -> (r: Vec<char>)
        requires
            old(self).wf(),
        ensures
            final(self).wf(),
            final(self).input@ == old(self).input@,
            final(self).pos == old(self).pos + r@.len(),
            r@ == old(self).input@.subrange(old(self).pos as int, final(self).pos as int),
            class == 0 ==> forall|i: int| 0 <= i < r@.len() ==> selector_char(#[trigger] r@[i]),
            class == 1 ==> forall|i: int| 0 <= i < r@.len() ==> property_char(#[trigger] r@[i]),
    {
        let start = self.pos;
        let mut out: Vec<char> = Vec::new();
        while self.pos < self.input.len()
            invariant
                self.wf(),
                self.input@ == old(self).input@,
                start == old(self).pos,
                self.pos == start + out@.len(),
                out@ == self.input@.subrange(start as int, self.pos as int),
                class == 0 ==> forall|i: int| 0 <= i < out@.len() ==> selector_char(#[trigger] out@[i]),
                class == 1 ==> forall|i: int| 0 <= i < out@.len() ==> property_char(#[trigger] out@[i]),
            decreases self.input@.len() - self.pos,
        {
            let c = self.input[self.pos];
            let ok = if class == 0 {
                is_alphanumeric(c) || c == '-' || c == '_' || c == '.' || c == '#'
            } else if class == 1 {
                is_alphanumeric(c) || c == '-'
            } else {
                !is_whitespace(c) && c != ';' && c != '}'
            };
            if !ok {
                break;
            }
            out.push(c);
            self.pos = self.pos + 1;
            assert(out@ =~= self.input@.subrange(start as int, self.pos as int));
        }
        out
    }
}

fn parse_selectors(t: &mut Tokenizer) -> (r: Option<Vec<String>>)
    requires
        old(t).wf(),
    ensures
        final(t).wf(),
        final(t).input@ == old(t).input@,
        final(t).pos >= old(t).pos,
        r matches Some(v) ==> v@.len() > 0 && forall|k: int| 0 <= k < v@.len() ==> {
            let s = (#[trigger] v@[k])@;
            s.len() > 0 && forall|i: int| 0 <= i < s.len() ==> selector_char(#[trigger] s[i])
        },
{
    let mut selectors: Vec<String> = Vec::new();
    loop
        invariant
            t.wf(),
            t.input@ == old(t).input@,
            t.pos >= old(t).pos,
            forall|k: int| 0 <= k < selectors@.len() ==> {
                let s = (#[trigger] selectors@[k])@;
                s.len() > 0 && forall|i: int| 0 <= i < s.len() ==> selector_char(#[trigger] s[i])
            },
        decreases t.input@.len() - t.pos,
    {
        t.skip_whitespace();
        let sel = t.consume_class(0);
        if sel.len() > 0 {
            let s = vec_to_string(&sel);
            selectors.push(s);
        }
        t.skip_whitespace();
        if t.current() == ',' {
            t.advance();
        } else {
            break;
        }
    }
    if selectors.len() == 0 {
        None
    } else {
        Some(selectors)
    }
}

fn parse_declaration(t: &mut Tokenizer) -> (r: Option<Declaration>)
    requires
        old(t).wf(),
    ensures
        final(t).wf(),
        final(t).input@ == old(t).input@,
        final(t).pos >= old(t).pos,
        r matches Some(d) ==> declaration_wf(d),
{
    t.skip_whitespace();
    let prop = t.consume_class(1);
    if prop.len() == 0 {
        return None;
    }
    t.skip_whitespace();
    if t.current() != ':' {
        return None;
    }
    t.advance();
    t.skip_whitespace();
    let text = t.consume_class(2);
    let value = parse_value_text(&text);
    Some(Declaration { property: vec_to_string(&prop), value })
}

fn parse_declarations(t: &mut Tokenizer) -> (r: Vec<Declaration>)
    requires
        old(t).wf(),
    ensures
        final(t).wf(),
        final(t).input@ == old(t).input@,
        final(t).pos >= old(t).pos,
        forall|k: int| 0 <= k < r@.len() ==> declaration_wf(#[trigger] r@[k]),
{
    let mut decls: Vec<Declaration> = Vec::new();
    loop
        invariant
            t.wf(),
            t.input@ == old(t).input@,
            t.pos >= old(t).pos,
            forall|k: int| 0 <= k < decls@.len() ==> declaration_wf(#[trigger] decls@[k]),
        decreases t.input@.len() - t.pos,
    {
        t.skip_whitespace();
        if t.current() == '}' && !t.eof() {
            t.advance();
            break;
        }
        if t.eof() {
            break;
        }
        let before = t.pos;
        if let Some(d) = parse_declaration(t) {
            decls.push(d);
        }
        t.skip_whitespace();
        if t.current() == ';' && !t.eof() {
            t.advance();
        }
        if t.pos == before {
            t.advance();
        }
    }
    decls
}

fn parse_rule(t: &mut Tokenizer) -> (r: Option<Rule>)
    requires
        old(t).wf(),
    ensures
        final(t).wf(),
        final(t).input@ == old(t).input@,
        final(t).pos >= old(t).pos,
        r matches Some(rule) ==> rule_wf(rule),
{
    t.skip_whitespace();
    let selectors = match parse_selectors(t) {
        Some(s) => s,
        None => {
            return None;
        },
    };
    t.skip_whitespace();
    if t.current() != '{' || t.eof() {
        return None;
    }
    t.advance();
    let declarations = parse_declarations(t);
    Some(Rule { selectors, declarations })
}

/// Parses a style sheet. Text that forms no rule is skipped, one
/// character at a time, so parsing always ends.
pub fn parse_css(source: &str) -> (r: Stylesheet)
    ensures
        forall|k: int| 0 <= k < r.rules@.len() ==> rule_wf(#[trigger] r.rules@[k]),
{
    let mut t = Tokenizer { input: crate::text::chars_of(source), pos: 0 };
    let mut sheet = Stylesheet::new();
    while !t.eof()
        invariant
            t.wf(),
            forall|k: int| 0 <= k < sheet.rules@.len() ==> rule_wf(#[trigger] sheet.rules@[k]),
        decreases t.input@.len() - t.pos,
    {
        t.skip_whitespace();
        if t.eof() {
            break;
        }
        let before = t.pos;
        if let Some(rule) = parse_rule(&mut t) {
            sheet.rules.push(rule);
        }
        if t.pos == before {
            t.advance();
        }
    }
    sheet
}

} // verus!
