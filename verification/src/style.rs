//! Style composition and rendering.
//!
//! A [`StyleRequest`] carries the user's intentions: an optional foreground
//! colour, an optional background colour, and seven independent boolean
//! attributes. [`compose`] turns a request into a [`ComposedStyle`], an
//! immutable record of the active settings, and [`render`] wraps a piece of
//! text in the SGR escape prefix for that style and a reset suffix. A
//! neutral style renders text unchanged, with no escape bytes at all.

use vstd::prelude::*;
use vstd::string::*;
use crate::color::{Color, fg_code, bg_code};

verus! {

/// One of the seven boolean text attributes.
#[derive(Copy, Clone, PartialEq, Eq, Debug)]
pub enum Attr {
    Bold,
    Dimmed,
    Blink,
    Strikethrough,
    Underline,
    Reverse,
    Hidden,
}

/// The fully resolved set of user intentions: optional foreground and
/// background colours and the seven boolean attributes. Every combination
/// is legal; all fields independent.
#[derive(Copy, Clone, PartialEq, Eq, Debug)]
pub struct StyleRequest {
    pub foreground: Option<Color>,
    pub background: Option<Color>,
    pub bold: bool,
    pub dimmed: bool,
    pub blink: bool,
    pub strike: bool,
    pub underline: bool,
    pub reverse: bool,
    pub hidden: bool,
}

/// The accumulated rendering state: which colours and attributes are
/// active. The rendered escape sequence is a function of this value alone,
/// so any order of accumulation that reaches the same value renders the
/// same bytes.
#[derive(Copy, Clone, PartialEq, Eq, Debug)]
pub struct ComposedStyle {
    pub foreground: Option<Color>,
    pub background: Option<Color>,
    pub bold: bool,
    pub dimmed: bool,
    pub blink: bool,
    pub strike: bool,
    pub underline: bool,
    pub reverse: bool,
    pub hidden: bool,
}

/// The style with no colour and no attribute set.
pub open spec fn neutral_style() -> ComposedStyle {
    ComposedStyle {
        foreground: None,
        background: None,
        bold: false,
        dimmed: false,
        blink: false,
        strike: false,
        underline: false,
        reverse: false,
        hidden: false,
    }
}

/// A neutral style: no foreground, no background, every attribute off.
pub open spec fn is_neutral(s: ComposedStyle) -> bool {
    s == neutral_style()
}

/// `s` with the attribute `a` switched on; everything else untouched.
pub open spec fn spec_apply(s: ComposedStyle, a: Attr) -> ComposedStyle {
    match a {
        Attr::Bold => ComposedStyle { bold: true, ..s },
        Attr::Dimmed => ComposedStyle { dimmed: true, ..s },
        Attr::Blink => ComposedStyle { blink: true, ..s },
        Attr::Strikethrough => ComposedStyle { strike: true, ..s },
        Attr::Underline => ComposedStyle { underline: true, ..s },
        Attr::Reverse => ComposedStyle { reverse: true, ..s },
        Attr::Hidden => ComposedStyle { hidden: true, ..s },
    }
}

/// `s` with every attribute in `attrs` switched on, applied left to right.
pub open spec fn spec_apply_all(s: ComposedStyle, attrs: Seq<Attr>) -> ComposedStyle
    decreases attrs.len(),
{
    if attrs.len() == 0 {
        s
    } else {
        spec_apply(spec_apply_all(s, attrs.drop_last()), attrs.last())
    }
}

/// The composed style a request asks for: each field carried over as it is.
pub open spec fn spec_compose(r: StyleRequest) -> ComposedStyle {
    ComposedStyle {
        foreground: r.foreground,
        background: r.background,
        bold: r.bold,
        dimmed: r.dimmed,
        blink: r.blink,
        strike: r.strike,
        underline: r.underline,
        reverse: r.reverse,
        hidden: r.hidden,
    }
}

impl ComposedStyle {
    /// The neutral style.
    pub fn plain() -> (s: ComposedStyle)
        ensures
            s == neutral_style(),
    {
        ComposedStyle {
            foreground: None,
            background: None,
            bold: false,
            dimmed: false,
            blink: false,
            strike: false,
            underline: false,
            reverse: false,
            hidden: false,
        }
    }

    /// This style with the given foreground colour.
    pub fn fg(self, c: Color) -> (s: ComposedStyle)
        ensures
            s == (ComposedStyle { foreground: Some(c), ..self }),
    {
        ComposedStyle { foreground: Some(c), ..self }
    }

    /// This style with the given background colour.
    pub fn on(self, c: Color) -> (s: ComposedStyle)
        ensures
            s == (ComposedStyle { background: Some(c), ..self }),
    {
        ComposedStyle { background: Some(c), ..self }
    }

    /// This style with the attribute `a` switched on.
    pub fn apply(self, a: Attr) -> (s: ComposedStyle)
        ensures
            s == spec_apply(self, a),
    {
        match a {
            Attr::Bold => ComposedStyle { bold: true, ..self },
            Attr::Dimmed => ComposedStyle { dimmed: true, ..self },
            Attr::Blink => ComposedStyle { blink: true, ..self },
            Attr::Strikethrough => ComposedStyle { strike: true, ..self },
            Attr::Underline => ComposedStyle { underline: true, ..self },
            Attr::Reverse => ComposedStyle { reverse: true, ..self },
            Attr::Hidden => ComposedStyle { hidden: true, ..self },
        }
    }

    /// Whether this style is neutral.
    pub fn is_plain(&self) -> (r: bool)
        ensures
            r == is_neutral(*self),
    {
        self.foreground.is_none() && self.background.is_none() && !self.bold && !self.dimmed
            && !self.blink && !self.strike && !self.underline && !self.reverse && !self.hidden
    }
}

/// Accumulate a request into a composed style, one directive at a time:
/// foreground, background, then each attribute that is set.
pub fn compose(req: &StyleRequest) -> (s: ComposedStyle)
    ensures
        s == spec_compose(*req),
{
    let mut s = ComposedStyle::plain();
    match req.foreground {
        None => {},
        Some(c) => {
            s = s.fg(c);
        },
    }
    match req.background {
        None => {},
        Some(c) => {
            s = s.on(c);
        },
    }
    if req.bold {
        s = s.apply(Attr::Bold);
    }
    if req.dimmed {
        s = s.apply(Attr::Dimmed);
    }
    if req.blink {
        s = s.apply(Attr::Blink);
    }
    if req.strike {
        s = s.apply(Attr::Strikethrough);
    }
    if req.underline {
        s = s.apply(Attr::Underline);
    }
    if req.reverse {
        s = s.apply(Attr::Reverse);
    }
    if req.hidden {
        s = s.apply(Attr::Hidden);
    }
    s
}

/// The two characters that open every SGR sequence: escape and `'['`.
pub open spec fn esc_intro() -> Seq<char> {
    seq!['\u{1b}', '[']
}

/// The sequence that resets every colour and attribute.
pub open spec fn reset_code() -> Seq<char> {
    seq!['\u{1b}', '[', '0', 'm']
}

/// The one-character SGR code of each boolean attribute.
pub open spec fn attr_code(a: Attr) -> Seq<char> {
    match a {
        Attr::Bold => seq!['1'],
        Attr::Dimmed => seq!['2'],
        Attr::Underline => seq!['4'],
        Attr::Blink => seq!['5'],
        Attr::Reverse => seq!['7'],
        Attr::Hidden => seq!['8'],
        Attr::Strikethrough => seq!['9'],
    }
}

/// The SGR code strings a style activates, in the fixed emission order:
/// the attributes (bold `1`, dimmed `2`, underline `4`, blink `5`,
/// reverse `7`, hidden `8`, strikethrough `9`), then the background
/// colour, then the foreground colour.
pub open spec fn sgr_parts(s: ComposedStyle) -> Seq<Seq<char>> {
    let p: Seq<Seq<char>> = Seq::empty();
    let p = if s.bold { p.push(attr_code(Attr::Bold)) } else { p };
    let p = if s.dimmed { p.push(attr_code(Attr::Dimmed)) } else { p };
    let p = if s.underline { p.push(attr_code(Attr::Underline)) } else { p };
    let p = if s.blink { p.push(attr_code(Attr::Blink)) } else { p };
    let p = if s.reverse { p.push(attr_code(Attr::Reverse)) } else { p };
    let p = if s.hidden { p.push(attr_code(Attr::Hidden)) } else { p };
    let p = if s.strike { p.push(attr_code(Attr::Strikethrough)) } else { p };
    let p = match s.background {
        Some(c) => p.push(bg_code(c)),
        None => p,
    };
    match s.foreground {
        Some(c) => p.push(fg_code(c)),
        None => p,
    }
}

/// The code strings joined with single semicolons.
pub open spec fn join_codes(parts: Seq<Seq<char>>) -> Seq<char>
    decreases parts.len(),
{
    if parts.len() == 0 {
        Seq::empty()
    } else if parts.len() == 1 {
        parts[0]
    } else {
        join_codes(parts.drop_last()) + seq![';'] + parts.last()
    }
}

/// The whole escape prefix of a style: escape, `'['`, the joined codes,
/// and the final `'m'`.
pub open spec fn spec_prefix(s: ComposedStyle) -> Seq<char> {
    esc_intro() + join_codes(sgr_parts(s)) + seq!['m']
}

/// What rendering returns: the text itself for a neutral style, else the
/// text wrapped in the style's escape prefix and one reset suffix.
pub open spec fn spec_render(s: ComposedStyle, t: Seq<char>) -> Seq<char> {
    if is_neutral(s) {
        t
    } else {
        spec_prefix(s) + t + reset_code()
    }
}

/// A neutral style renders any text unchanged: no escape bytes at all.
pub proof fn lemma_neutral_render_identity(s: ComposedStyle, t: Seq<char>)
    requires
        is_neutral(s),
    ensures
        spec_render(s, t) == t,
{
}

/// Appending one more code to a join: the first code comes bare, every
/// later one behind a semicolon.
proof fn lemma_join_push(parts: Seq<Seq<char>>, x: Seq<char>)
    ensures
        parts.len() > 0 ==> join_codes(parts.push(x)) == join_codes(parts) + seq![';'] + x,
        parts.len() == 0 ==> join_codes(parts.push(x)) == join_codes(parts) + x,
{
    let whole = parts.push(x);
    assert(whole.drop_last() =~= parts);
    assert(whole.last() == x);
    if parts.len() == 0 {
        assert(join_codes(whole) == whole[0]);
        assert(join_codes(parts) + x =~= x);
    }
}

/// Switching an attribute on twice is the same as switching it on once.
pub proof fn lemma_apply_idempotent(s: ComposedStyle, a: Attr)
    ensures
        spec_apply(spec_apply(s, a), a) == spec_apply(s, a),
{
}

/// Applying a sequence of attributes switches on exactly the attributes
/// that occur in it and touches nothing else.
pub proof fn lemma_apply_all_characterized(s: ComposedStyle, attrs: Seq<Attr>)
    ensures
        spec_apply_all(s, attrs) == (ComposedStyle {
            foreground: s.foreground,
            background: s.background,
            bold: s.bold || attrs.contains(Attr::Bold),
            dimmed: s.dimmed || attrs.contains(Attr::Dimmed),
            blink: s.blink || attrs.contains(Attr::Blink),
            strike: s.strike || attrs.contains(Attr::Strikethrough),
            underline: s.underline || attrs.contains(Attr::Underline),
            reverse: s.reverse || attrs.contains(Attr::Reverse),
            hidden: s.hidden || attrs.contains(Attr::Hidden),
        }),
    decreases attrs.len(),
{
    if attrs.len() == 0 {
    } else {
        let front = attrs.drop_last();
        lemma_apply_all_characterized(s, front);
        assert forall|x: Attr| attrs.contains(x) <==> (front.contains(x)
            || attrs.last() == x) by {
            if attrs.contains(x) {
                let i = choose|i: int| 0 <= i < attrs.len() && attrs[i] == x;
                if i < attrs.len() - 1 {
                    assert(front[i] == x);
                }
            }
            if front.contains(x) {
                let i = choose|i: int| 0 <= i < front.len() && front[i] == x;
                assert(attrs[i] == x);
            }
            if attrs.last() == x {
                assert(attrs[attrs.len() - 1] == x);
            }
        }
    }
}

/// The order in which the boolean attributes are applied does not matter:
/// any two sequences with the same members — in particular, any two
/// permutations of one another — accumulate to the same composed style,
/// which therefore renders any text to byte-identical output.
pub proof fn lemma_apply_order_irrelevant(s: ComposedStyle, a: Seq<Attr>, b: Seq<Attr>, t: Seq<char>)
    requires
        forall|x: Attr| a.contains(x) <==> b.contains(x),
    ensures
        spec_apply_all(s, a) == spec_apply_all(s, b),
        spec_render(spec_apply_all(s, a), t) == spec_render(spec_apply_all(s, b), t),
{
    lemma_apply_all_characterized(s, a);
    lemma_apply_all_characterized(s, b);
}

/// The joined SGR codes of a style: each active code in emission order,
/// separated by single semicolons.
#[verifier::rlimit(100)]
#[verifier::spinoff_prover]
fn codes_string(style: &ComposedStyle) -> (r: String)
    ensures
        r@ == join_codes(sgr_parts(*style)),
{
    proof {
        reveal_strlit(";");
        reveal_strlit("1");
        reveal_strlit("2");
        reveal_strlit("4");
        reveal_strlit("5");
        reveal_strlit("7");
        reveal_strlit("8");
        reveal_strlit("9");
    }
    assert(";"@ =~= seq![';']);
    assert("1"@ =~= attr_code(Attr::Bold));
    assert("2"@ =~= attr_code(Attr::Dimmed));
    assert("4"@ =~= attr_code(Attr::Underline));
    assert("5"@ =~= attr_code(Attr::Blink));
    assert("7"@ =~= attr_code(Attr::Reverse));
    assert("8"@ =~= attr_code(Attr::Hidden));
    assert("9"@ =~= attr_code(Attr::Strikethrough));
    let mut r = String::new();
    let mut any = false;
    let ghost mut written: Seq<Seq<char>> = Seq::empty();
    if style.bold {
        if any {
            r.append(";");
        }
        r.append("1");
        proof {
            lemma_join_push(written, attr_code(Attr::Bold));
            written = written.push(attr_code(Attr::Bold));
        }
        any = true;
    }
    assert(any == (written.len() > 0));
    assert(r@ == join_codes(written));
    if style.dimmed {
        if any {
            r.append(";");
        }
        r.append("2");
        proof {
            lemma_join_push(written, attr_code(Attr::Dimmed));
            written = written.push(attr_code(Attr::Dimmed));
        }
        any = true;
    }
    assert(any == (written.len() > 0));
    assert(r@ == join_codes(written));
    if style.underline {
        if any {
            r.append(";");
        }
        r.append("4");
        proof {
            lemma_join_push(written, attr_code(Attr::Underline));
            written = written.push(attr_code(Attr::Underline));
        }
        any = true;
    }
    assert(any == (written.len() > 0));
    assert(r@ == join_codes(written));
    if style.blink {
        if any {
            r.append(";");
        }
        r.append("5");
        proof {
            lemma_join_push(written, attr_code(Attr::Blink));
            written = written.push(attr_code(Attr::Blink));
        }
        any = true;
    }
    assert(any == (written.len() > 0));
    assert(r@ == join_codes(written));
    if style.reverse {
        if any {
            r.append(";");
        }
        r.append("7");
        proof {
            lemma_join_push(written, attr_code(Attr::Reverse));
            written = written.push(attr_code(Attr::Reverse));
        }
        any = true;
    }
    assert(any == (written.len() > 0));
    assert(r@ == join_codes(written));
    if style.hidden {
        if any {
            r.append(";");
        }
        r.append("8");
        proof {
            lemma_join_push(written, attr_code(Attr::Hidden));
            written = written.push(attr_code(Attr::Hidden));
        }
        any = true;
    }
    assert(any == (written.len() > 0));
    assert(r@ == join_codes(written));
    if style.strike {
        if any {
            r.append(";");
        }
        r.append("9");
        proof {
            lemma_join_push(written, attr_code(Attr::Strikethrough));
            written = written.push(attr_code(Attr::Strikethrough));
        }
        any = true;
    }
    assert(any == (written.len() > 0));
    assert(r@ == join_codes(written));
    match style.background {
        None => {},
        Some(c) => {
            if any {
                r.append(";");
            }
            r.append(c.bg_str());
            proof {
                lemma_join_push(written, bg_code(c));
                written = written.push(bg_code(c));
            }
            any = true;
        },
    }
    assert(any == (written.len() > 0));
    assert(r@ == join_codes(written));
    match style.foreground {
        None => {},
        Some(c) => {
            if any {
                r.append(";");
            }
            r.append(c.fg_str());
            proof {
                lemma_join_push(written, fg_code(c));
                written = written.push(fg_code(c));
            }
        },
    }
    assert(r@ == join_codes(written));
    assert(written == sgr_parts(*style));
    r
}

/// Wrap `text` in the escape prefix of `style` and one reset suffix. A
/// neutral style returns the text unchanged, with no escape bytes at all.
pub fn render(style: &ComposedStyle, text: &str) -> (r: String)
    ensures
        r@ == spec_render(*style, text@),
{
    if style.is_plain() {
        return text.to_owned();
    }
    proof {
        reveal_strlit("\u{1b}[");
        reveal_strlit("m");
        reveal_strlit("\u{1b}[0m");
    }
    assert("\u{1b}["@ =~= esc_intro());
    assert("m"@ =~= seq!['m']);
    assert("\u{1b}[0m"@ =~= reset_code());
    let codes = codes_string(style);
    let mut r = String::from_str("\u{1b}[");
    r.append(codes.as_str());
    r.append("m");
    r.append(text);
    r.append("\u{1b}[0m");
    r
}

} // verus!
