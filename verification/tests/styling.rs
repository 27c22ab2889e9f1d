use std::io::BufRead;

use tint::color::Color;
use tint::style::{compose, render, Attr, ComposedStyle, StyleRequest};
use tint::text::resolve_text;

fn plain_request() -> StyleRequest {
    StyleRequest {
        foreground: None,
        background: None,
        bold: false,
        dimmed: false,
        blink: false,
        strike: false,
        underline: false,
        reverse: false,
        hidden: false,
    }
}

fn to_colour(c: Color) -> ansi_term::Colour {
    match c {
        Color::Black => ansi_term::Colour::Black,
        Color::Red => ansi_term::Colour::Red,
        Color::Green => ansi_term::Colour::Green,
        Color::Yellow => ansi_term::Colour::Yellow,
        Color::Blue => ansi_term::Colour::Blue,
        Color::Purple => ansi_term::Colour::Purple,
        Color::Cyan => ansi_term::Colour::Cyan,
        Color::White => ansi_term::Colour::White,
    }
}

/// What the ansi_term crate prints for the same request: the reference
/// output our renderer must reproduce byte for byte.
fn oracle(req: &StyleRequest, text: &str) -> String {
    let mut style = ansi_term::Style::new();
    if let Some(c) = req.foreground {
        style = style.fg(to_colour(c));
    }
    if let Some(c) = req.background {
        style = style.on(to_colour(c));
    }
    if req.bold {
        style = style.bold();
    }
    if req.dimmed {
        style = style.dimmed();
    }
    if req.blink {
        style = style.blink();
    }
    if req.strike {
        style = style.strikethrough();
    }
    if req.underline {
        style = style.underline();
    }
    if req.reverse {
        style = style.reverse();
    }
    if req.hidden {
        style = style.hidden();
    }
    style.paint(text).to_string()
}

#[test]
fn neutral_style_renders_text_unchanged() {
    let style = compose(&plain_request());
    let out = render(&style, "some text\n");
    assert_eq!(out, "some text\n");
    assert!(!out.contains('\u{1b}'));
}

#[test]
fn foreground_red_wraps_in_red_and_reset() {
    let mut req = plain_request();
    req.foreground = Some(Color::Red);
    let out = render(&compose(&req), "hello");
    assert_eq!(out, "\u{1b}[31mhello\u{1b}[0m");
    let stripped = out.strip_prefix("\u{1b}[31m").unwrap().strip_suffix("\u{1b}[0m").unwrap();
    assert_eq!(stripped, "hello");
}

#[test]
fn background_only_uses_background_code() {
    let mut req = plain_request();
    req.background = Some(Color::Green);
    assert_eq!(render(&compose(&req), "x"), "\u{1b}[42mx\u{1b}[0m");
}

#[test]
fn every_attribute_and_both_colors_in_one_prefix() {
    let req = StyleRequest {
        foreground: Some(Color::Cyan),
        background: Some(Color::Black),
        bold: true,
        dimmed: true,
        blink: true,
        strike: true,
        underline: true,
        reverse: true,
        hidden: true,
    };
    let out = render(&compose(&req), "text");
    assert_eq!(out, "\u{1b}[1;2;4;5;7;8;9;40;36mtext\u{1b}[0m");
    assert_eq!(out.matches("\u{1b}[0m").count(), 1);
    assert_eq!(out.matches('\u{1b}').count(), 2);
}

#[test]
fn attribute_application_order_does_not_matter() {
    let a = ComposedStyle::plain().apply(Attr::Bold).apply(Attr::Underline).apply(Attr::Blink);
    let b = ComposedStyle::plain().apply(Attr::Blink).apply(Attr::Bold).apply(Attr::Underline);
    assert_eq!(a, b);
    assert_eq!(render(&a, "t"), render(&b, "t"));
}

#[test]
fn applying_an_attribute_twice_is_like_once() {
    let once = ComposedStyle::plain().apply(Attr::Hidden);
    let twice = ComposedStyle::plain().apply(Attr::Hidden).apply(Attr::Hidden);
    assert_eq!(once, twice);
    assert_eq!(render(&once, "t"), render(&twice, "t"));
}

#[test]
fn compose_carries_every_field_over() {
    let req = StyleRequest {
        foreground: Some(Color::Yellow),
        background: Some(Color::Blue),
        bold: true,
        dimmed: false,
        blink: true,
        strike: false,
        underline: true,
        reverse: false,
        hidden: true,
    };
    let style = compose(&req);
    assert_eq!(style.foreground, Some(Color::Yellow));
    assert_eq!(style.background, Some(Color::Blue));
    assert!(style.bold && style.blink && style.underline && style.hidden);
    assert!(!style.dimmed && !style.strike && !style.reverse);
}

#[test]
fn color_code_strings() {
    assert_eq!(Color::Black.fg_str(), "30");
    assert_eq!(Color::Red.fg_str(), "31");
    assert_eq!(Color::Green.fg_str(), "32");
    assert_eq!(Color::Yellow.fg_str(), "33");
    assert_eq!(Color::Blue.fg_str(), "34");
    assert_eq!(Color::Purple.fg_str(), "35");
    assert_eq!(Color::Cyan.fg_str(), "36");
    assert_eq!(Color::White.fg_str(), "37");
    assert_eq!(Color::Black.bg_str(), "40");
    assert_eq!(Color::White.bg_str(), "47");
}

#[test]
fn scenario_plain_words() {
    let words = vec!["hello".to_string(), "world".to_string()];
    let text = resolve_text(&words, &Vec::new());
    let out = render(&compose(&plain_request()), &text);
    assert_eq!(out, "hello world");
    assert!(!out.contains('\u{1b}'));
}

#[test]
fn scenario_stdin_red_bold() {
    let lines: Vec<String> =
        std::io::Cursor::new("x\n".as_bytes()).lines().map(|l| l.unwrap()).collect();
    let text = resolve_text(&Vec::new(), &lines);
    assert_eq!(text, "x\n");
    let mut req = plain_request();
    req.foreground = Some(Color::Red);
    req.bold = true;
    let out = render(&compose(&req), &text);
    assert_eq!(out, "\u{1b}[1;31mx\n\u{1b}[0m");
}

#[test]
fn render_matches_the_ansi_term_crate() {
    let texts = ["", "x", "hello world", "line\n"];
    let mut requests = vec![plain_request()];
    for color in [Color::Black, Color::Red, Color::Purple, Color::White] {
        let mut req = plain_request();
        req.foreground = Some(color);
        requests.push(req);
        let mut req = plain_request();
        req.background = Some(color);
        requests.push(req);
    }
    let mut bold = plain_request();
    bold.bold = true;
    requests.push(bold);
    let mut mixed = plain_request();
    mixed.underline = true;
    mixed.blink = true;
    mixed.background = Some(Color::Purple);
    requests.push(mixed);
    let all_on = StyleRequest {
        foreground: Some(Color::Cyan),
        background: Some(Color::Black),
        bold: true,
        dimmed: true,
        blink: true,
        strike: true,
        underline: true,
        reverse: true,
        hidden: true,
    };
    requests.push(all_on);
    for req in &requests {
        for text in texts {
            assert_eq!(render(&compose(req), text), oracle(req, text));
        }
    }
}
