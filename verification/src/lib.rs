//! A small text-styling library: it joins input words or lines into one
//! piece of text, and wraps that text in ANSI SGR escape sequences that
//! apply a foreground colour, a background colour, and a set of boolean
//! attributes (bold, dimmed, blink, strikethrough, underline, reverse,
//! hidden).

pub mod color;
pub mod style;
pub mod text;
