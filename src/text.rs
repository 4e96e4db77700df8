use vstd::prelude::*;

use crate::icons::Color;

verus! {

/// The label sets of the wider, padded text labels.
#[derive(Debug, Clone, Copy, PartialEq, Eq, Structural)]
pub enum TerminalStyle {
    /// Plain letters, for terminals without a Nerd Font.
    Compability,
    /// Nerd Font glyphs.
    NerdFont,
    /// The number of label sets; not a set itself.
    Total,
}

/// The position of a style in the cycle of label sets.
pub open spec fn style_index(style: TerminalStyle) -> nat {
    match style {
        TerminalStyle::Compability => 0,
        TerminalStyle::NerdFont => 1,
        TerminalStyle::Total => 2,
    }
}

/// The number of label sets in the cycle.
pub open spec fn style_count() -> nat {
    2
}

pub open spec fn hp_label(style: TerminalStyle) -> (Color, Seq<char>) {
    if style == TerminalStyle::NerdFont {
        (Color::Red, "\u{f004} "@)
    } else {
        (Color::Red, "HP"@)
    }
}

pub open spec fn dmg_label(style: TerminalStyle) -> (Color, Seq<char>) {
    if style == TerminalStyle::NerdFont {
        (Color::Blue, "\u{f9e4}  "@)
    } else {
        (Color::Blue, "DMG"@)
    }
}

pub open spec fn poison_label(style: TerminalStyle) -> (Color, Seq<char>) {
    if style == TerminalStyle::NerdFont {
        (Color::Green, "\u{e275}  "@)
    } else {
        (Color::Green, "Po "@)
    }
}

pub open spec fn curse_label(style: TerminalStyle) -> (Color, Seq<char>) {
    if style == TerminalStyle::NerdFont {
        (Color::White, "\u{fb8a}  "@)
    } else {
        (Color::White, "Cu "@)
    }
}

/// The next label set in the cycle, wrapping round after the last one.
pub fn next_style(style: TerminalStyle) -> (r: TerminalStyle)
    ensures
        style_index(r) == (style_index(style) + 1) % style_count(),
{
    match style {
        TerminalStyle::Compability => TerminalStyle::NerdFont,
        TerminalStyle::NerdFont => TerminalStyle::Compability,
        TerminalStyle::Total => TerminalStyle::NerdFont,
    }
}

pub fn get_hp_text(style: TerminalStyle) -> (r: (Color, &'static str))
    ensures
        r.0 == hp_label(style).0,
        r.1@ == hp_label(style).1,
{
    match style {
        TerminalStyle::NerdFont => (Color::Red, "\u{f004} "),
        _ => (Color::Red, "HP"),
    }
}

pub fn get_dmg_text(style: TerminalStyle) -> (r: (Color, &'static str))
    ensures
        r.0 == dmg_label(style).0,
        r.1@ == dmg_label(style).1,
{
    match style {
        TerminalStyle::NerdFont => (Color::Blue, "\u{f9e4}  "),
        _ => (Color::Blue, "DMG"),
    }
}

pub fn get_poison_text(style: TerminalStyle) -> (r: (Color, &'static str))
    ensures
        r.0 == poison_label(style).0,
        r.1@ == poison_label(style).1,
{
    match style {
        TerminalStyle::NerdFont => (Color::Green, "\u{e275}  "),
        _ => (Color::Green, "Po "),
    }
}

pub fn get_curse_text(style: TerminalStyle) -> (r: (Color, &'static str))
    ensures
        r.0 == curse_label(style).0,
        r.1@ == curse_label(style).1,
{
    match style {
        TerminalStyle::NerdFont => (Color::White, "\u{fb8a}  "),
        _ => (Color::White, "Cu "),
    }
}

} // verus!
