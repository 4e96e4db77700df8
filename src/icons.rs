use vstd::prelude::*;

verus! {

/// How stats and effects are labelled on screen.
#[derive(Debug, Clone, Copy, PartialEq, Eq, Structural)]
pub enum IconStyle {
    /// Nerd Font glyphs.
    NerdFont,
    /// Plain letters, for terminals without a Nerd Font.
    Compatability,
}

/// The colours the labels are drawn in.
#[derive(Debug, Clone, Copy, PartialEq, Eq, Structural)]
pub enum Color {
    Red,
    Blue,
    Green,
    White,
    DarkGrey,
}

/// The style that follows `style` when the display mode is toggled.
pub open spec fn following_style(style: IconStyle) -> IconStyle {
    match style {
        IconStyle::NerdFont => IconStyle::Compatability,
        IconStyle::Compatability => IconStyle::NerdFont,
    }
}

pub open spec fn hp_icon(style: IconStyle) -> (Color, Seq<char>) {
    match style {
        IconStyle::NerdFont => (Color::Red, "\u{f004}"@),
        IconStyle::Compatability => (Color::Red, "HP"@),
    }
}

pub open spec fn dmg_icon(style: IconStyle) -> (Color, Seq<char>) {
    match style {
        IconStyle::NerdFont => (Color::Blue, "\u{f9e4}"@),
        IconStyle::Compatability => (Color::Blue, "DM"@),
    }
}

pub open spec fn poison_icon(style: IconStyle) -> (Color, Seq<char>) {
    match style {
        IconStyle::NerdFont => (Color::Green, "\u{e275}"@),
        IconStyle::Compatability => (Color::Green, "PS"@),
    }
}

pub open spec fn curse_icon(style: IconStyle) -> (Color, Seq<char>) {
    match style {
        IconStyle::NerdFont => (Color::White, "\u{fb8a}"@),
        IconStyle::Compatability => (Color::White, "CS"@),
    }
}

/// Toggles between glyphs and plain letters.
pub fn next_style(style: IconStyle) -> (r: IconStyle)
    ensures
        r == following_style(style),
{
    match style {
        IconStyle::NerdFont => IconStyle::Compatability,
        IconStyle::Compatability => IconStyle::NerdFont,
    }
}

pub fn hp(style: IconStyle) -> (r: (Color, &'static str))
    ensures
        r.0 == hp_icon(style).0,
        r.1@ == hp_icon(style).1,
{
    match style {
        IconStyle::NerdFont => (Color::Red, "\u{f004}"),
        IconStyle::Compatability => (Color::Red, "HP"),
    }
}

pub fn dmg(style: IconStyle) -> (r: (Color, &'static str))
    ensures
        r.0 == dmg_icon(style).0,
        r.1@ == dmg_icon(style).1,
{
    match style {
        IconStyle::NerdFont => (Color::Blue, "\u{f9e4}"),
        IconStyle::Compatability => (Color::Blue, "DM"),
    }
}

pub fn poison(style: IconStyle) -> (r: (Color, &'static str))
    ensures
        r.0 == poison_icon(style).0,
        r.1@ == poison_icon(style).1,
{
    match style {
        IconStyle::NerdFont => (Color::Green, "\u{e275}"),
        IconStyle::Compatability => (Color::Green, "PS"),
    }
}

pub fn curse(style: IconStyle) -> (r: (Color, &'static str))
    ensures
        r.0 == curse_icon(style).0,
        r.1@ == curse_icon(style).1,
{
    match style {
        IconStyle::NerdFont => (Color::White, "\u{fb8a}"),
        IconStyle::Compatability => (Color::White, "CS"),
    }
}

} // verus!
