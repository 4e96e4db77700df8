use cardgame::icons::{self, Color, IconStyle};
use cardgame::layout::{
    self, Control, Frame, Input, Screen, BOARD_WIDTH, MIN_X, MIN_Y,
};
use cardgame::text::{self, TerminalStyle};
use cardgame::{Effect, EffectType};

#[test]
fn icon_style_toggles() {
    assert_eq!(icons::next_style(IconStyle::NerdFont), IconStyle::Compatability);
    assert_eq!(icons::next_style(IconStyle::Compatability), IconStyle::NerdFont);
}

#[test]
fn icons_in_each_style() {
    assert_eq!(icons::hp(IconStyle::Compatability), (Color::Red, "HP"));
    assert_eq!(icons::dmg(IconStyle::Compatability), (Color::Blue, "DM"));
    assert_eq!(icons::poison(IconStyle::Compatability), (Color::Green, "PS"));
    assert_eq!(icons::curse(IconStyle::Compatability), (Color::White, "CS"));
    assert_eq!(icons::hp(IconStyle::NerdFont), (Color::Red, "\u{f004}"));
    assert_eq!(icons::dmg(IconStyle::NerdFont), (Color::Blue, "\u{f9e4}"));
    assert_eq!(icons::poison(IconStyle::NerdFont), (Color::Green, "\u{e275}"));
    assert_eq!(icons::curse(IconStyle::NerdFont), (Color::White, "\u{fb8a}"));
}

#[test]
fn effect_icon_follows_kind() {
    let p = Effect::new(1, EffectType::Poison);
    let c = Effect::new(1, EffectType::Curse);
    assert_eq!(p.icon(IconStyle::Compatability), (Color::Green, "PS"));
    assert_eq!(c.icon(IconStyle::NerdFont), (Color::White, "\u{fb8a}"));
}

#[test]
fn terminal_style_cycles() {
    assert_eq!(text::next_style(TerminalStyle::Compability), TerminalStyle::NerdFont);
    assert_eq!(text::next_style(TerminalStyle::NerdFont), TerminalStyle::Compability);
    assert_eq!(text::next_style(TerminalStyle::Total), TerminalStyle::NerdFont);
}

#[test]
fn text_labels_in_each_style() {
    assert_eq!(text::get_hp_text(TerminalStyle::Compability), (Color::Red, "HP"));
    assert_eq!(text::get_dmg_text(TerminalStyle::Compability), (Color::Blue, "DMG"));
    assert_eq!(text::get_poison_text(TerminalStyle::Total), (Color::Green, "Po "));
    assert_eq!(text::get_curse_text(TerminalStyle::Compability), (Color::White, "Cu "));
    assert_eq!(text::get_hp_text(TerminalStyle::NerdFont), (Color::Red, "\u{f004} "));
    assert_eq!(text::get_curse_text(TerminalStyle::NerdFont), (Color::White, "\u{fb8a}  "));
}

#[test]
fn screen_constants() {
    assert_eq!(BOARD_WIDTH, 60);
    assert_eq!(MIN_X, 126);
    assert_eq!(MIN_Y, 37);
}

#[test]
fn board_slots() {
    assert_eq!(layout::slot_origin(3, 0, 0, 0), (3, 0));
    assert_eq!(layout::slot_origin(3, 0, 2, 1), (23, 22));
}

#[test]
fn name_is_centred() {
    assert_eq!(layout::name_column(0, 8), 6);
    assert_eq!(layout::name_column(40, 3), 49);
}

#[test]
fn hand_is_centred() {
    let origin = layout::hand_origin(100, 50, 2);
    assert_eq!(origin, (80, 40));
    assert_eq!(layout::hand_slot(origin, 0), ((80, 40), (90, 39)));
    assert_eq!(layout::hand_slot(origin, 1), ((100, 40), (110, 39)));
}

#[test]
fn screen_handles_keys() {
    let mut s = Screen::new(200, 50);
    assert_eq!(s.handle(Input::Key('x')), Control::Continue);
    assert_eq!(s, Screen::new(200, 50));
    assert_eq!(s.handle(Input::Key('n')), Control::Continue);
    assert_eq!(s.style, IconStyle::Compatability);
    assert!(s.dirty);
    assert_eq!(s.handle(Input::Key('0')), Control::Unsupported);
    assert_eq!(s.handle(Input::Key('q')), Control::Quit);
    assert_eq!(s.handle(Input::Other), Control::Continue);
}

#[test]
fn screen_frames() {
    let mut s = Screen::new(200, 50);
    assert_eq!(
        s.frame(),
        Frame::Board { player_x: 37, enemy_x: 103, hand_x: 100, hand_y: 50 }
    );
    assert_eq!(s.frame(), Frame::Unchanged);
    assert_eq!(s.handle(Input::Resize(100, 50)), Control::Continue);
    assert_eq!((s.width, s.height), (100, 50));
    assert_eq!(s.frame(), Frame::TooSmall);
    s.handle(Input::Resize(MIN_X, MIN_Y));
    assert!(s.fits());
    assert_eq!(
        s.frame(),
        Frame::Board { player_x: 0, enemy_x: 66, hand_x: 63, hand_y: 37 }
    );
}
