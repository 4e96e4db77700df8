use vstd::prelude::*;

use crate::card::{CARD_HEIGHT, CARD_WIDTH};
use crate::icons::{IconStyle, following_style, next_style};

verus! {

pub const HORIZONTAL_CARD_MARGIN: u16 = 0;

pub const VERTICAL_CARD_MARGIN: u16 = 1;

/// Gap between the player's board and the enemy's.
pub const CENTER_BOARD_MARGIN: u16 = 6;

pub const BOARD_COLUMNS: u16 = 3;

pub const BOARD_ROWS: u16 = 3;

pub const BOARD_WIDTH: u16 = BOARD_COLUMNS * CARD_WIDTH + (BOARD_COLUMNS - 1)
    * HORIZONTAL_CARD_MARGIN;

/// Narrowest screen that holds both boards.
pub const MIN_X: u16 = BOARD_WIDTH * 2 + CENTER_BOARD_MARGIN;

/// Lowest screen that holds a board and half a card of the hand.
pub const MIN_Y: u16 = CARD_HEIGHT * BOARD_ROWS + (BOARD_ROWS - 1) * VERTICAL_CARD_MARGIN
    + CARD_HEIGHT / 2;

/// Top-left corner of the slot in `row` and `col` of a board whose corner is
/// at `x`, `y`.
pub fn slot_origin(x: u16, y: u16, row: u16, col: u16) -> (r: (u16, u16))
    requires
        x + (CARD_WIDTH + HORIZONTAL_CARD_MARGIN) * col <= u16::MAX,
        y + (CARD_HEIGHT + VERTICAL_CARD_MARGIN) * row <= u16::MAX,
    ensures
        r.0 == x + (CARD_WIDTH + HORIZONTAL_CARD_MARGIN) * col,
        r.1 == y + (CARD_HEIGHT + VERTICAL_CARD_MARGIN) * row,
{
    (x + (CARD_WIDTH + HORIZONTAL_CARD_MARGIN) * col, y + (CARD_HEIGHT + VERTICAL_CARD_MARGIN) * row)
}

/// Column where a name `len` columns wide starts, so that it is centred on
/// the top border of a card whose left edge is at `x`.
pub fn name_column(x: u16, len: u16) -> (r: u16)
    requires
        x + CARD_WIDTH / 2 <= u16::MAX,
        len / 2 <= x + CARD_WIDTH / 2,
    ensures
        r == x + CARD_WIDTH / 2 - len / 2,
{
    x + CARD_WIDTH / 2 - len / 2
}

/// Top-left corner of a hand of `count` cards laid side by side, centred on
/// `x`, with their bottom edge at `y`.
pub fn hand_origin(x: u16, y: u16, count: u16) -> (r: (u16, u16))
    requires
        count * CARD_WIDTH <= u16::MAX,
        count * CARD_WIDTH / 2 <= x,
        CARD_HEIGHT <= y,
    ensures
        r.0 == x - count * CARD_WIDTH / 2,
        r.1 == y - CARD_HEIGHT,
{
    (x - count * CARD_WIDTH / 2, y - CARD_HEIGHT)
}

/// Where the card at index `i` of a hand that starts at `origin` goes, and
/// where its index is written, centred above it.
pub fn hand_slot(origin: (u16, u16), i: u16) -> (r: ((u16, u16), (u16, u16)))
    requires
        origin.0 + CARD_WIDTH * i + CARD_WIDTH / 2 <= u16::MAX,
        1 <= origin.1,
    ensures
        r.0.0 == origin.0 + CARD_WIDTH * i,
        r.0.1 == origin.1,
        r.1.0 == origin.0 + CARD_WIDTH * i + CARD_WIDTH / 2,
        r.1.1 == origin.1 - 1,
{
    let left = origin.0 + CARD_WIDTH * i;
    ((left, origin.1), (left + CARD_WIDTH / 2, origin.1 - 1))
}

/// An event from the terminal, as the screen logic sees it.
#[derive(Debug, Clone, Copy, PartialEq, Eq, Structural)]
pub enum Input {
    /// A key that produced a character.
    Key(char),
    /// The terminal now has this width and height.
    Resize(u16, u16),
    /// Anything else.
    Other,
}

/// What the event loop does after an input.
#[derive(Debug, Clone, Copy, PartialEq, Eq, Structural)]
pub enum Control {
    Continue,
    Quit,
    /// The input asks for something the game does not do yet.
    Unsupported,
}

/// What to draw when a frame is due.
#[derive(Debug, Clone, Copy, PartialEq, Eq, Structural)]
pub enum Frame {
    /// Nothing changed since the last frame.
    Unchanged,
    /// The screen is below `MIN_X` by `MIN_Y`: draw a notice instead.
    TooSmall,
    /// Draw both boards and the hand: left edges of the boards, and the
    /// bottom-centre point of the hand.
    Board { player_x: u16, enemy_x: u16, hand_x: u16, hand_y: u16 },
}

/// The display state of the game screen.
#[derive(Debug, Clone, Copy, PartialEq, Eq, Structural)]
pub struct Screen {
    pub width: u16,
    pub height: u16,
    /// Whether the screen must be drawn again.
    pub dirty: bool,
    pub style: IconStyle,
}

/// The screen after `input`, and what the loop does next.
pub open spec fn after_input(s: Screen, input: Input) -> (Screen, Control) {
    match input {
        Input::Key(c) => if c == 'q' {
            (s, Control::Quit)
        } else if c == '0' {
            (s, Control::Unsupported)
        } else if c == 'n' {
            (Screen { style: following_style(s.style), dirty: true, ..s }, Control::Continue)
        } else {
            (s, Control::Continue)
        },
        Input::Resize(width, height) => (
            Screen { width, height, dirty: true, ..s },
            Control::Continue,
        ),
        Input::Other => (s, Control::Continue),
    }
}

pub open spec fn screen_fits(s: Screen) -> bool {
    s.width >= MIN_X && s.height >= MIN_Y
}

/// The frame to draw for a screen that is due to be drawn.
pub open spec fn frame_of(s: Screen) -> Frame {
    if screen_fits(s) {
        Frame::Board {
            player_x: (s.width / 2 - BOARD_WIDTH - CENTER_BOARD_MARGIN / 2) as u16,
            enemy_x: (s.width / 2 + CENTER_BOARD_MARGIN / 2) as u16,
            hand_x: s.width / 2,
            hand_y: s.height,
        }
    } else {
        Frame::TooSmall
    }
}

impl Screen {
    /// A screen of the given size, in the glyph style, due to be drawn.
    pub fn new(width: u16, height: u16) -> (r: Screen)
        ensures
            r == (Screen { width, height, dirty: true, style: IconStyle::NerdFont }),
    {
        Screen { width, height, dirty: true, style: IconStyle::NerdFont }
    }

    /// `q` quits, `n` toggles the label style, `0` is not supported yet, a
    /// resize records the new size; the screen is redrawn after a change.
    pub fn handle(&mut self, input: Input) -> (r: Control)
        ensures
            (*final(self), r) == after_input(*old(self), input),
    {
        match input {
            Input::Key(c) => {
                if c == 'q' {
                    Control::Quit
                } else if c == '0' {
                    Control::Unsupported
                } else if c == 'n' {
                    self.style = next_style(self.style);
                    self.dirty = true;
                    Control::Continue
                } else {
                    Control::Continue
                }
            },
            Input::Resize(width, height) => {
                self.width = width;
                self.height = height;
                self.dirty = true;
                Control::Continue
            },
            Input::Other => Control::Continue,
        }
    }

    /// Whether both boards fit on the screen.
    pub fn fits(&self) -> (r: bool)
        ensures
            r == screen_fits(*self),
    {
        self.width >= MIN_X && self.height >= MIN_Y
    }

    /// The frame to draw now; a screen that was due is drawn and no longer due.
    pub fn frame(&mut self) -> (r: Frame)
        ensures
            !old(self).dirty ==> r == Frame::Unchanged && *final(self) == *old(self),
            old(self).dirty ==> r == frame_of(*old(self)) && *final(self) == (Screen {
                dirty: false,
                ..*old(self)
            }),
    {
        if !self.dirty {
            return Frame::Unchanged;
        }
        self.dirty = false;
        if self.fits() {
            let half = self.width / 2;
            Frame::Board {
                player_x: half - BOARD_WIDTH - CENTER_BOARD_MARGIN / 2,
                enemy_x: half + CENTER_BOARD_MARGIN / 2,
                hand_x: half,
                hand_y: self.height,
            }
        } else {
            Frame::TooSmall
        }
    }
}

} // verus!
