//! Stat and effect engine of a turn-based card game.
//!
//! A [`Card`] owns its health, its damage, a list of transient status
//! [`Effect`]s and a list of persistent [`StateEffect`] modifiers. The
//! modules `icons`, `text` and `layout` hold the display-side decisions
//! (glyph choice, screen geometry, input handling) as plain functions, so
//! that a terminal front end only has to perform the output.

pub mod card;
pub mod effect;
pub mod icons;
pub mod layout;
pub mod text;

pub use card::Card;
pub use effect::{Effect, EffectType, StateEffect};
