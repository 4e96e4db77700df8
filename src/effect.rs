use vstd::prelude::*;

use crate::card::Card;
use crate::icons::{Color, IconStyle, curse, curse_icon, poison, poison_icon};

verus! {

/// A persistent modifier, re-applied in full on every stat recalculation.
#[derive(Debug, Clone, Copy, PartialEq, Eq, Structural)]
pub enum StateEffect {
    /// A flat bonus to the card's damage.
    AddDamage { amount: i32 },
    /// A bonus to the card's maximum health, collected in its health overload.
    AddMaxHealth { amount: i32, applied: bool },
}

impl StateEffect {
    /// The bonus this modifier gives to a card's damage.
    pub open spec fn damage_bonus(self) -> int {
        match self {
            StateEffect::AddDamage { amount } => amount as int,
            StateEffect::AddMaxHealth { .. } => 0,
        }
    }

    /// The bonus this modifier gives to a card's health overload.
    pub open spec fn health_bonus(self) -> int {
        match self {
            StateEffect::AddDamage { .. } => 0,
            StateEffect::AddMaxHealth { amount, .. } => amount as int,
        }
    }

    /// Adds this modifier's bonus to the derived stats of `card`; nothing else
    /// of the card changes. `pos` is the modifier's index in the card's list.
    pub fn apply(self, pos: usize, card: &mut Card)
        requires
            i32::MIN <= old(card)@.added_damage + self.damage_bonus() <= i32::MAX,
            i32::MIN <= old(card)@.health_overload + self.health_bonus() <= i32::MAX,
        ensures
            final(card)@ == old(card)@.with_bonuses(
                old(card)@.added_damage + self.damage_bonus(),
                old(card)@.health_overload + self.health_bonus(),
            ),
    {
        match self {
            StateEffect::AddDamage { amount } => card.add_damage(amount),
            StateEffect::AddMaxHealth { amount, applied: _ } => card.add_health_overload(amount),
        }
    }
}

/// The kinds of transient effect.
#[derive(Debug, Clone, Copy, PartialEq, Eq, Structural)]
pub enum EffectType {
    /// Deals its stack as damage at the end of each turn.
    Poison,
    /// Doubles incoming attack damage, once per hit.
    Curse,
}

/// A stacked status condition.
#[derive(Debug, Clone, Copy, PartialEq, Eq, Structural)]
pub struct Effect {
    pub stack: i32,
    pub effect_type: EffectType,
}

/// Whether an effect of this kind reacts to a hit of this origin.
pub open spec fn amplifies(kind: EffectType, from_effect: bool) -> bool {
    kind == EffectType::Curse && !from_effect
}

/// The effect after it has reacted to a hit.
pub open spec fn after_hit(e: Effect, from_effect: bool) -> Effect {
    if amplifies(e.effect_type, from_effect) {
        Effect { stack: (e.stack - 1) as i32, effect_type: e.effect_type }
    } else {
        e
    }
}

/// The damage in flight after an effect has reacted to it.
pub open spec fn damage_after(e: Effect, damage: int, from_effect: bool) -> int {
    if amplifies(e.effect_type, from_effect) {
        2 * damage
    } else {
        damage
    }
}

/// Whether the effect can react to a hit without its stack leaving `i32`.
pub open spec fn can_react(e: Effect, from_effect: bool) -> bool {
    amplifies(e.effect_type, from_effect) ==> e.stack > i32::MIN
}

/// The label an effect of kind `kind` is shown with.
pub open spec fn effect_icon(kind: EffectType, style: IconStyle) -> (Color, Seq<char>) {
    match kind {
        EffectType::Poison => poison_icon(style),
        EffectType::Curse => curse_icon(style),
    }
}

impl Effect {
    pub fn new(stack: i32, effect_type: EffectType) -> (r: Self)
        ensures
            r == (Effect { stack, effect_type }),
    {
        Effect { stack, effect_type }
    }

    /// The colour and label this effect is shown with, next to its stack.
    pub fn icon(&self, style: IconStyle) -> (r: (Color, &'static str))
        ensures
            r.0 == effect_icon(self.effect_type, style).0,
            r.1@ == effect_icon(self.effect_type, style).1,
    {
        match self.effect_type {
            EffectType::Poison => poison(style),
            EffectType::Curse => curse(style),
        }
    }

    /// End-of-turn trigger. A poison effect deals its stack as effect damage
    /// to `card` and then loses one stack; other kinds do nothing.
    pub fn on_turn_end(&mut self, card: &mut Card)
        requires
            old(card)@.wf(),
            old(self).effect_type == EffectType::Poison ==> {
                &&& old(self).stack > i32::MIN
                &&& i32::MIN <= old(card)@.health - old(self).stack <= i32::MAX
            },
        ensures
            final(card)@.wf(),
            old(self).effect_type == EffectType::Poison ==> {
                &&& final(card)@ == old(card)@.with_health(old(card)@.health - old(self).stack)
                &&& *final(self) == (Effect { stack: (old(self).stack - 1) as i32, ..*old(self) })
            },
            old(self).effect_type != EffectType::Poison ==> {
                &&& *final(card) == *old(card)
                &&& *final(self) == *old(self)
            },
    {
        match self.effect_type {
            EffectType::Poison => {
                proof {
                    crate::card::lemma_effect_damage_unchanged(
                        card@.effects,
                        self.stack as int,
                    );
                }
                card.take_damage(self.stack, true);
                self.stack = self.stack - 1;
            },
            _ => (),
        }
    }

    /// Damage-taken trigger. A curse effect, on a hit that does not come from
    /// an effect, loses one stack and doubles the damage in flight; otherwise
    /// nothing changes.
    pub fn on_damage_taken(&mut self, damage: &mut i32, from_effect: bool)
        requires
            can_react(*old(self), from_effect),
            amplifies(old(self).effect_type, from_effect) ==> i32::MIN <= 2 * *old(damage)
                <= i32::MAX,
        ensures
            *final(self) == after_hit(*old(self), from_effect),
            *final(damage) == damage_after(*old(self), *old(damage) as int, from_effect),
    {
        if self.effect_type == EffectType::Curse && !from_effect {
            self.stack = self.stack - 1;
            *damage = *damage * 2;
        }
    }
}

} // verus!
